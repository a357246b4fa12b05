use std::collections::HashSet;

use vn_engine::config::extra::{extra_config_path, ExtraConfig};
use vn_engine::config::initialize::{Character, InitializeConfig};
use vn_engine::config::EngineConfig;
use vn_engine::executor::Executor;
use vn_engine::media::video_player::video_file_path;

fn sample_config() -> EngineConfig {
    let initialize = InitializeConfig {
        script_path: "./source/script/".to_string(),
        background_path: "./source/bg/".to_string(),
        cg_path: "./source/cg/".to_string(),
        voice_path: "./source/voice/".to_string(),
        bgm_path: "./source/bgm/".to_string(),
        video_path: "./source/video/".to_string(),
        figure_path: "./source/figure/".to_string(),
        save_path: "./save".to_string(),
    };
    let mut list = HashSet::new();
    list.insert("Alice".to_string());
    EngineConfig::new(initialize, Character { list })
}

#[test]
fn engine_config_paths_are_its_directories() {
    let config = sample_config();
    assert_eq!(config.script_path(), "./source/script/");
    assert_eq!(config.background_path(), "./source/bg/");
    assert_eq!(config.cg_path(), "./source/cg/");
    assert_eq!(config.voice_path(), "./source/voice/");
    assert_eq!(config.bgm_path(), "./source/bgm/");
    assert_eq!(config.video_path(), "./source/video/");
    assert_eq!(config.figure_path(), "./source/figure/");
    assert_eq!(config.save_path(), "./save");
}

#[test]
fn extra_config_counts_unlocked_cg() {
    assert_eq!(ExtraConfig::new(0).cg(), 0);
    assert_eq!(ExtraConfig::new(12).cg(), 12);
    assert_eq!(ExtraConfig::new(u64::MAX).cg(), u64::MAX);
}

#[test]
fn load_extra_takes_the_cg_count() {
    let mut executor = Executor::new(3);
    assert_eq!(executor.cg(), 3);
    executor.load_extra(&ExtraConfig::new(9));
    assert_eq!(executor.cg(), 9);
    executor.set_cg(1);
    assert_eq!(executor.cg(), 1);
}

#[test]
fn extra_config_lives_in_the_save_directory() {
    let config = sample_config();
    assert_eq!(extra_config_path(config.save_path()), "./save/extra.toml");
    assert_eq!(extra_config_path(""), "/extra.toml");
}

#[test]
fn video_file_is_directory_name_and_extension() {
    let config = sample_config();
    assert_eq!(
        video_file_path(config.video_path(), "op"),
        "./source/video/op.wmv"
    );
    assert_eq!(video_file_path("", "ed"), "ed.wmv");
}
