use vn_engine::media::player::PreBgm;
use vn_engine::script::backlog::BackLogItem;
use vn_engine::script::Script;

fn line(text: &str) -> BackLogItem {
    BackLogItem {
        front: "A".to_string(),
        back: text.to_string(),
        script: "s".to_string(),
        index: 0,
        chara: String::new(),
        voice: String::new(),
    }
}

fn texts(items: &[BackLogItem]) -> Vec<String> {
    items.iter().map(|i| i.back.clone()).collect()
}

#[test]
fn new_script_is_empty() {
    let script: Script<String, u32> = Script::new();
    assert_eq!(script.name(), "");
    assert_eq!(script.explain(), "");
    assert_eq!(script.current_bgm(), "");
    assert_eq!(script.index(), 0);
    assert!(script.backlog().is_empty());
    assert!(!script.in_clear());
    assert_eq!(script.find_label("start"), None);
    assert_eq!(script.get_choice_label("yes"), None);
}

#[test]
fn set_name_and_current_bgm() {
    let mut script: Script<String, u32> = Script::new();
    script.set_name("ky01");
    script.set_current_bgm("theme".to_string());
    assert_eq!(script.name(), "ky01");
    assert_eq!(script.current_bgm(), "theme");
}

#[test]
fn next_command_walks_the_blocks() {
    let mut script: Script<String, u32> = Script::new();
    script.push_command(10);
    script.push_command(20);
    assert_eq!(script.next_command(), Some(&10));
    assert_eq!(script.index(), 1);
    assert_eq!(script.next_command(), Some(&20));
    assert_eq!(script.next_command(), None);
    assert_eq!(script.index(), 3);
}

#[test]
fn explain_is_cut_to_eighteen_bytes() {
    let mut script: Script<String, u32> = Script::new();
    script.set_explain("short");
    assert_eq!(script.explain(), "short...");
    script.set_explain("exactly eighteen!!");
    assert_eq!(script.explain(), "exactly eighteen!!...");
    script.set_explain("this line is longer than eighteen bytes");
    assert_eq!(script.explain(), "this line is longe...");
    script.set_explain("今天天气很好啊朋友");
    assert_eq!(script.explain(), "今天天气很好...");
    script.set_explain("");
    assert_eq!(script.explain(), "...");
}

#[test]
fn backlog_window_and_scrolling() {
    let mut script: Script<String, u32> = Script::new();
    script.set_backlog((0..7).map(|i| line(&i.to_string())).collect());
    assert_eq!(texts(&script.backlog()), vec!["3", "4", "5", "6"]);
    script.set_offset(1);
    assert_eq!(texts(&script.backlog()), vec!["2", "3", "4", "5"]);
    script.set_offset(10);
    assert_eq!(texts(&script.backlog()), vec!["0", "1", "2", "3"]);
    script.set_offset(-2);
    assert_eq!(texts(&script.backlog()), vec!["2", "3", "4", "5"]);
    script.set_offset(-100);
    assert_eq!(texts(&script.backlog()), vec!["3", "4", "5", "6"]);
}

#[test]
fn short_backlog_shows_everything_and_does_not_scroll() {
    let mut script: Script<String, u32> = Script::new();
    script.set_backlog(vec![line("a"), line("b")]);
    script.set_offset(3);
    assert_eq!(texts(&script.backlog()), vec!["a", "b"]);
    script.set_backlog(vec![]);
    assert!(script.backlog().is_empty());
}

#[test]
fn push_backlog_records_where_the_line_was_said() {
    let mut script: Script<String, u32> = Script::new();
    script.set_name("ky01");
    script.push_command(1);
    script.next_command();
    script.push_backlog(
        "Alice".to_string(),
        "Hello".to_string(),
        Some(("alice".to_string(), "v001".to_string())),
    );
    script.push_backlog("Bob".to_string(), "Hi".to_string(), None);
    let lines = script.take_backlog();
    assert_eq!(lines.len(), 2);
    assert_eq!(
        lines[0],
        BackLogItem {
            front: "Alice".to_string(),
            back: "Hello".to_string(),
            script: "ky01".to_string(),
            index: 1,
            chara: "alice".to_string(),
            voice: "v001".to_string(),
        }
    );
    assert_eq!(lines[1].chara, "");
    assert_eq!(lines[1].voice, "");
}

#[test]
fn last_voice_of_the_newest_line() {
    let mut script: Script<String, u32> = Script::new();
    script.push_backlog(
        "Alice".to_string(),
        "Hello".to_string(),
        Some(("alice".to_string(), "v001".to_string())),
    );
    assert_eq!(
        script.last_voice(),
        Some(("alice".to_string(), "v001".to_string()))
    );
    script.push_backlog("Bob".to_string(), "Hi".to_string(), None);
    assert_eq!(script.last_voice(), None);
    script.push_backlog(
        "Carol".to_string(),
        "Hey".to_string(),
        Some(("carol".to_string(), String::new())),
    );
    assert_eq!(script.last_voice(), Some(("carol".to_string(), String::new())));
}

#[test]
fn pre_voice_is_taken_once() {
    let mut script: Script<String, u32> = Script::new();
    assert_eq!(script.pre_voice(), None);
    script.set_pre_voice(("alice".to_string(), "v002".to_string()));
    assert_eq!(
        script.pre_voice(),
        Some(("alice".to_string(), "v002".to_string()))
    );
    assert_eq!(script.pre_voice(), None);
}

#[test]
fn labels_choices_and_clears_are_found() {
    let mut script: Script<String, u32> = Script::new();
    script.insert_label("start".to_string(), 0);
    script.insert_label("end".to_string(), 42);
    script.insert_label("start".to_string(), 3);
    assert_eq!(script.find_label("start"), Some(&3));
    assert_eq!(script.find_label("end"), Some(&42));
    assert_eq!(script.find_label("middle"), None);
    script.insert_choice(
        "Go left".to_string(),
        ("ky02".to_string(), "left".to_string()),
    );
    assert_eq!(
        script.get_choice_label("Go left"),
        Some(&("ky02".to_string(), "left".to_string()))
    );
    assert_eq!(script.get_choice_label("Go right"), None);
    script.insert_clear(1);
    assert!(!script.in_clear());
    script.push_command(0);
    script.next_command();
    assert!(script.in_clear());
}

#[test]
fn jump_sets_up_the_scene_to_restore() {
    let mut script: Script<String, u32> = Script::new();
    script.insert_bgm(0, "theme".to_string());
    script.insert_background(0, "room".to_string());
    script.update_figures(2, "near", "left", "alice".to_string());
    script.insert_background(8, "street".to_string());
    script.set_current_bgm("theme".to_string());
    script.set_pre_items(None);
    assert_eq!(script.index(), 0);
    let (bg, bgm, figure) = script.pre_items();
    assert_eq!(bg, None);
    assert_eq!(bgm, PreBgm::Keep);
    assert!(figure.is_none());
    script.set_pre_items(Some(5));
    assert_eq!(script.index(), 5);
    let (bg, bgm, figure) = script.pre_items();
    assert_eq!(bg, Some("room".to_string()));
    assert_eq!(bgm, PreBgm::Keep);
    let figure = figure.unwrap();
    assert_eq!(figure.get(&"nearleft".to_string()), Some(&"alice".to_string()));
    let (bg, bgm, figure) = script.pre_items();
    assert_eq!(bg, None);
    assert_eq!(bgm, PreBgm::Keep);
    assert!(figure.is_none());
    script.set_current_bgm("other".to_string());
    script.set_pre_items(Some(9));
    let (bg, bgm, _) = script.pre_items();
    assert_eq!(bg, Some("street".to_string()));
    assert_eq!(bgm, PreBgm::Play("theme".to_string()));
}

#[test]
fn change_figure_through_the_script() {
    let mut script: Script<String, u32> = Script::new();
    script.update_figures(1, "far", "centre", "bob".to_string());
    assert_eq!(script.change_figure(3, "far", "centre"), "bob");
}
