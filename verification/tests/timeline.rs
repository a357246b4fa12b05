use vn_engine::media::player::PreBgm;
use vn_engine::script::figure::Figure;
use vn_engine::script::timeline::Timeline;

#[test]
fn figure_push_get_remove() {
    let mut figure: Figure<u32> = Figure::new();
    figure.push("near", "left", 1);
    figure.push("far", "right", 2);
    assert_eq!(figure.get(&"nearleft".to_string()), Some(&1));
    assert_eq!(figure.get(&"farright".to_string()), Some(&2));
    assert_eq!(figure.get(&"nearright".to_string()), None);
    assert!(figure.contains_key(&"farright".to_string()));
    figure.push("near", "left", 3);
    assert_eq!(figure.get(&"nearleft".to_string()), Some(&3));
    assert_eq!(figure.remove(&"nearleft".to_string()), Some(3));
    assert_eq!(figure.remove(&"nearleft".to_string()), None);
    assert!(!figure.contains_key(&"nearleft".to_string()));
    figure.insert("centre".to_string(), 4);
    let copy = figure.clone();
    assert_eq!(copy.get(&"centre".to_string()), Some(&4));
    assert_eq!(copy.get(&"farright".to_string()), Some(&2));
}

#[test]
fn bgm_is_replayed_after_a_jump() {
    let mut timeline: Timeline<String> = Timeline::new();
    timeline.insert_bgm(3, "theme".to_string());
    timeline.insert_bgm(10, "battle".to_string());
    assert_eq!(timeline.pre_items(2, "").pre_bgm, PreBgm::Stop);
    assert_eq!(
        timeline.pre_items(3, "").pre_bgm,
        PreBgm::Play("theme".to_string())
    );
    assert_eq!(
        timeline.pre_items(9, "battle").pre_bgm,
        PreBgm::Play("theme".to_string())
    );
    assert_eq!(timeline.pre_items(9, "theme").pre_bgm, PreBgm::Keep);
    assert_eq!(
        timeline.pre_items(usize::MAX, "theme").pre_bgm,
        PreBgm::Play("battle".to_string())
    );
}

#[test]
fn background_is_replayed_after_a_jump() {
    let mut timeline: Timeline<String> = Timeline::new();
    assert_eq!(timeline.pre_items(0, "").pre_bg, None);
    timeline.insert_background(0, "room".to_string());
    timeline.insert_background(5, "street".to_string());
    assert_eq!(timeline.pre_items(0, "").pre_bg, Some("room".to_string()));
    assert_eq!(timeline.pre_items(4, "").pre_bg, Some("room".to_string()));
    assert_eq!(timeline.pre_items(5, "").pre_bg, Some("street".to_string()));
    assert_eq!(timeline.pre_items(99, "").pre_bg, Some("street".to_string()));
}

#[test]
fn figures_are_replayed_after_a_jump() {
    let mut timeline: Timeline<String> = Timeline::new();
    timeline.update_figures(2, "near", "left", "alice".to_string());
    timeline.update_figures(2, "near", "right", "bob".to_string());
    timeline.update_figures(6, "far", "left", "carol".to_string());
    let items = timeline.pre_items(1, "");
    assert!(items.pre_figures.is_none());
    let items = timeline.pre_items(4, "");
    let figure = items.pre_figures.unwrap();
    assert_eq!(figure.get(&"nearleft".to_string()), Some(&"alice".to_string()));
    assert_eq!(figure.get(&"nearright".to_string()), Some(&"bob".to_string()));
    assert_eq!(figure.get(&"farleft".to_string()), None);
    let items = timeline.pre_items(6, "");
    let figure = items.pre_figures.unwrap();
    assert_eq!(figure.get(&"farleft".to_string()), Some(&"carol".to_string()));
    assert_eq!(figure.get(&"nearleft".to_string()), None);
}

#[test]
fn change_figure_takes_from_the_last_block_that_has_it() {
    let mut timeline: Timeline<String> = Timeline::new();
    timeline.update_figures(1, "near", "left", "alice".to_string());
    timeline.update_figures(4, "near", "left", "alice-smile".to_string());
    timeline.update_figures(6, "far", "right", "bob".to_string());
    assert_eq!(timeline.change_figure(7, "near", "left"), "alice-smile");
    assert_eq!(timeline.change_figure(7, "near", "left"), "alice");
    assert_eq!(timeline.change_figure(6, "far", "right"), "bob");
    let figure = timeline.pre_items(6, "").pre_figures.unwrap();
    assert_eq!(figure.get(&"farright".to_string()), None);
}

#[test]
fn figure_put_then_taken_back() {
    let mut timeline: Timeline<u8> = Timeline::new();
    timeline.update_figures(0, "", "centre", 7);
    assert_eq!(timeline.change_figure(0, "", "centre"), 7);
    let figure = timeline.pre_items(0, "").pre_figures.unwrap();
    assert!(!figure.contains_key(&"centre".to_string()));
}
