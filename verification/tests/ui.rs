use kintaro::origami::new_random_indices;
use kintaro::ui::{set_open, str_eq, strip_hash_prefix, Apps, Controls, ControlsInner, Kintaro, UiState, WidgetGallery, Windows, WrapApp};

#[test]
fn set_open_inserts_and_removes() {
    let mut open: Vec<String> = vec![];
    set_open(&mut open, "Kintaro", true);
    assert_eq!(open, vec!["Kintaro".to_string()]);
    set_open(&mut open, "Kintaro", true);
    assert_eq!(open, vec!["Kintaro".to_string()]);
    set_open(&mut open, "Other", true);
    set_open(&mut open, "Kintaro", false);
    assert_eq!(open, vec!["Other".to_string()]);
    set_open(&mut open, "Missing", false);
    assert_eq!(open, vec!["Other".to_string()]);
}

#[test]
fn kintaro_starts_with_the_controls_open() {
    let mut k = Kintaro::init(3);
    assert!(k.is_open("Kintaro"));
    assert!(!k.is_open("Other"));
    k.after_show("Kintaro", false);
    assert!(!k.is_open("Kintaro"));
    let w = Windows::init(1);
    assert!(w.kintaro.is_open("Kintaro"));
    let c = Controls::init(1);
    assert_eq!(c.name(), "Kintaro");
}

#[test]
fn wrap_app_selects_the_first_app_by_default() {
    let mut app = WrapApp::init(2);
    assert_eq!(app.selected_anchor, "");
    app.select_anchor(None);
    assert_eq!(app.selected_anchor, "demo");
    assert!(app.should_update("demo", false));
    assert!(!app.should_update("other", false));
    assert!(app.should_update("other", true));
    assert_eq!(app.name(), "Kintaro");
}

#[test]
fn wrap_app_follows_the_web_hash() {
    let mut app = WrapApp::init(2);
    app.select_anchor(Some("#other"));
    assert_eq!(app.selected_anchor, "other");
    app.select_anchor(Some("nohash"));
    assert_eq!(app.selected_anchor, "other");
    app.select_anchor(Some("#"));
    assert_eq!(app.selected_anchor, "demo");
    assert_eq!(Apps::init(1).anchors(), vec!["demo"]);
}

#[test]
fn strip_hash_prefix_and_str_eq() {
    assert_eq!(strip_hash_prefix("#abc"), Some("abc"));
    assert_eq!(strip_hash_prefix("abc"), None);
    assert_eq!(strip_hash_prefix(""), None);
    assert!(str_eq("héllo", "héllo"));
    assert!(!str_eq("hello", "hellO"));
    assert!(!str_eq("hell", "hello"));
}

#[test]
fn widget_gallery_flips_once_per_click() {
    let mut g = WidgetGallery::default();
    assert!(!g.boolean);
    g.gallery_grid_contents(true, false, false);
    assert!(g.boolean);
    g.gallery_grid_contents(true, true, false);
    assert!(g.boolean);
    g.gallery_grid_contents(true, true, true);
    assert!(!g.boolean);
    assert_eq!(g.name(), "Kintaro");
}

#[test]
fn random_indices_stay_below_the_bound() {
    let idx = new_random_indices(20, 30);
    assert_eq!(idx.len(), 30);
    assert!(idx.iter().all(|i| *i < 20));
    assert!(new_random_indices(0, 0).is_empty());
}

#[test]
fn control_panel_counts_frames_and_flips_play() {
    let state = UiState { play: false, save: false, frames: 120, camera_index: 2 };
    let mut panel = ControlsInner::init(state, 3);
    let shown = panel.gallery_grid_contents(1, true, false);
    assert_eq!(shown.fps, 60);
    assert_eq!(shown.play_label, "Play");
    assert_eq!(panel.state, UiState { play: true, save: false, frames: 121, camera_index: 2 });
    let shown = panel.gallery_grid_contents(0, false, true);
    assert_eq!(shown.fps, 121);
    assert_eq!(shown.play_label, "Pause");
    assert_eq!(panel.state, UiState { play: true, save: true, frames: 122, camera_index: 2 });
    let shown = panel.gallery_grid_contents(3, true, false);
    assert_eq!(shown.fps, 30);
    assert!(!panel.state.play);
    assert!(panel.state.save);
}
