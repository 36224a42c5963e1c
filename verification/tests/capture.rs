use omaveil::capture::{
    capture_record, display_label, geometry, is_picker_class, preview_plan, screenshot_arguments,
    short_key_of, snapshot_geometry, snapshot_of, thumbnail_arguments, Missing, PreviewPlan,
    Snapshot,
};
use omaveil::record::MinimizedWindow;

fn pair(name: &str, value: &str) -> (String, String) {
    (name.to_string(), value.to_string())
}

fn snapshot(position: Option<&str>, size: Option<&str>) -> Snapshot {
    Snapshot {
        key: "0x55d8c1a0".to_string(),
        class: "firefox".to_string(),
        title: "Home".to_string(),
        position: position.map(|p| p.to_string()),
        size: size.map(|s| s.to_string()),
    }
}

#[test]
fn short_key_is_the_end_of_the_key() {
    assert_eq!(short_key_of("0x55d8c1a0"), "c1a0");
    assert_eq!(short_key_of("12345"), "2345");
    assert_eq!(short_key_of("1234"), "1234");
    assert_eq!(short_key_of("0xA"), "0xA");
    assert_eq!(short_key_of(""), "");
    assert_eq!(short_key_of("a\u{e9}\u{1f600}bcd"), "\u{1f600}bcd");
}

#[test]
fn label_has_glyph_class_title_and_short_key() {
    assert_eq!(
        display_label("\u{f066f}", "discord", "general", "0x55d8c1a0"),
        "\u{f066f} discord - general [c1a0]"
    );
    assert_eq!(display_label("", "firefox", "a - b", "0xAA"), " firefox - a - b [0xAA]");
}

#[test]
fn snapshot_of_a_description() {
    let info = vec![
        pair("address", "0x55d8c1a0"),
        pair("at", "100,200"),
        pair("size", "800,600"),
        pair("class", "firefox"),
        pair("title", "Home"),
    ];
    assert_eq!(snapshot_of(&info), Ok(snapshot(Some("100,200"), Some("800,600"))));
    let info = vec![pair("title", "Home"), pair("class", "firefox"), pair("address", "0x55d8c1a0")];
    assert_eq!(snapshot_of(&info), Ok(snapshot(None, None)));
}

#[test]
fn snapshot_names_what_is_missing() {
    assert_eq!(snapshot_of(&Vec::new()), Err(Missing::Address));
    assert_eq!(snapshot_of(&vec![pair("class", "c"), pair("title", "t")]), Err(Missing::Address));
    assert_eq!(snapshot_of(&vec![pair("address", "a"), pair("title", "t")]), Err(Missing::Class));
    assert_eq!(snapshot_of(&vec![pair("address", "a"), pair("class", "c")]), Err(Missing::Title));
    assert_eq!(snapshot_of(&vec![pair("address", "a")]), Err(Missing::Class));
}

#[test]
fn geometry_is_position_and_size() {
    assert_eq!(geometry("100,200", "800,600"), "100,200,800,600");
    assert_eq!(geometry(" 1 2 \n", "\t3"), "1 2,3");
    assert_eq!(geometry("", ""), ",");
    assert_eq!(snapshot_geometry(&snapshot(Some(" 1"), Some("2 "))), Some("1,2".to_string()));
    assert_eq!(snapshot_geometry(&snapshot(Some("1"), None)), None);
    assert_eq!(snapshot_geometry(&snapshot(None, Some("2"))), None);
    assert_eq!(snapshot_geometry(&snapshot(None, None)), None);
}

#[test]
fn record_of_a_captured_window() {
    let s = snapshot(None, None);
    assert_eq!(
        capture_record(&s, "\u{f05b2}", Some("/tmp/x.thumb.png".to_string())),
        MinimizedWindow {
            key: "0x55d8c1a0".to_string(),
            display_label: "\u{f05b2} firefox - Home [c1a0]".to_string(),
            window_class: "firefox".to_string(),
            original_title: "Home".to_string(),
            preview_path: Some("/tmp/x.thumb.png".to_string()),
        }
    );
    assert_eq!(capture_record(&s, "", None).preview_path, None);
    assert_eq!(capture_record(&s, "", None).display_label, " firefox - Home [c1a0]");
}

#[test]
fn plan_of_a_preview() {
    let plan = preview_plan("0xAA", "1,2,3,4".to_string());
    assert_eq!(
        plan,
        PreviewPlan {
            geometry: "1,2,3,4".to_string(),
            screenshot: "/tmp/window-previews/0xAA.png".to_string(),
            thumbnail: "/tmp/window-previews/0xAA.thumb.png".to_string(),
        }
    );
    assert_eq!(
        screenshot_arguments(&plan),
        vec!["-g".to_string(), "1,2,3,4".to_string(), "/tmp/window-previews/0xAA.png".to_string()]
    );
    assert_eq!(
        thumbnail_arguments(&plan),
        vec![
            "/tmp/window-previews/0xAA.png".to_string(),
            "-resize".to_string(),
            "200x150^".to_string(),
            "-gravity".to_string(),
            "center".to_string(),
            "-extent".to_string(),
            "200x150".to_string(),
            "/tmp/window-previews/0xAA.thumb.png".to_string(),
        ]
    );
}

#[test]
fn picker_class_is_walker() {
    assert!(is_picker_class("walker"));
    assert!(!is_picker_class("Walker"));
    assert!(!is_picker_class("walker2"));
    assert!(!is_picker_class(""));
}
