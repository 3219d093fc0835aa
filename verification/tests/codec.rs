use xdg_desktop_portal_screencast::source::{Source, Sources};

fn monitor(name: &str) -> Source {
    Source::Monitor { monitor_name: name.to_string() }
}

fn window(id: u64, name: &str, icon: Option<&str>) -> Source {
    Source::Window {
        window_id: id,
        window_name: name.to_string(),
        icon_path: icon.map(|s| s.to_string()),
    }
}

#[test]
fn monitor_encodes_exactly() {
    let s = monitor("HDMI-1");
    assert_eq!(s.to_json(), "{\"Monitor\":{\"monitor_name\":\"HDMI-1\"}}");
}

#[test]
fn window_with_icon_encodes_exactly() {
    let s = window(42, "Terminal", Some("file:///usr/share/icons/t.png"));
    assert_eq!(
        s.to_json(),
        "{\"Window\":{\"window_id\":42,\"window_name\":\"Terminal\",\"icon_path\":\"file:///usr/share/icons/t.png\"}}"
    );
}

#[test]
fn window_without_icon_encodes_null() {
    let s = window(7, "Files", None);
    assert_eq!(
        s.to_json(),
        "{\"Window\":{\"window_id\":7,\"window_name\":\"Files\",\"icon_path\":null}}"
    );
}

#[test]
fn monitor_round_trips() {
    let s = monitor("eDP-1");
    let decoded = Source::from_json(&s.to_json()).unwrap();
    assert_eq!(decoded, s);
}

#[test]
fn window_round_trips() {
    let s = window(42, "Browser", Some("file:///tmp/icon.svg"));
    let decoded = Source::from_json(&s.to_json()).unwrap();
    assert_eq!(decoded, s);
}

#[test]
fn window_without_icon_round_trips() {
    let s = window(1, "Editor", None);
    let decoded = Source::from_json(&s.to_json()).unwrap();
    assert_eq!(decoded, s);
}

#[test]
fn list_round_trips() {
    let list = Sources(vec![
        monitor("eDP-1"),
        window(42, "Terminal", None),
        window(43, "Browser", Some("file:///i.png")),
    ]);
    let decoded = Sources::from_json(&list.to_json()).unwrap();
    assert_eq!(decoded, list);
}

#[test]
fn empty_list_round_trips() {
    let list = Sources(vec![]);
    assert_eq!(list.to_json(), "[]");
    let decoded = Sources::from_json("[]").unwrap();
    assert_eq!(decoded, list);
}

#[test]
fn escaped_characters_round_trip() {
    let s = window(3, "a\"b\\c\nd\te\u{8}f\u{c}g\rh\u{1}i/j", Some("p\"q"));
    let decoded = Source::from_json(&s.to_json()).unwrap();
    assert_eq!(decoded, s);
}

#[test]
fn control_characters_encode_as_escapes() {
    let s = monitor("a\nb\u{1f}");
    assert_eq!(s.to_json(), "{\"Monitor\":{\"monitor_name\":\"a\\nb\\u001f\"}}");
}

#[test]
fn unicode_text_round_trips() {
    let s = window(9, "端末 — ターミナル", None);
    let decoded = Source::from_json(&s.to_json()).unwrap();
    assert_eq!(decoded, s);
}

#[test]
fn max_window_id_round_trips() {
    let s = window(u64::MAX, "big", None);
    let decoded = Source::from_json(&s.to_json()).unwrap();
    assert_eq!(decoded, s);
}

#[test]
fn overflowing_window_id_is_rejected() {
    let text = "{\"Window\":{\"window_id\":18446744073709551616,\"window_name\":\"x\",\"icon_path\":null}}";
    assert!(Source::from_json(text).is_none());
}

#[test]
fn surrounding_whitespace_is_accepted() {
    let s = monitor("eDP-1");
    let text = format!("\n {} \n", s.to_json());
    let decoded = Source::from_json(&text).unwrap();
    assert_eq!(decoded, s);
}

#[test]
fn short_escapes_decode() {
    let text = "{\"Monitor\":{\"monitor_name\":\"a\\\"b\\\\c\\/d\\be\\tf\\ng\\fh\\ri\"}}";
    let decoded = Source::from_json(text).unwrap();
    assert_eq!(decoded, monitor("a\"b\\c/d\u{8}e\tf\ng\u{c}h\ri"));
}

#[test]
fn unicode_escape_decodes() {
    let text = "{\"Monitor\":{\"monitor_name\":\"a\\u0041\\u001fb\"}}";
    let decoded = Source::from_json(text).unwrap();
    assert_eq!(decoded, monitor("aA\u{1f}b"));
}

#[test]
fn malformed_input_is_rejected() {
    assert!(Source::from_json("").is_none());
    assert!(Source::from_json("{").is_none());
    assert!(Source::from_json("{\"Monitor\":{\"monitor_name\":\"x\"}").is_none());
    assert!(Source::from_json("{\"Monitor\":{\"monitor_name\":\"x\"}}}").is_none());
    assert!(Source::from_json("{\"Speaker\":{\"name\":\"x\"}}").is_none());
    assert!(Source::from_json("{\"Window\":{\"window_id\":\"42\",\"window_name\":\"x\",\"icon_path\":null}}").is_none());
    assert!(Sources::from_json("[,]").is_none());
    assert!(Sources::from_json("[{\"Monitor\":{\"monitor_name\":\"x\"}},]").is_none());
}

#[test]
fn lone_surrogate_escape_is_rejected() {
    let text = "{\"Monitor\":{\"monitor_name\":\"\\ud800\"}}";
    assert!(Source::from_json(text).is_none());
}

#[test]
fn encoding_is_valid_json_for_serde() {
    let s = window(42, "A \"quoted\"\nname", Some("file:///x y.png"));
    let value: serde_json::Value = serde_json::from_str(&s.to_json()).unwrap();
    let obj = value.get("Window").unwrap();
    assert_eq!(obj.get("window_id").unwrap().as_u64(), Some(42));
    assert_eq!(obj.get("window_name").unwrap().as_str(), Some("A \"quoted\"\nname"));
    assert_eq!(obj.get("icon_path").unwrap().as_str(), Some("file:///x y.png"));
}

#[test]
fn serde_encoded_input_decodes() {
    // serde_json's own compact encoding of the same shape decodes with
    // this crate's decoder.
    let mut map = serde_json::Map::new();
    let mut inner = serde_json::Map::new();
    inner.insert("monitor_name".to_string(), serde_json::Value::String("e\u{1f}DP".to_string()));
    map.insert("Monitor".to_string(), serde_json::Value::Object(inner));
    let text = serde_json::to_string(&serde_json::Value::Object(map)).unwrap();
    let decoded = Source::from_json(&text).unwrap();
    assert_eq!(decoded, monitor("e\u{1f}DP"));
}
