use xdg_desktop_portal_screencast::error::ScreenCastError;
use xdg_desktop_portal_screencast::icon_lookup::{
    desktop_file_path, get_xdg_data_home, icon_search_paths, icon_uri, EnvLookup,
};
use xdg_desktop_portal_screencast::screencast_session::{ScreenCastSession, WindowRecord};
use xdg_desktop_portal_screencast::selector::SourceSelector;
use xdg_desktop_portal_screencast::source::{Source, Sources};

#[test]
fn monitor_catalog_maps_connectors() {
    let sources = ScreenCastSession::get_monitor_sources(vec![
        "eDP-1".to_string(),
        "HDMI-1".to_string(),
    ]);
    let expected = Sources(vec![
        Source::Monitor { monitor_name: "eDP-1".to_string() },
        Source::Monitor { monitor_name: "HDMI-1".to_string() },
    ]);
    assert_eq!(sources, expected);
}

#[test]
fn window_catalog_skips_records_without_id() {
    let sources = ScreenCastSession::get_window_sources(vec![
        WindowRecord { id: None, title: Some("ghost".to_string()), icon_path: None },
        WindowRecord { id: Some(5), title: Some("real".to_string()), icon_path: None },
    ]);
    let expected = Sources(vec![Source::Window {
        window_id: 5,
        window_name: "real".to_string(),
        icon_path: None,
    }]);
    assert_eq!(sources, expected);
}

#[test]
fn window_catalog_synthesizes_missing_titles() {
    let sources = ScreenCastSession::get_window_sources(vec![WindowRecord {
        id: Some(42),
        title: None,
        icon_path: Some("file:///i.png".to_string()),
    }]);
    let expected = Sources(vec![Source::Window {
        window_id: 42,
        window_name: "<Unnamed Window: 42>".to_string(),
        icon_path: Some("file:///i.png".to_string()),
    }]);
    assert_eq!(sources, expected);
}

#[test]
fn picker_output_empty_is_a_picker_failure() {
    assert_eq!(
        ScreenCastSession::parse_picker_output(""),
        Err(ScreenCastError::PickerFailure)
    );
}

#[test]
fn picker_output_garbage_is_a_picker_failure() {
    assert_eq!(
        ScreenCastSession::parse_picker_output("not json\n"),
        Err(ScreenCastError::PickerFailure)
    );
}

#[test]
fn picker_output_with_trailing_newline_decodes() {
    let picked = Source::Monitor { monitor_name: "HDMI-1".to_string() };
    let line = format!("{}\n", picked.to_json());
    assert_eq!(ScreenCastSession::parse_picker_output(&line), Ok(picked));
}

#[test]
fn xdg_data_home_prefers_the_variable() {
    let r = get_xdg_data_home(
        EnvLookup::Present("/custom/share".to_string()),
        EnvLookup::Present("/home/u".to_string()),
    );
    assert_eq!(r, Some("/custom/share".to_string()));
}

#[test]
fn xdg_data_home_falls_back_to_home() {
    let r = get_xdg_data_home(EnvLookup::Absent, EnvLookup::Present("/home/u".to_string()));
    assert_eq!(r, Some("/home/u/.local/share".to_string()));
}

#[test]
fn xdg_data_home_invalid_variable_has_no_fallback() {
    let r = get_xdg_data_home(EnvLookup::Invalid, EnvLookup::Present("/home/u".to_string()));
    assert_eq!(r, None);
    let r = get_xdg_data_home(EnvLookup::Absent, EnvLookup::Absent);
    assert_eq!(r, None);
}

#[test]
fn icon_search_paths_order_user_then_system() {
    let paths = icon_search_paths(Some("/home/u/.local/share".to_string()));
    assert_eq!(
        paths,
        vec![
            "/home/u/.local/share".to_string(),
            "/usr/local/share".to_string(),
            "/usr/share".to_string(),
        ]
    );
}

#[test]
fn icon_search_paths_skip_empty_data_home() {
    let expected = vec!["/usr/local/share".to_string(), "/usr/share".to_string()];
    assert_eq!(icon_search_paths(Some(String::new())), expected);
    assert_eq!(icon_search_paths(None), expected);
}

#[test]
fn desktop_file_path_is_assembled() {
    let p = desktop_file_path(&"/usr/share".to_string(), &"org.gnome.Maps".to_string());
    assert_eq!(p, "/usr/share/applications/org.gnome.Maps.desktop");
}

#[test]
fn icon_uri_is_a_file_uri() {
    assert_eq!(
        icon_uri(&"/usr/share/icons/a.png".to_string()),
        "file:///usr/share/icons/a.png"
    );
}

#[test]
fn selector_starts_with_no_selection() {
    let sel = SourceSelector::new(Sources(vec![]), Sources(vec![]));
    assert_eq!(sel.on_exit(), None);
}

#[test]
fn selector_click_selects_and_exit_encodes() {
    let monitor = Source::Monitor { monitor_name: "eDP-1".to_string() };
    let window = Source::Window {
        window_id: 9,
        window_name: "T".to_string(),
        icon_path: None,
    };
    let mut sel = SourceSelector::new(
        Sources(vec![monitor.clone()]),
        Sources(vec![window.clone()]),
    );
    sel.select_monitor(0);
    assert_eq!(sel.on_exit(), Some(monitor.to_json()));
    sel.select_window(0);
    assert_eq!(sel.on_exit(), Some(window.to_json()));
}
