use xdg_desktop_portal_screencast::running_app_watcher::{
    closed_apps, derive_running_apps, watcher_step,
};

fn strings(v: &[&str]) -> Vec<String> {
    v.iter().map(|s| s.to_string()).collect()
}

#[test]
fn derive_strips_desktop_suffix() {
    let apps = derive_running_apps(&strings(&["org.gnome.Maps.desktop", "plain"]));
    assert_eq!(apps, strings(&["org.gnome.Maps", "plain"]));
}

#[test]
fn derive_drops_empty_results() {
    let apps = derive_running_apps(&strings(&["", ".desktop", "a.desktop"]));
    assert_eq!(apps, strings(&["a"]));
}

#[test]
fn derive_keeps_each_identifier_once() {
    let apps = derive_running_apps(&strings(&["a.desktop", "a", "b.desktop", "a.desktop"]));
    assert_eq!(apps, strings(&["a", "b"]));
}

#[test]
fn derive_only_strips_a_trailing_suffix() {
    let apps = derive_running_apps(&strings(&["a.desktop.bak", "x.desk"]));
    assert_eq!(apps, strings(&["a.desktop.bak", "x.desk"]));
}

#[test]
fn closed_apps_is_the_difference() {
    let gone = closed_apps(&strings(&["a", "b", "c"]), &strings(&["b"]));
    assert_eq!(gone, strings(&["a", "c"]));
}

#[test]
fn closed_apps_empty_when_all_still_run() {
    let gone = closed_apps(&strings(&["a", "b"]), &strings(&["b", "a", "x"]));
    assert!(gone.is_empty());
}

#[test]
fn watcher_step_keeps_state_on_fetch_failure() {
    let (remembered, to_close) = watcher_step(strings(&["a", "b"]), None);
    assert_eq!(remembered, strings(&["a", "b"]));
    assert!(to_close.is_empty());
}

#[test]
fn watcher_step_reports_disappeared_apps() {
    let (remembered, to_close) = watcher_step(
        strings(&["com.example.App", "org.other.Tool"]),
        Some(strings(&["org.other.Tool.desktop"])),
    );
    assert_eq!(remembered, strings(&["org.other.Tool"]));
    assert_eq!(to_close, strings(&["com.example.App"]));
}
