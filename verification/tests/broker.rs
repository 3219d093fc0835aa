use xdg_desktop_portal_screencast::error::ScreenCastError;
use xdg_desktop_portal_screencast::screencast::{ScreenCast, SelectStep};
use xdg_desktop_portal_screencast::screencast_session::{RecordCommand, SessionState};
use xdg_desktop_portal_screencast::screencast_stream::ScreenCastStream;
use xdg_desktop_portal_screencast::source::Source;

fn handle(n: &str) -> String {
    format!("/org/freedesktop/portal/desktop/session/1_1/{n}")
}

fn create(sc: &mut ScreenCast, name: &str, app: &str) {
    let reply = sc.create_session(
        &handle(name),
        &app.to_string(),
        Ok(format!("/org/cinnamon/muffin/screencast/session/{name}")),
    );
    assert_eq!(reply.status, 0);
    assert_eq!(reply.ack_code, 0);
    assert!(reply.error.is_none());
}

fn select(sc: &mut ScreenCast, name: &str, source: Source) -> RecordCommand {
    let step = sc.select_sources(&handle(name), &Ok(source));
    let cmd = match step {
        SelectStep::Record(cmd) => cmd,
        SelectStep::Reject(rep) => panic!("selection rejected with status {}", rep.status),
    };
    let stream = ScreenCastStream::new("/org/cinnamon/muffin/screencast/stream/0".to_string());
    let reply = sc.select_sources_finish(&handle(name), Ok(stream));
    assert_eq!(reply.status, 0);
    assert_eq!(reply.ack_code, 0);
    cmd
}

#[test]
fn create_session_acknowledges_success() {
    let mut sc = ScreenCast::new();
    create(&mut sc, "s1", "app.X");
}

#[test]
fn duplicate_create_session_conflicts() {
    let mut sc = ScreenCast::new();
    create(&mut sc, "s1", "app.X");
    let reply = sc.create_session(&handle("s1"), &"app.Y".to_string(), Ok("/p".to_string()));
    assert_eq!(reply.status, 1);
    assert_eq!(reply.ack_code, 2);
    assert_eq!(reply.error, Some(ScreenCastError::Conflict));
}

#[test]
fn create_session_reports_compositor_failure() {
    let mut sc = ScreenCast::new();
    let reply = sc.create_session(
        &handle("s1"),
        &"app.X".to_string(),
        Err(ScreenCastError::CompositorRpcFailure),
    );
    assert_eq!(reply.status, 1);
    assert_eq!(reply.ack_code, 2);
    assert_eq!(reply.error, Some(ScreenCastError::CompositorRpcFailure));
}

#[test]
fn select_sources_on_unknown_handle_fails_with_one_response() {
    let mut sc = ScreenCast::new();
    create(&mut sc, "s1", "app.X");
    let step = sc.select_sources(
        &handle("nope"),
        &Ok(Source::Monitor { monitor_name: "HDMI-1".to_string() }),
    );
    match step {
        SelectStep::Reject(rep) => {
            assert_eq!(rep.status, 1);
            assert_eq!(rep.ack_code, 2);
            assert_eq!(rep.error, Some(ScreenCastError::SessionNotFound));
        }
        SelectStep::Record(_) => panic!("unknown handle must be rejected"),
    }
    let stream = ScreenCastStream::new("/p".to_string());
    let rep = sc.select_sources_finish(&handle("nope"), Ok(stream));
    assert_eq!(rep.status, 1);
    assert_eq!(rep.error, Some(ScreenCastError::SessionNotFound));
}

#[test]
fn start_on_unknown_handle_fails_with_one_response() {
    let sc = ScreenCast::new();
    match sc.start(&handle("nope")) {
        Err(rep) => {
            assert_eq!(rep.status, 1);
            assert_eq!(rep.ack_code, 2);
            assert_eq!(rep.error, Some(ScreenCastError::SessionNotFound));
        }
        Ok(()) => panic!("unknown handle must be rejected"),
    }
}

#[test]
fn monitor_selection_records_by_connector() {
    let mut sc = ScreenCast::new();
    create(&mut sc, "s1", "app.X");
    let cmd = select(
        &mut sc,
        "s1",
        Source::Monitor { monitor_name: "HDMI-1".to_string() },
    );
    match cmd {
        RecordCommand::RecordMonitor { connector } => assert_eq!(connector, "HDMI-1"),
        RecordCommand::RecordWindow { .. } => panic!("monitor pick must record a monitor"),
    }
}

#[test]
fn window_selection_records_by_window_id() {
    let mut sc = ScreenCast::new();
    create(&mut sc, "s1", "app.X");
    let cmd = select(
        &mut sc,
        "s1",
        Source::Window { window_id: 42, window_name: "T".to_string(), icon_path: None },
    );
    match cmd {
        RecordCommand::RecordWindow { window_id } => assert_eq!(window_id, 42),
        RecordCommand::RecordMonitor { .. } => panic!("window pick must record a window"),
    }
}

#[test]
fn picker_failure_rejects_selection() {
    let mut sc = ScreenCast::new();
    create(&mut sc, "s1", "app.X");
    let step = sc.select_sources(&handle("s1"), &Err(ScreenCastError::PickerFailure));
    match step {
        SelectStep::Reject(rep) => {
            assert_eq!(rep.status, 1);
            assert_eq!(rep.error, Some(ScreenCastError::SourceSelectionFailed));
        }
        SelectStep::Record(_) => panic!("picker failure must reject the verb"),
    }
}

#[test]
fn failed_record_call_leaves_session_created() {
    let mut sc = ScreenCast::new();
    create(&mut sc, "s1", "app.X");
    let rep = sc.select_sources_finish(&handle("s1"), Err(ScreenCastError::CompositorRpcFailure));
    assert_eq!(rep.status, 1);
    assert_eq!(rep.error, Some(ScreenCastError::SourceSelectionFailed));
    // The session is still in `Created`: another selection may proceed.
    let step = sc.select_sources(
        &handle("s1"),
        &Ok(Source::Monitor { monitor_name: "eDP-1".to_string() }),
    );
    assert!(matches!(step, SelectStep::Record(_)));
}

#[test]
fn start_before_selection_never_starts_the_compositor() {
    let mut sc = ScreenCast::new();
    create(&mut sc, "s1", "app.X");
    // The compositor start command may be issued only on `Ok`; before a
    // successful selection the broker always answers with a failure.
    match sc.start(&handle("s1")) {
        Err(rep) => {
            assert_eq!(rep.status, 1);
            assert_eq!(rep.ack_code, 2);
            assert_eq!(rep.error, Some(ScreenCastError::SourceSelectionFailed));
        }
        Ok(()) => panic!("start before selection must fail"),
    }
    let rep = sc.start_finish(&handle("s1"), Ok(()), Ok(77));
    assert_eq!(rep.status, 1);
    assert!(rep.streams.is_empty());
}

#[test]
fn second_select_sources_is_rejected() {
    let mut sc = ScreenCast::new();
    create(&mut sc, "s1", "app.X");
    select(&mut sc, "s1", Source::Monitor { monitor_name: "eDP-1".to_string() });
    let step = sc.select_sources(
        &handle("s1"),
        &Ok(Source::Monitor { monitor_name: "HDMI-1".to_string() }),
    );
    match step {
        SelectStep::Reject(rep) => assert_eq!(rep.error, Some(ScreenCastError::Conflict)),
        SelectStep::Record(_) => panic!("a second selection must be rejected"),
    }
}

#[test]
fn full_negotiation_yields_stream_payload() {
    let mut sc = ScreenCast::new();

    let r1 = sc.create_session(
        &handle("sess1"),
        &"app.X".to_string(),
        Ok("/org/cinnamon/muffin/screencast/session/0".to_string()),
    );
    assert_eq!(r1.status, 0);

    let step = sc.select_sources(
        &handle("sess1"),
        &Ok(Source::Monitor { monitor_name: "eDP-1".to_string() }),
    );
    let cmd = match step {
        SelectStep::Record(cmd) => cmd,
        SelectStep::Reject(_) => panic!("selection must proceed"),
    };
    assert!(matches!(cmd, RecordCommand::RecordMonitor { ref connector } if connector == "eDP-1"));
    let stream = ScreenCastStream::new("/org/cinnamon/muffin/screencast/stream/0".to_string());
    let r2 = sc.select_sources_finish(&handle("sess1"), Ok(stream));
    assert_eq!(r2.status, 0);

    assert!(sc.start(&handle("sess1")).is_ok());
    let r3 = sc.start_finish(&handle("sess1"), Ok(()), Ok(77));
    assert_eq!(r3.status, 0);
    assert_eq!(r3.ack_code, 0);
    assert_eq!(r3.streams, vec![77]);
}

#[test]
fn failed_start_keeps_session_retryable() {
    let mut sc = ScreenCast::new();
    create(&mut sc, "s1", "app.X");
    select(&mut sc, "s1", Source::Monitor { monitor_name: "eDP-1".to_string() });
    let rep = sc.start_finish(&handle("s1"), Ok(()), Err(ScreenCastError::StreamTimeout));
    assert_eq!(rep.status, 1);
    assert_eq!(rep.error, Some(ScreenCastError::StreamTimeout));
    assert!(rep.streams.is_empty());
    // The session stays in `SourceSelected`; the caller may retry.
    assert!(sc.start(&handle("s1")).is_ok());
    let rep = sc.start_finish(&handle("s1"), Err(ScreenCastError::CompositorRpcFailure), Ok(7));
    assert_eq!(rep.error, Some(ScreenCastError::CompositorRpcFailure));
    let rep = sc.start_finish(&handle("s1"), Ok(()), Ok(7));
    assert_eq!(rep.status, 0);
    assert_eq!(rep.streams, vec![7]);
}

#[test]
fn app_closed_sweep_removes_only_matching_sessions() {
    let mut sc = ScreenCast::new();
    create(&mut sc, "s1", "com.example.App");
    create(&mut sc, "s2", "org.other.Tool");
    create(&mut sc, "s3", "com.example.App");

    let removed = sc.on_app_closed(&"com.example.App".to_string());
    assert_eq!(removed.len(), 2);
    for s in &removed {
        assert_eq!(s.get_app_id(), "com.example.App");
        assert_eq!(s.get_state(), SessionState::Closed);
    }
    assert_eq!(removed[0].get_session_handle(), &handle("s1"));
    assert_eq!(removed[1].get_session_handle(), &handle("s3"));

    // The other application's session is untouched and still usable.
    let step = sc.select_sources(
        &handle("s2"),
        &Ok(Source::Monitor { monitor_name: "eDP-1".to_string() }),
    );
    assert!(matches!(step, SelectStep::Record(_)));
    // The removed sessions are gone from the registry.
    match sc.start(&handle("s1")) {
        Err(rep) => assert_eq!(rep.error, Some(ScreenCastError::SessionNotFound)),
        Ok(()) => panic!("removed session must not be found"),
    }
}

#[test]
fn app_closed_sweep_without_matches_is_a_no_op() {
    let mut sc = ScreenCast::new();
    create(&mut sc, "s1", "app.X");
    let removed = sc.on_app_closed(&"app.unknown".to_string());
    assert!(removed.is_empty());
    let step = sc.select_sources(
        &handle("s1"),
        &Ok(Source::Monitor { monitor_name: "eDP-1".to_string() }),
    );
    assert!(matches!(step, SelectStep::Record(_)));
}

#[test]
fn capability_properties_are_static() {
    assert_eq!(ScreenCast::available_cursor_modes(), 7);
    assert_eq!(ScreenCast::available_source_types(), 7);
    assert_eq!(ScreenCast::version(), 5);
}
