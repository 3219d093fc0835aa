use xdg_desktop_portal_screencast::error::ScreenCastError;
use xdg_desktop_portal_screencast::screencast_stream::{
    ScreenCastStream, StreamSignal, STREAM_TIMEOUT_MS,
};

fn stream() -> ScreenCastStream {
    ScreenCastStream::new("/org/cinnamon/muffin/screencast/stream/0".to_string())
}

#[test]
fn notification_before_timeout_succeeds() {
    let r = stream().wait_for_pipewire_stream(Some((
        999,
        StreamSignal::PipeWireStreamAdded { node_id: 77 },
    )));
    assert_eq!(r, Ok(77));
}

#[test]
fn notification_at_timeout_fails() {
    let r = stream().wait_for_pipewire_stream(Some((
        1000,
        StreamSignal::PipeWireStreamAdded { node_id: 77 },
    )));
    assert_eq!(r, Err(ScreenCastError::StreamTimeout));
}

#[test]
fn notification_after_timeout_fails() {
    let r = stream().wait_for_pipewire_stream(Some((
        1001,
        StreamSignal::PipeWireStreamAdded { node_id: 77 },
    )));
    assert_eq!(r, Err(ScreenCastError::StreamTimeout));
}

#[test]
fn no_notification_times_out() {
    let r = stream().wait_for_pipewire_stream(None);
    assert_eq!(r, Err(ScreenCastError::StreamTimeout));
}

#[test]
fn closed_channel_before_timeout_fails_as_closed() {
    let r = stream().wait_for_pipewire_stream(Some((5, StreamSignal::Ended)));
    assert_eq!(r, Err(ScreenCastError::StreamClosed));
}

#[test]
fn closed_channel_after_timeout_fails_as_timeout() {
    let r = stream().wait_for_pipewire_stream(Some((1200, StreamSignal::Ended)));
    assert_eq!(r, Err(ScreenCastError::StreamTimeout));
}

#[test]
fn timeout_is_one_second() {
    assert_eq!(STREAM_TIMEOUT_MS, 1000);
}

#[test]
fn stream_remembers_its_object_path() {
    let s = ScreenCastStream::new("/a/b".to_string());
    assert_eq!(s.object_path(), "/a/b");
}
