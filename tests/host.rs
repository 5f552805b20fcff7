use mpv_danmaku::ffi::{mpv_error, mpv_event_id, mpv_format, to_event};
use mpv_danmaku::session::Event;

#[test]
fn event_codes_round_trip() {
    for c in -5..40 {
        if let Some(e) = mpv_event_id::from_code(c) {
            assert_eq!(e.code(), c);
        }
    }
    assert_eq!(mpv_event_id::from_code(20), Some(mpv_event_id::MPV_EVENT_SEEK));
    assert_eq!(mpv_event_id::from_code(9), None);
    assert_eq!(mpv_event_id::MPV_EVENT_HOOK.code(), 25);
}

#[test]
fn error_and_format_codes() {
    assert_eq!(mpv_error::from_code(-8), Some(mpv_error::MPV_ERROR_PROPERTY_NOT_FOUND));
    assert_eq!(mpv_error::from_code(1), None);
    assert_eq!(mpv_error::MPV_ERROR_GENERIC.code(), -20);
    assert_eq!(mpv_format::from_code(5), Some(mpv_format::MPV_FORMAT_DOUBLE));
    assert_eq!(mpv_format::MPV_FORMAT_NODE_MAP.code(), 8);
    assert_eq!(mpv_format::from_code(10), None);
}

#[test]
fn host_events_to_session_events() {
    assert_eq!(to_event(mpv_event_id::MPV_EVENT_SHUTDOWN, false), Event::Shutdown);
    assert_eq!(to_event(mpv_event_id::MPV_EVENT_FILE_LOADED, false), Event::FileLoaded);
    assert_eq!(to_event(mpv_event_id::MPV_EVENT_SEEK, false), Event::Seek);
    assert_eq!(to_event(mpv_event_id::MPV_EVENT_CLIENT_MESSAGE, true), Event::Toggle);
    assert_eq!(to_event(mpv_event_id::MPV_EVENT_CLIENT_MESSAGE, false), Event::ForeignMessage);
    assert_eq!(to_event(mpv_event_id::MPV_EVENT_PROPERTY_CHANGE, false), Event::Other);
}
