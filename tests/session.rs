use mpv_danmaku::comment::{Danmaku, Placement};
use mpv_danmaku::engine::{Frame, INTERVAL_MS};
use mpv_danmaku::session::{Command, Event, Notice, Session};

fn store(n: usize) -> Vec<Danmaku> {
    (0..n)
        .map(|i| Danmaku::from_record(&format!("{},1,255,0", i), "hey").unwrap())
        .collect()
}

fn frame() -> Frame {
    Frame { width: 1920, height: 1080, pos: 0, speed: 1000, font_size: 40_000 }
}

#[test]
fn toggle_on_without_store_starts_fetch() {
    let mut s = Session::new();
    let cmds = s.handle(Event::Toggle);
    assert_eq!(
        cmds,
        vec![Command::Notify(Notice::On), Command::AbortFetch, Command::StartFetch(1)]
    );
    assert!(s.enabled);
}

#[test]
fn fetch_result_installs_store() {
    let mut s = Session::new();
    s.handle(Event::Toggle);
    let cmds = s.finish_fetch(1, Some(store(3)));
    assert_eq!(cmds, vec![Command::Render, Command::Notify(Notice::Loaded(3))]);
    assert_eq!(s.comment_count(), Some(3));
}

#[test]
fn fetch_renders_once_when_enabled() {
    let mut s = Session::new();
    s.handle(Event::Toggle);
    let cmds = s.finish_fetch(1, Some(store(1)));
    assert_eq!(cmds, vec![Command::Render, Command::Notify(Notice::Loaded(1))]);
}

#[test]
fn stale_fetch_is_dropped() {
    let mut s = Session::new();
    s.handle(Event::Toggle);
    s.handle(Event::FileLoaded);
    let cmds = s.finish_fetch(1, Some(store(2)));
    assert!(cmds.is_empty());
    assert_eq!(s.comment_count(), None);
}

#[test]
fn failed_fetch_is_reported_only_when_enabled() {
    let mut s = Session::new();
    s.handle(Event::Toggle);
    assert_eq!(s.finish_fetch(1, None), vec![Command::Notify(Notice::FetchFailed)]);
    let mut off = Session::new();
    assert!(off.finish_fetch(0, None).is_empty());
}

#[test]
fn toggle_off_then_on_resets_and_reports() {
    let mut s = Session::new();
    s.handle(Event::Toggle);
    s.finish_fetch(1, Some(store(4)));
    s.render(frame()).unwrap();
    let mut cmds = s.handle(Event::Toggle);
    cmds.extend(s.handle(Event::Toggle));
    assert_eq!(
        cmds,
        vec![
            Command::RemoveOverlay,
            Command::Notify(Notice::Off),
            Command::Notify(Notice::Loaded(4)),
            Command::Render,
        ]
    );
    assert!(!cmds.iter().any(|c| matches!(c, Command::StartFetch(_))));
    let comments = s.comments.as_ref().unwrap();
    assert!(comments.iter().all(|c| c.placement == Placement::Unplaced));
}

#[test]
fn seek_resets_when_enabled() {
    let mut s = Session::new();
    s.handle(Event::Toggle);
    s.finish_fetch(1, Some(store(2)));
    s.render(frame()).unwrap();
    assert!(s.comments.as_ref().unwrap().iter().any(|c| c.placement != Placement::Unplaced));
    assert_eq!(s.handle(Event::Seek), vec![Command::Render]);
    assert!(s.comments.as_ref().unwrap().iter().all(|c| c.placement == Placement::Unplaced));
}

#[test]
fn file_loaded_clears_and_refetches() {
    let mut s = Session::new();
    s.handle(Event::Toggle);
    s.finish_fetch(1, Some(store(2)));
    let cmds = s.handle(Event::FileLoaded);
    assert_eq!(
        cmds,
        vec![Command::AbortFetch, Command::RemoveOverlay, Command::StartFetch(2)]
    );
    assert_eq!(s.comment_count(), None);
    let mut off = Session::new();
    assert_eq!(off.handle(Event::FileLoaded), vec![Command::AbortFetch]);
}

#[test]
fn other_events() {
    let mut s = Session::new();
    assert_eq!(s.handle(Event::Other), vec![]);
    assert_eq!(s.handle(Event::ForeignMessage), vec![]);
    assert_eq!(s.handle(Event::Shutdown), vec![Command::AbortFetch, Command::Exit]);
    assert!(s.render(frame()).is_none());
}

#[test]
fn wait_timeout_ticks_only_while_playing() {
    let mut s = Session::new();
    assert_eq!(s.wait_timeout(Some(false)), None);
    s.handle(Event::Toggle);
    assert_eq!(s.wait_timeout(Some(false)), Some(INTERVAL_MS));
    assert_eq!(s.wait_timeout(Some(true)), None);
    assert_eq!(s.wait_timeout(None), None);
}

#[test]
fn foreign_message_still_ticks() {
    let mut s = Session::new();
    s.handle(Event::Toggle);
    s.finish_fetch(1, Some(store(2)));
    assert_eq!(s.handle(Event::ForeignMessage), vec![Command::Render]);
    assert_eq!(s.handle(Event::Other), vec![Command::Render]);
}

#[test]
fn loaded_while_disabled_is_silent() {
    let mut s = Session::new();
    s.handle(Event::Toggle);
    s.handle(Event::Toggle);
    assert!(s.finish_fetch(1, Some(store(2))).is_empty());
    assert_eq!(s.comment_count(), Some(2));
}
