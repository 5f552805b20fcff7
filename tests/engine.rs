use mpv_danmaku::comment::{escape_line_breaks, reset, sort_by_time, Danmaku, Placement, RecordError};
use mpv_danmaku::engine::{render, Frame, SUBPIXELS};
use mpv_danmaku::lane::choose_lane;

fn comment(time: i64, count: usize) -> Danmaku {
    Danmaku {
        message: "x".repeat(count),
        count,
        time,
        r: 1,
        g: 2,
        b: 3,
        placement: Placement::Unplaced,
    }
}

fn frame(pos: i64) -> Frame {
    Frame { width: 1920, height: 1080, pos, speed: 1000, font_size: 40_000 }
}

#[test]
fn end_to_end_single_comment() {
    let d = Danmaku::from_record("0.00000,1,16711680,12345", "hi").unwrap();
    let mut store = vec![d];
    let draws = render(&mut store, frame(0)).unwrap();
    assert_eq!(draws.len(), 1);
    assert_eq!(draws[0].index, 0);
    assert_eq!(draws[0].x, 1920 * SUBPIXELS);
    assert_eq!(draws[0].y, 0);
    assert_eq!((draws[0].r, draws[0].g, draws[0].b), (255, 0, 0));
    assert_eq!(draws[0].font_size, 40_000);
    // One tick at normal speed moves it 0.8 px to the left.
    assert_eq!(
        store[0].placement,
        Placement::Placed { x: 1920 * SUBPIXELS - 9_600_000, lane: 0 }
    );
}

#[test]
fn entry_at_right_edge_when_time_equals_position() {
    let mut store = vec![comment(5000, 3)];
    let draws = render(&mut store, frame(5000)).unwrap();
    assert_eq!(draws[0].x, 1920 * SUBPIXELS);
}

#[test]
fn late_start_catches_up() {
    // Six seconds late: half way across a 1920 px canvas.
    let mut store = vec![comment(0, 2)];
    let draws = render(&mut store, frame(6000)).unwrap();
    assert_eq!(draws[0].x, 960 * SUBPIXELS);
}

#[test]
fn lookahead_stops_the_scan() {
    let mut store = vec![comment(0, 1), comment(6000, 1), comment(6001, 1)];
    let draws = render(&mut store, frame(0)).unwrap();
    assert_eq!(draws.len(), 2);
    assert_eq!(store[2].placement, Placement::Unplaced);
    // Entering half a crossing early: 1.5 canvas widths to the right.
    assert_eq!(draws[1].x, 2880 * SUBPIXELS);
}

#[test]
fn scrolled_off_comment_is_skipped() {
    let mut store = vec![comment(0, 1), comment(20000, 1)];
    let draws = render(&mut store, frame(20000)).unwrap();
    assert_eq!(draws.len(), 1);
    assert_eq!(draws[0].index, 1);
    assert_eq!(store[0].placement, Placement::Unplaced);
}

#[test]
fn draw_list_follows_store_order() {
    let mut store = vec![comment(3000, 40), comment(100, 1), comment(0, 2), comment(2000, 5)];
    sort_by_time(&mut store);
    let times: Vec<i64> = store.iter().map(|c| c.time).collect();
    assert_eq!(times, vec![0, 100, 2000, 3000]);
    let draws = render(&mut store, frame(3000)).unwrap();
    assert_eq!(draws.len(), 4);
    for w in draws.windows(2) {
        assert!(w[0].index < w[1].index);
        assert!(store[w[0].index].time <= store[w[1].index].time);
    }
}

#[test]
fn sort_is_stable() {
    let mut store = vec![comment(5, 1), comment(5, 2), comment(1, 3)];
    sort_by_time(&mut store);
    let got: Vec<(i64, usize)> = store.iter().map(|c| (c.time, c.count)).collect();
    assert_eq!(got, vec![(1, 3), (5, 1), (5, 2)]);
}

#[test]
fn overlapping_comments_take_different_lanes() {
    let mut store = vec![comment(0, 10), comment(0, 10), comment(0, 10)];
    let draws = render(&mut store, frame(0)).unwrap();
    let lanes: Vec<i128> = draws.iter().map(|d| d.y).collect();
    let row = 44 * SUBPIXELS;
    assert_eq!(lanes, vec![0, row, 2 * row]);
    let rows: Vec<usize> = draws.iter().map(|d| d.lane).collect();
    assert_eq!(rows, vec![0, 1, 2]);
}

#[test]
fn lane_sticks_across_ticks() {
    let mut store = vec![comment(0, 10), comment(0, 10)];
    render(&mut store, frame(0)).unwrap();
    let before = store[1].placement;
    for t in 1..50 {
        render(&mut store, frame(t * 5)).unwrap();
    }
    match (before, store[1].placement) {
        (Placement::Placed { lane: a, .. }, Placement::Placed { lane: b, .. }) => assert_eq!(a, b),
        _ => panic!("comment lost its placement"),
    }
}

#[test]
fn no_drift_at_zero_speed() {
    let mut store = vec![comment(0, 3), comment(1000, 3)];
    let f = Frame { width: 1280, height: 720, pos: 2000, speed: 0, font_size: 40_000 };
    let first = render(&mut store, f).unwrap();
    let second = render(&mut store, f).unwrap();
    let third = render(&mut store, f).unwrap();
    assert_eq!(first, second);
    assert_eq!(second, third);
}

#[test]
fn reset_then_render_matches_first_render() {
    let mut fresh = vec![comment(0, 3), comment(500, 7), comment(900, 2)];
    let mut played = vec![comment(0, 3), comment(500, 7), comment(900, 2)];
    for t in 0..100 {
        render(&mut played, frame(t * 5)).unwrap();
    }
    reset(&mut played);
    assert!(played.iter().all(|c| c.placement == Placement::Unplaced));
    let a = render(&mut fresh, frame(4000)).unwrap();
    let b = render(&mut played, frame(4000)).unwrap();
    assert_eq!(a, b);
    for d in &a {
        let c = &fresh[d.index];
        assert_eq!(d.x, 1920 * 1000 * (12000 - (4000 - c.time as i128)));
    }
}

#[test]
fn unavailable_canvas_skips_tick() {
    let mut store = vec![comment(0, 1)];
    assert!(render(&mut store, Frame { width: 0, ..frame(0) }).is_none());
    assert!(render(&mut store, Frame { height: 0, ..frame(0) }).is_none());
    assert_eq!(store[0].placement, Placement::Unplaced);
}

#[test]
fn tiny_canvas_has_one_lane() {
    let mut store = vec![comment(0, 5), comment(0, 5)];
    let draws = render(&mut store, Frame { height: 10, ..frame(0) }).unwrap();
    assert_eq!(draws[0].y, 0);
    assert_eq!(draws[1].y, 0);
}

#[test]
fn first_free_lane_is_chosen() {
    let ends = vec![Some(100), None, Some(5)];
    assert_eq!(choose_lane(&ends, 50), 1);
    assert_eq!(choose_lane(&ends, 200), 0);
    let ends = vec![Some(100), Some(10), None];
    assert_eq!(choose_lane(&ends, 50), 1);
}

#[test]
fn crowded_lanes_fall_back_to_least_occupied() {
    let ends = vec![Some(300), Some(120), Some(120), Some(500)];
    assert_eq!(choose_lane(&ends, 100), 1);
    // Equal to x is not clear: the comparison is strict.
    let ends = vec![Some(7), Some(7)];
    assert_eq!(choose_lane(&ends, 7), 0);
}

#[test]
fn record_builds_comment() {
    let d = Danmaku::from_record("12.3456,1,65793,abc", "a\nb").unwrap();
    assert_eq!(d.time, 12345);
    assert_eq!((d.r, d.g, d.b), (1, 1, 1));
    assert_eq!(d.message, "a\\Nb");
    assert_eq!(d.count, 3);
    assert_eq!(d.placement, Placement::Unplaced);
}

#[test]
fn graphemes_not_code_points() {
    let d = Danmaku::new("e\u{301}\u{1F44D}\u{1F3FD}", 0, 0).unwrap();
    assert_eq!(d.count, 2);
    let d = Danmaku::new("", 0, 0).unwrap();
    assert_eq!(d.count, 0);
}

#[test]
fn record_errors() {
    assert_eq!(
        Danmaku::from_record("1.5,1,16777216,0", "x").err(),
        Some(RecordError::ColorOutOfRange)
    );
    assert_eq!(Danmaku::new("x", 0, 0x1000000).err(), Some(RecordError::ColorOutOfRange));
    assert_eq!(Danmaku::from_record("1.5,1", "x").err(), Some(RecordError::MalformedParams));
    assert_eq!(Danmaku::from_record("abc,1,255", "x").err(), Some(RecordError::MalformedParams));
    assert_eq!(Danmaku::from_record("1,1,-5", "x").err(), Some(RecordError::MalformedParams));
    let d = Danmaku::from_record("7,1,16777215", "x").unwrap();
    assert_eq!((d.time, d.r, d.g, d.b), (7000, 255, 255, 255));
}

#[test]
fn line_breaks_are_escaped() {
    assert_eq!(escape_line_breaks("one\ntwo\n"), "one\\Ntwo\\N");
    assert_eq!(escape_line_breaks("plain"), "plain");
    assert_eq!(escape_line_breaks(""), "");
}

#[test]
fn fractional_font_size_keeps_its_rows() {
    // 20.5 px with a 2.05 px margin: rows are 22.55 px apart.
    let mut store = vec![comment(0, 10), comment(0, 10)];
    let draws = render(&mut store, Frame { font_size: 20_500, ..frame(0) }).unwrap();
    assert_eq!(draws[1].y, 22_550 * (SUBPIXELS / 1000));
}

#[test]
fn negative_time_from_record() {
    let d = Danmaku::from_record("-0.5,1,0", "early").unwrap();
    assert_eq!(d.time, -500);
}
