//! The scroll/visibility engine: one render tick over the comment store.
//!
//! Units: media time is in milliseconds; horizontal and vertical positions are
//! in sub-pixels, `SUBPIXELS` to the pixel. With that unit the entry position
//! and the per-tick advance are exact integers.

use vstd::prelude::*;
use crate::comment::{assigned_lane, reset_spec, sorted_by_time, unplaced, Danmaku, Placement};
use crate::lane::{choose_lane, lane_choice, lemma_lane_choice_exists, pick_lane};

verus! {

/// Time a comment takes to cross the screen, in milliseconds.
pub const DURATION_MS: i64 = 12000;
/// Media time per render tick, in milliseconds.
pub const INTERVAL_MS: i64 = 5;
/// Sub-pixels per pixel (one per millisecond of crossing time per 1/1000 px).
pub const SUBPIXELS: i128 = 12000000;
/// Bound on a stored horizontal position, far beyond any real screen.
pub const X_BOUND: i128 = 0x2000_0000_0000_0000_0000_0000_0000_0000;

/// What one tick reads of the player: canvas size in pixels, playback position
/// in milliseconds, playback speed in thousandths, and the font size in
/// thousandths of a pixel.
#[derive(Clone, Copy, Debug, PartialEq, Eq, Structural)]
pub struct Frame {
    pub width: u32,
    pub height: u32,
    pub pos: i64,
    pub speed: u32,
    pub font_size: u32,
}

/// One draw instruction: comment `index` of the store, its row, its left edge `x` and
/// top `y` in sub-pixels, its color and font size (thousandths of a pixel).
/// Its text is that comment's message.
#[derive(Clone, Copy, Debug, PartialEq, Eq, Structural)]
pub struct Draw {
    pub index: usize,
    pub lane: usize,
    pub x: i128,
    pub y: i128,
    pub r: u8,
    pub g: u8,
    pub b: u8,
    pub font_size: u32,
}

/// Comments appearing later than this cannot be visible yet.
pub open spec fn lookahead(f: Frame) -> int {
    f.pos + DURATION_MS / 2
}

/// Where a comment enters when first shown: the right edge when the playback
/// position equals its time, further left the later the position.
pub open spec fn entry_x(f: Frame, time: int) -> int {
    f.width * 1000 * (DURATION_MS - (f.pos - time))
}

/// Horizontal margin after a comment (a tenth of the font size).
pub open spec fn spacing(f: Frame) -> int {
    f.font_size * (SUBPIXELS / 10000)
}

/// Width a comment claims: one font-size cell per character, plus the margin.
pub open spec fn trail(f: Frame, count: int) -> int {
    count * (f.font_size * (SUBPIXELS / 1000)) + spacing(f)
}

/// How far a comment moves left in one tick at the current speed.
pub open spec fn advance(f: Frame) -> int {
    f.width * f.speed * INTERVAL_MS
}

pub open spec fn row_height(f: Frame) -> int {
    f.font_size * (SUBPIXELS / 1000) + spacing(f)
}

/// Number of display rows: as many as fit in the height, at least one.
pub open spec fn lane_count(f: Frame) -> int {
    let n = (f.height * 10000) / (f.font_size * 11);
    if n < 1 { 1 } else { n }
}

/// The occupancy table at the start of a tick: every row clear.
pub open spec fn clear_table(f: Frame) -> Seq<Option<i128>> {
    Seq::new(lane_count(f) as nat, |k: int| None::<i128>)
}

/// Current left edge: the stored one, or the entry position if unplaced.
pub open spec fn start_x(c: Danmaku, f: Frame) -> int {
    match c.placement {
        Placement::Placed { x, .. } => x as int,
        Placement::Unplaced => entry_x(f, c.time as int),
    }
}

pub open spec fn off_screen(c: Danmaku, f: Frame) -> bool {
    start_x(c, f) + trail(f, c.count as int) < 0
}

pub open spec fn lane_of(c: Danmaku, ends: Seq<Option<i128>>, f: Frame) -> int {
    match c.placement {
        Placement::Placed { lane, .. } => lane as int,
        Placement::Unplaced => pick_lane(ends, start_x(c, f)),
    }
}

/// An occupancy entry raised to at least `v`.
pub open spec fn raise(end: Option<i128>, v: int) -> Option<i128> {
    match end {
        Some(e) => if e >= v { Some(e) } else { Some(v as i128) },
        None => Some(v as i128),
    }
}

/// One comment's part of a tick: its new state, what it draws, and the
/// occupancy table after it.
pub open spec fn tick_one(c: Danmaku, i: int, ends: Seq<Option<i128>>, f: Frame) -> (
    Danmaku,
    Option<Draw>,
    Seq<Option<i128>>,
) {
    if off_screen(c, f) {
        (c, None, ends)
    } else {
        let x = start_x(c, f);
        let lane = lane_of(c, ends, f);
        let nx = x - advance(f);
        let ends2 = if lane < ends.len() {
            ends.update(lane, raise(ends[lane], nx + trail(f, c.count as int)))
        } else {
            ends
        };
        (
            Danmaku { placement: Placement::Placed { x: nx as i128, lane: lane as usize }, ..c },
            Some(
                Draw {
                    index: i as usize,
                    lane: lane as usize,
                    x: x as i128,
                    y: (lane * row_height(f)) as i128,
                    r: c.r,
                    g: c.g,
                    b: c.b,
                    font_size: f.font_size,
                },
            ),
            ends2,
        )
    }
}

/// The tick from comment `i` on: stops at the first comment beyond the
/// lookahead, giving the final store and the draw list in store order.
pub open spec fn render_from(cs: Seq<Danmaku>, i: int, ends: Seq<Option<i128>>, f: Frame) -> (
    Seq<Danmaku>,
    Seq<Draw>,
)
    decreases cs.len() - i,
{
    if i < 0 || i >= cs.len() || cs[i].time > lookahead(f) {
        (cs, Seq::empty())
    } else {
        let t = tick_one(cs[i], i, ends, f);
        let rest = render_from(cs.update(i, t.0), i + 1, t.2, f);
        (
            rest.0,
            match t.1 {
                Some(d) => seq![d] + rest.1,
                None => rest.1,
            },
        )
    }
}

/// A whole tick: the store afterwards and the draw list.
pub open spec fn render_spec(cs: Seq<Danmaku>, f: Frame) -> (Seq<Danmaku>, Seq<Draw>) {
    render_from(cs, 0, clear_table(f), f)
}

pub open spec fn placement_bounded(c: Danmaku) -> bool {
    match c.placement {
        Placement::Placed { x, .. } => -X_BOUND <= x <= X_BOUND,
        Placement::Unplaced => true,
    }
}

/// Every stored position lies within `X_BOUND`; ticks keep it so.
pub open spec fn positions_bounded(cs: Seq<Danmaku>) -> bool {
    forall|i: int| 0 <= i < cs.len() ==> placement_bounded(#[trigger] cs[i])
}

proof fn lemma_mul_range(a: int, b: int, am: int, bm: int)
    requires
        0 <= a <= am,
        -bm <= b <= bm,
    ensures
        -(am * bm) <= a * b <= am * bm,
{
    assert(-(am * bm) <= a * b <= am * bm) by (nonlinear_arith)
        requires
            0 <= a <= am,
            -bm <= b <= bm,
    ;
}

proof fn lemma_mul_nonneg(a: int, b: int, am: int, bm: int)
    requires
        0 <= a <= am,
        0 <= b <= bm,
    ensures
        0 <= a * b <= am * bm,
{
    assert(0 <= a * b <= am * bm) by (nonlinear_arith)
        requires
            0 <= a <= am,
            0 <= b <= bm,
    ;
}

/// Runs one render tick. A zero width or height means the canvas is not
/// available, and a row count beyond `usize` cannot be held: either way the
/// tick is skipped and nothing changes.
pub fn render(comments: &mut Vec<Danmaku>, frame: Frame) -> (r: Option<Vec<Draw>>)
    requires
        frame.font_size > 0,
        positions_bounded(old(comments)@),
    ensures
        frame.width == 0 || frame.height == 0 || lane_count(frame) > usize::MAX ==> r.is_none()
            && final(comments)@ == old(comments)@,
        frame.width > 0 && frame.height > 0 && lane_count(frame) <= usize::MAX ==> r.is_some() && render_spec(old(comments)@, frame) == (
            final(comments)@,
            r.unwrap()@,
        ),
        positions_bounded(final(comments)@),
{
    if frame.width == 0 || frame.height == 0 {
        return None;
    }
    let width = frame.width as i128;
    let fs = frame.font_size as i128;
    let q: u64 = (frame.height as u64 * 10000) / (frame.font_size as u64 * 11);
    if q > usize::MAX as u64 {
        return None;
    }
    let lanes: usize = if q < 1 { 1 } else { q as usize };
    let mut ends: Vec<Option<i128>> = Vec::new();
    while ends.len() < lanes
        invariant
            lanes as int == lane_count(frame),
            ends.len() <= lanes,
            forall|k: int| 0 <= k < ends.len() ==> (#[trigger] ends@[k]).is_none(),
        decreases lanes - ends.len(),
    {
        ends.push(None);
    }
    assert(ends@ =~= clear_table(frame));

    proof {
        lemma_mul_nonneg(fs as int, SUBPIXELS / 1000, 0x1_0000_0000, SUBPIXELS as int);
        lemma_mul_nonneg(width as int, frame.speed as int, 0x1_0000_0000, 0x1_0000_0000);
        lemma_mul_nonneg(width * frame.speed, INTERVAL_MS as int, 0x1_0000_0000int * 0x1_0000_0000, INTERVAL_MS as int);
        lemma_mul_nonneg(fs as int, SUBPIXELS / 10000, 0x1_0000_0000, SUBPIXELS as int);
        assert(fs * (SUBPIXELS / 10000) <= fs * (SUBPIXELS / 1000)) by (nonlinear_arith)
            requires
                fs >= 0,
        ;
    }
    let cell: i128 = fs * (SUBPIXELS / 1000);
    let gap: i128 = fs * (SUBPIXELS / 10000);
    let row_h: i128 = cell + gap;
    let adv: i128 = width * (frame.speed as i128) * (INTERVAL_MS as i128);
    let limit: i128 = frame.pos as i128 + (DURATION_MS / 2) as i128;

    let ghost c0 = comments@;
    let n = comments.len();
    let mut draws: Vec<Draw> = Vec::new();
    let mut i: usize = 0;
    while i < n && (comments[i].time as i128) <= limit
        invariant
            n == comments.len(),
            i <= n,
            ends.len() == lanes,
            lanes > 0,
            cell == frame.font_size * (SUBPIXELS / 1000),
            gap == spacing(frame),
            row_h == row_height(frame),
            adv == advance(frame),
            0 <= adv <= 0x10_0000_0000_0000_0000,
            0 <= cell <= 0x1_0000_0000 * SUBPIXELS,
            0 <= gap <= cell,
            limit == lookahead(frame),
            frame.width > 0,
            width == frame.width,
            positions_bounded(comments@),
            render_spec(c0, frame) == (
                render_from(comments@, i as int, ends@, frame).0,
                draws@ + render_from(comments@, i as int, ends@, frame).1,
            ),
        decreases n - i,
    {
        let ghost cs = comments@;
        let ghost e0 = ends@;
        let ghost t = tick_one(cs[i as int], i as int, e0, frame);
        let ghost d0 = draws@;
        let time = comments[i].time as i128;
        let count = comments[i].count as i128;
        proof {
            lemma_mul_nonneg(count as int, cell as int, 0x1_0000_0000_0000_0000, 0x1_0000_0000 * SUBPIXELS);
            lemma_mul_range(width * 1000, 12000 - (frame.pos - time), 0x1_0000_0000int * 1000, 0x2_0000_0000_0000_0000int);
            assert(placement_bounded(cs[i as int]));
        }
        let x: i128 = match comments[i].placement {
            Placement::Placed { x, .. } => x,
            Placement::Unplaced => width * 1000 * (12000 - (frame.pos as i128 - time)),
        };
        assert(-X_BOUND <= x <= X_BOUND);
        let tr: i128 = count * cell + gap;
        assert(x == start_x(cs[i as int], frame));
        assert(tr == trail(frame, cs[i as int].count as int));
        if x + tr >= 0 {
            let lane: usize = match comments[i].placement {
                Placement::Placed { lane, .. } => lane,
                Placement::Unplaced => choose_lane(&ends, x),
            };
            assert(lane == lane_of(cs[i as int], e0, frame));
            let nx = x - adv;
            proof {
                lemma_mul_nonneg(lane as int, row_h as int, 0x1_0000_0000_0000_0000, 0x2_0000_0000 * SUBPIXELS);
            }
            let d = Draw {
                index: i,
                lane: lane,
                x: x,
                y: (lane as i128) * row_h,
                r: comments[i].r,
                g: comments[i].g,
                b: comments[i].b,
                font_size: frame.font_size,
            };
            draws.push(d);
            comments[i].placement = Placement::Placed { x: nx, lane: lane };
            if lane < ends.len() {
                let v = nx + tr;
                let raised = match ends[lane] {
                    Some(e) => if e >= v { Some(e) } else { Some(v) },
                    None => Some(v),
                };
                ends.set(lane, raised);
            }
            assert(comments@ =~= cs.update(i as int, t.0));
            assert(ends@ =~= t.2);
            assert(draws@ =~= d0 + seq![d]);
            assert(draws@ + render_from(comments@, i + 1, ends@, frame).1 =~= d0 + (seq![d]
                + render_from(comments@, i + 1, ends@, frame).1));
        } else {
            assert(cs.update(i as int, t.0) =~= cs);
        }
        i = i + 1;
    }
    assert(render_from(comments@, i as int, ends@, frame).1 =~= Seq::<Draw>::empty());
    assert(draws@ + Seq::<Draw>::empty() =~= draws@);
    Some(draws)
}

/// After a tick, each comment is either untouched or is what `tick_one` makes
/// of it against some occupancy table.
proof fn lemma_render_pointwise(cs: Seq<Danmaku>, i: int, e: Seq<Option<i128>>, f: Frame, k: int)
    requires
        0 <= i,
        0 <= k < cs.len(),
    ensures
        render_from(cs, i, e, f).0.len() == cs.len(),
        render_from(cs, i, e, f).0[k] == cs[k] || (k >= i && exists|e2: Seq<Option<i128>>|
            #[trigger] tick_one(cs[k], k, e2, f).0 == render_from(cs, i, e, f).0[k]),
    decreases cs.len() - i,
{
    if i < 0 || i >= cs.len() || cs[i].time > lookahead(f) {
    } else {
        let t = tick_one(cs[i], i, e, f);
        let cs2 = cs.update(i, t.0);
        lemma_render_pointwise(cs2, i + 1, t.2, f, k);
        let res = render_from(cs, i, e, f).0;
        if k == i {
            assert(tick_one(cs[k], k, e, f).0 == res[k]);
        } else if k > i {
            assert(cs2[k] == cs[k]);
        }
    }
}

/// Draws come from comments at index `i` on, in strictly increasing index order.
proof fn lemma_draw_indices(cs: Seq<Danmaku>, i: int, e: Seq<Option<i128>>, f: Frame)
    requires
        0 <= i,
        cs.len() <= usize::MAX,
    ensures
        forall|a: int|
            0 <= a < render_from(cs, i, e, f).1.len() ==> i <= (#[trigger] render_from(cs, i, e, f).1[a]).index
                < cs.len(),
        forall|a: int, b: int|
            0 <= a < b < render_from(cs, i, e, f).1.len() ==> (#[trigger] render_from(cs, i, e, f).1[a]).index
                < (#[trigger] render_from(cs, i, e, f).1[b]).index,
    decreases cs.len() - i,
{
    if i < 0 || i >= cs.len() || cs[i].time > lookahead(f) {
    } else {
        let t = tick_one(cs[i], i, e, f);
        lemma_draw_indices(cs.update(i, t.0), i + 1, t.2, f);
        let rest = render_from(cs.update(i, t.0), i + 1, t.2, f).1;
        let ds = render_from(cs, i, e, f).1;
        match t.1 {
            Some(d) => {
                assert(ds == seq![d] + rest);
                assert forall|a: int| 0 <= a < ds.len() implies i <= (#[trigger] ds[a]).index < cs.len() by {
                    if a > 0 {
                        assert(ds[a] == rest[a - 1]);
                    }
                }
                assert forall|a: int, b: int| 0 <= a < b < ds.len() implies (#[trigger] ds[a]).index
                    < (#[trigger] ds[b]).index by {
                    assert(ds[b] == rest[b - 1]);
                    if a > 0 {
                        assert(ds[a] == rest[a - 1]);
                    }
                }
            },
            None => {},
        }
    }
}

/// On a store in appearance-time order, the draw list of a tick follows the
/// store's order: indices strictly increase, so appearance times never
/// decrease along the list.
pub proof fn lemma_draws_follow_store_order(cs: Seq<Danmaku>, f: Frame)
    requires
        sorted_by_time(cs),
        cs.len() <= usize::MAX,
    ensures
        forall|a: int|
            0 <= a < render_spec(cs, f).1.len() ==> (#[trigger] render_spec(cs, f).1[a]).index < cs.len(),
        forall|a: int, b: int|
            0 <= a < b < render_spec(cs, f).1.len() ==> (#[trigger] render_spec(cs, f).1[a]).index
                < (#[trigger] render_spec(cs, f).1[b]).index,
        forall|a: int, b: int|
            0 <= a < b < render_spec(cs, f).1.len() ==> cs[(#[trigger] render_spec(cs, f).1[a]).index as int].time
                <= cs[(#[trigger] render_spec(cs, f).1[b]).index as int].time,
{
    lemma_draw_indices(cs, 0, clear_table(f), f);
    let ds = render_spec(cs, f).1;
    assert forall|a: int, b: int| 0 <= a < b < ds.len() implies cs[(#[trigger] ds[a]).index as int].time
        <= cs[(#[trigger] ds[b]).index as int].time by {
        assert(ds[a].index < ds[b].index);
    }
}

/// A comment shown for the first time exactly at its appearance time is drawn
/// at the right edge of the canvas.
pub proof fn lemma_enters_at_right_edge(c: Danmaku, i: int, ends: Seq<Option<i128>>, f: Frame)
    requires
        c.placement == Placement::Unplaced,
        c.time == f.pos,
        0 <= i <= usize::MAX,
        f.width * SUBPIXELS <= X_BOUND,
    ensures
        start_x(c, f) == f.width * SUBPIXELS,
        tick_one(c, i, ends, f).1 is Some,
        tick_one(c, i, ends, f).1.unwrap().x == f.width * SUBPIXELS,
{
    assert(f.width * 1000 * (DURATION_MS - (f.pos - c.time)) == f.width * SUBPIXELS) by (nonlinear_arith)
        requires
            c.time == f.pos,
    ;
    assert(trail(f, c.count as int) >= 0) by (nonlinear_arith)
        requires
            c.count >= 0,
            f.font_size >= 0,
    ;
}

/// A comment that gets its row in a tick gets it by the lane policy: the
/// lowest row clear at its left edge, else the least occupied row (lowest on
/// ties). So two comments that would overlap at the same position share a row
/// only when every row is taken.
pub proof fn lemma_new_lane_by_policy(c: Danmaku, i: int, ends: Seq<Option<i128>>, f: Frame)
    requires
        c.placement == Placement::Unplaced,
        !off_screen(c, f),
        ends.len() > 0,
    ensures
        lane_choice(ends, start_x(c, f), lane_of(c, ends, f)),
        assigned_lane(tick_one(c, i, ends, f).0) == Some(lane_of(c, ends, f) as usize),
{
    lemma_lane_choice_exists(ends, start_x(c, f));
}

/// A tick changes only layout state: every payload stays, so a store in
/// appearance-time order stays in that order.
pub proof fn lemma_render_keeps_payloads(cs: Seq<Danmaku>, f: Frame)
    ensures
        render_spec(cs, f).0.len() == cs.len(),
        forall|k: int| 0 <= k < cs.len() ==> unplaced(#[trigger] render_spec(cs, f).0[k]) == unplaced(cs[k]),
        sorted_by_time(cs) ==> sorted_by_time(render_spec(cs, f).0),
{
    let out = render_spec(cs, f).0;
    if cs.len() > 0 {
        lemma_render_pointwise(cs, 0, clear_table(f), f, 0);
    }
    assert forall|k: int| 0 <= k < cs.len() implies unplaced(#[trigger] out[k]) == unplaced(cs[k]) by {
        lemma_render_pointwise(cs, 0, clear_table(f), f, k);
    }
    if sorted_by_time(cs) {
        assert forall|a: int, b: int| 0 <= a <= b < out.len() implies (#[trigger] out[a]).time
            <= (#[trigger] out[b]).time by {
            assert(unplaced(out[a]) == unplaced(cs[a]));
            assert(unplaced(out[b]) == unplaced(cs[b]));
        }
    }
}

/// Where a drawn comment's occupied extent ends after its move this tick.
pub open spec fn draw_end(d: Draw, cs: Seq<Danmaku>, f: Frame) -> int {
    d.x - advance(f) + trail(f, cs[d.index as int].count as int)
}

/// The occupancy table after the draws `ds` of a tick over store `cs`: for
/// each row, the furthest end of what was drawn in it, unset if nothing was.
pub open spec fn occupancy(ds: Seq<Draw>, cs: Seq<Danmaku>, f: Frame) -> Seq<Option<i128>>
    decreases ds.len(),
{
    if ds.len() == 0 {
        clear_table(f)
    } else {
        let t = occupancy(ds.drop_last(), cs, f);
        let d = ds.last();
        if (d.lane as int) < t.len() {
            t.update(d.lane as int, raise(t[d.lane as int], draw_end(d, cs, f)))
        } else {
            t
        }
    }
}

proof fn lemma_occupancy_len(ds: Seq<Draw>, cs: Seq<Danmaku>, f: Frame)
    ensures
        occupancy(ds, cs, f).len() == lane_count(f),
    decreases ds.len(),
{
    if ds.len() > 0 {
        lemma_occupancy_len(ds.drop_last(), cs, f);
    }
}

proof fn lemma_occupancy_tracks(
    cs0: Seq<Danmaku>,
    cs: Seq<Danmaku>,
    i: int,
    e: Seq<Option<i128>>,
    before: Seq<Draw>,
    f: Frame,
)
    requires
        0 <= i,
        cs.len() == cs0.len(),
        cs.len() <= usize::MAX,
        lane_count(f) <= usize::MAX,
        forall|k: int| i <= k < cs.len() ==> #[trigger] cs[k] == cs0[k],
        forall|k: int| 0 <= k < cs.len() ==> (#[trigger] cs[k]).count == cs0[k].count,
        e == occupancy(before, cs0, f),
    ensures
        forall|a: int|
            0 <= a < render_from(cs, i, e, f).1.len() && cs0[(#[trigger] render_from(cs, i, e, f).1[a]).index as int].placement
                == Placement::Unplaced ==> lane_choice(
                occupancy(before + render_from(cs, i, e, f).1.take(a), cs0, f),
                render_from(cs, i, e, f).1[a].x as int,
                render_from(cs, i, e, f).1[a].lane as int,
            ),
    decreases cs.len() - i,
{
    if i < 0 || i >= cs.len() || cs[i].time > lookahead(f) {
    } else {
        let c = cs[i];
        let t = tick_one(c, i, e, f);
        let cs2 = cs.update(i, t.0);
        let ds = render_from(cs, i, e, f).1;
        lemma_occupancy_len(before, cs0, f);
        match t.1 {
            Some(d) => {
                let x = start_x(c, f);
                let lane = lane_of(c, e, f);
                lemma_mul_range(f.width * 1000, DURATION_MS - (f.pos - c.time), 0x1_0000_0000int * 1000, 0x2_0000_0000_0000_0000int);
                if c.placement == Placement::Unplaced {
                    lemma_new_lane_by_policy(c, i, e, f);
                }
                assert(d.x as int == x);
                assert(d.lane as int == lane);
                let before2 = before + seq![d];
                assert(before2.drop_last() =~= before);
                assert(t.2 == occupancy(before2, cs0, f));
                lemma_occupancy_tracks(cs0, cs2, i + 1, t.2, before2, f);
                let rest = render_from(cs2, i + 1, t.2, f).1;
                assert(ds == seq![d] + rest);
                assert forall|a: int|
                    0 <= a < ds.len() && cs0[(#[trigger] ds[a]).index as int].placement == Placement::Unplaced implies lane_choice(
                    occupancy(before + ds.take(a), cs0, f),
                    ds[a].x as int,
                    ds[a].lane as int,
                ) by {
                    if a == 0 {
                        assert(before + ds.take(0) =~= before);
                    } else {
                        assert(ds[a] == rest[a - 1]);
                        assert(before + ds.take(a) =~= before2 + rest.take(a - 1));
                    }
                }
            },
            None => {
                assert(cs2 =~= cs);
                lemma_occupancy_tracks(cs0, cs2, i + 1, t.2, before, f);
            },
        }
    }
}

/// Over a whole tick, a comment that gets its row in this tick gets it by the
/// lane policy against what the earlier draws of the same tick occupy: the
/// lowest row where every earlier comment drawn in it ends strictly left of
/// this comment's left edge, else the row with the smallest such end (lowest
/// on ties).
pub proof fn lemma_tick_lane_policy(cs: Seq<Danmaku>, f: Frame, a: int)
    requires
        cs.len() <= usize::MAX,
        lane_count(f) <= usize::MAX,
        0 <= a < render_spec(cs, f).1.len(),
        cs[render_spec(cs, f).1[a].index as int].placement == Placement::Unplaced,
    ensures
        lane_choice(
            occupancy(render_spec(cs, f).1.take(a), cs, f),
            render_spec(cs, f).1[a].x as int,
            render_spec(cs, f).1[a].lane as int,
        ),
{
    let ds = render_spec(cs, f).1;
    assert(clear_table(f) == occupancy(Seq::<Draw>::empty(), cs, f));
    lemma_occupancy_tracks(cs, cs, 0, clear_table(f), Seq::empty(), f);
    assert(Seq::<Draw>::empty() + ds.take(a) =~= ds.take(a));
}

/// A row, once held, is kept through any tick.
pub proof fn lemma_lane_sticky(cs: Seq<Danmaku>, f: Frame, k: int)
    requires
        0 <= k < cs.len(),
        assigned_lane(cs[k]) is Some,
    ensures
        assigned_lane(render_spec(cs, f).0[k]) == assigned_lane(cs[k]),
{
    lemma_render_pointwise(cs, 0, clear_table(f), f, k);
}

/// At zero speed a tick leaves every comment's position where it was.
pub proof fn lemma_no_drift_at_zero_speed(cs: Seq<Danmaku>, f: Frame, k: int)
    requires
        f.speed == 0,
        0 <= k < cs.len(),
        positions_bounded(cs),
    ensures
        render_spec(cs, f).0.len() == cs.len(),
        start_x(render_spec(cs, f).0[k], f) == start_x(cs[k], f),
{
    lemma_render_pointwise(cs, 0, clear_table(f), f, k);
    assert(advance(f) == 0);
    assert(placement_bounded(cs[k]));
    lemma_mul_range(f.width * 1000, DURATION_MS - (f.pos - cs[k].time), 0x1_0000_0000int * 1000, 0x2_0000_0000_0000_0000int);
}

/// After a reset, a tick depends on the payloads alone: it is the tick of a
/// freshly loaded store, and each comment drawn enters by the entry formula.
pub proof fn lemma_reset_then_render(cs: Seq<Danmaku>, fresh: Seq<Danmaku>, f: Frame)
    requires
        cs.len() <= usize::MAX,
        fresh.len() == cs.len(),
        forall|k: int| 0 <= k < cs.len() ==> #[trigger] fresh[k] == unplaced(cs[k]),
    ensures
        render_spec(reset_spec(cs), f) == render_spec(fresh, f),
        forall|a: int|
            0 <= a < render_spec(reset_spec(cs), f).1.len() ==> (#[trigger] render_spec(reset_spec(cs), f).1[a]).x
                == entry_x(f, cs[render_spec(reset_spec(cs), f).1[a].index as int].time as int),
{
    let rs = reset_spec(cs);
    assert(rs =~= fresh);
    lemma_entry_draws(rs, 0, clear_table(f), f);
    lemma_draw_indices(rs, 0, clear_table(f), f);
    let ds = render_spec(rs, f).1;
    assert forall|a: int| 0 <= a < ds.len() implies (#[trigger] ds[a]).x == entry_x(
        f,
        cs[ds[a].index as int].time as int,
    ) by {
        assert(rs[ds[a].index as int].time == cs[ds[a].index as int].time);
    }
}

/// On a store whose comments from `i` on are all unplaced, every draw is at the
/// entry position of its comment.
proof fn lemma_entry_draws(cs: Seq<Danmaku>, i: int, e: Seq<Option<i128>>, f: Frame)
    requires
        0 <= i,
        cs.len() <= usize::MAX,
        forall|k: int| i <= k < cs.len() ==> (#[trigger] cs[k]).placement == Placement::Unplaced,
    ensures
        forall|a: int|
            0 <= a < render_from(cs, i, e, f).1.len() ==> (#[trigger] render_from(cs, i, e, f).1[a]).x
                == entry_x(f, cs[render_from(cs, i, e, f).1[a].index as int].time as int),
    decreases cs.len() - i,
{
    if i < 0 || i >= cs.len() || cs[i].time > lookahead(f) {
    } else {
        let t = tick_one(cs[i], i, e, f);
        let cs2 = cs.update(i, t.0);
        lemma_entry_draws(cs2, i + 1, t.2, f);
        lemma_draw_indices(cs2, i + 1, t.2, f);
        let rest = render_from(cs2, i + 1, t.2, f).1;
        let ds = render_from(cs, i, e, f).1;
        lemma_mul_range(f.width * 1000, DURATION_MS - (f.pos - cs[i].time), 0x1_0000_0000int * 1000, 0x2_0000_0000_0000_0000int);
        assert forall|a: int| 0 <= a < ds.len() implies (#[trigger] ds[a]).x == entry_x(
            f,
            cs[ds[a].index as int].time as int,
        ) by {
            match t.1 {
                Some(d) => {
                    assert(ds == seq![d] + rest);
                    if a > 0 {
                        assert(ds[a] == rest[a - 1]);
                        assert(cs2[rest[a - 1].index as int] == cs[rest[a - 1].index as int]);
                    }
                },
                None => {
                    assert(cs2[rest[a].index as int] == cs[rest[a].index as int]);
                },
            }
        }
    }
}

} // verus!
