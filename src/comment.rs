//! The comment record and the comment store (a `Vec` sorted by appearance time).

use vstd::prelude::*;
use crate::parse::{comment_params, parse_comment_params};

verus! {

/// Layout state of a comment within the current epoch.
#[derive(Clone, Copy, Debug, PartialEq, Eq, Structural)]
pub enum Placement {
    /// Not yet shown in this epoch: position and row are computed when it
    /// next becomes visible.
    Unplaced,
    /// Shown: `x` is the left edge in sub-pixels, `lane` the display row.
    Placed { x: i128, lane: usize },
}

/// One timed comment: its payload and its layout state.
pub struct Danmaku {
    /// Display text, line breaks already in the compositor's `\N` form.
    pub message: String,
    /// Number of user-perceived characters (grapheme clusters) in the text.
    pub count: usize,
    /// Offset into the media, in milliseconds, at which it enters the screen.
    pub time: i64,
    pub r: u8,
    pub g: u8,
    pub b: u8,
    pub placement: Placement,
}

/// The row a comment holds in this epoch, if any.
pub open spec fn assigned_lane(c: Danmaku) -> Option<usize> {
    match c.placement {
        Placement::Placed { lane, .. } => Some(lane),
        Placement::Unplaced => None,
    }
}

/// A comment with its layout state cleared.
pub open spec fn unplaced(c: Danmaku) -> Danmaku {
    Danmaku { placement: Placement::Unplaced, ..c }
}

/// The store after a reset: every comment unplaced, payloads untouched.
pub open spec fn reset_spec(cs: Seq<Danmaku>) -> Seq<Danmaku> {
    cs.map_values(|c: Danmaku| unplaced(c))
}

/// The store is in appearance-time order.
pub open spec fn sorted_by_time(cs: Seq<Danmaku>) -> bool {
    forall|i: int, j: int| 0 <= i <= j < cs.len() ==> (#[trigger] cs[i]).time <= (#[trigger] cs[j]).time
}

/// Holds of the comments that appear at time `t`.
pub open spec fn time_is(t: i64) -> spec_fn(Danmaku) -> bool {
    |c: Danmaku| c.time == t
}

/// The comments of `cs` that appear at time `t`, in store order.
pub open spec fn with_time(cs: Seq<Danmaku>, t: i64) -> Seq<Danmaku> {
    cs.filter(time_is(t))
}

/// Starts a new epoch: clears the position and row of every comment.
pub fn reset(comments: &mut Vec<Danmaku>)
    ensures
        final(comments)@ == reset_spec(old(comments)@),
{
    let n = comments.len();
    let mut i: usize = 0;
    while i < n
        invariant
            n == comments.len(),
            n == old(comments)@.len(),
            i <= n,
            forall|j: int| 0 <= j < i ==> comments@[j] == unplaced(#[trigger] old(comments)@[j]),
            forall|j: int| i <= j < n ==> comments@[j] == #[trigger] old(comments)@[j],
        decreases n - i,
    {
        comments[i].placement = Placement::Unplaced;
        i = i + 1;
    }
    assert(comments@ =~= reset_spec(old(comments)@));
}

/// What one character becomes in the compositor's text: a line break is
/// written as the two characters `\N`.
pub open spec fn escaped_char(c: char) -> Seq<char> {
    if c == '\n' {
        seq!['\\', 'N']
    } else {
        seq![c]
    }
}

/// `s` with every line break written as the compositor's `\N` escape.
pub open spec fn escape_newlines(s: Seq<char>) -> Seq<char>
    decreases s.len(),
{
    if s.len() == 0 {
        Seq::empty()
    } else {
        escape_newlines(s.drop_last()) + escaped_char(s.last())
    }
}

/// Writes every line break of `s` as the compositor's `\N` escape.
pub fn escape_line_breaks(s: &str) -> (r: String)
    ensures
        r@ == escape_newlines(s@),
{
    let n = s.unicode_len();
    let mut out = String::new();
    let mut i: usize = 0;
    while i < n
        invariant
            n == s@.len(),
            i <= n,
            out@ == escape_newlines(s@.subrange(0, i as int)),
        decreases n - i,
    {
        proof {
            reveal_strlit("\\N");
            assert(s@.subrange(0, i + 1).drop_last() =~= s@.subrange(0, i as int));
        }
        if s.get_char(i) == '\n' {
            out.append("\\N");
        } else {
            out.append(s.substring_char(i, i + 1));
        }
        proof {
            assert(escaped_char(s@[i as int]) =~= s@.subrange(i as int, i + 1) || s@[i as int] == '\n');
        }
        i = i + 1;
    }
    assert(s@.subrange(0, n as int) =~= s@);
    out
}

/// The number of extended grapheme clusters in `s`.
pub uninterp spec fn grapheme_count(s: Seq<char>) -> nat;

/// Relies on `unicode_segmentation`'s `graphemes(true)`: the number of
/// extended grapheme clusters of `s`; none in an empty string.
#[verifier::external_body]
fn count_graphemes(s: &str) -> (r: usize)
    ensures
        r as nat == grapheme_count(s@),
        s@.len() == 0 ==> r == 0,
{
    unicode_segmentation::UnicodeSegmentation::graphemes(s, true).count()
}

/// Why a record cannot become a comment.
#[derive(Clone, Copy, Debug, PartialEq, Eq, Structural)]
pub enum RecordError {
    /// The packed color does not fit in 24 bits.
    ColorOutOfRange,
    /// The parameter field is not `time,mode,color[,...]` with a decimal
    /// time and a decimal color.
    MalformedParams,
}

impl Danmaku {
    /// Builds an unplaced comment from its text, its time in milliseconds and
    /// its color packed as `0xRRGGBB`.
    pub fn new(text: &str, time: i64, color: u32) -> (res: Result<Danmaku, RecordError>)
        ensures
            color > 0xFFFFFF <==> res == Err::<Danmaku, RecordError>(RecordError::ColorOutOfRange),
            color <= 0xFFFFFF ==> res.is_ok() && ({
                let d = res.unwrap();
                &&& d.message@ == escape_newlines(text@)
                &&& d.count == grapheme_count(text@)
                &&& d.time == time
                &&& d.r == color / 65536
                &&& d.g == (color % 65536) / 256
                &&& d.b == color % 256
                &&& d.placement == Placement::Unplaced
            }),
    {
        if color > 0xFFFFFF {
            return Err(RecordError::ColorOutOfRange);
        }
        let count = count_graphemes(text);
        let message = escape_line_breaks(text);
        Ok(
            Danmaku {
                message,
                count,
                time,
                r: (color / 65536) as u8,
                g: ((color % 65536) / 256) as u8,
                b: (color % 256) as u8,
                placement: Placement::Unplaced,
            },
        )
    }
}

impl Danmaku {
    /// Builds an unplaced comment from a record of the comment service: its
    /// parameter field (time in seconds, mode, packed color, ...) and its text.
    pub fn from_record(params: &str, text: &str) -> (res: Result<Danmaku, RecordError>)
        ensures
            match comment_params(params@) {
                None => res == Err::<Danmaku, RecordError>(RecordError::MalformedParams),
                Some((t, c)) => if c > 0xFFFFFF {
                    res == Err::<Danmaku, RecordError>(RecordError::ColorOutOfRange)
                } else {
                    res.is_ok() && ({
                        let d = res.unwrap();
                        &&& d.message@ == escape_newlines(text@)
                        &&& d.count == grapheme_count(text@)
                        &&& d.time == t
                        &&& d.r == c / 65536
                        &&& d.g == (c % 65536) / 256
                        &&& d.b == c % 256
                        &&& d.placement == Placement::Unplaced
                    })
                },
            },
    {
        match parse_comment_params(params) {
            None => Err(RecordError::MalformedParams),
            Some((t, c)) => {
                if c > 0xFFFFFF {
                    Err(RecordError::ColorOutOfRange)
                } else {
                    Danmaku::new(text, t, c as u32)
                }
            },
        }
    }
}

proof fn lemma_filter_none(s: Seq<Danmaku>, p: spec_fn(Danmaku) -> bool)
    requires
        forall|k: int| 0 <= k < s.len() ==> !p(#[trigger] s[k]),
    ensures
        s.filter(p) == Seq::<Danmaku>::empty(),
    decreases s.len(),
{
    reveal(Seq::filter);
    if s.len() > 0 {
        let d = s.drop_last();
        assert(forall|k: int| 0 <= k < d.len() ==> d[k] == s[k]);
        lemma_filter_none(d, p);
    }
}

proof fn lemma_filter_one(c: Danmaku, p: spec_fn(Danmaku) -> bool)
    ensures
        seq![c].filter(p) == (if p(c) { seq![c] } else { Seq::<Danmaku>::empty() }),
{
    reveal_with_fuel(Seq::filter, 2);
    assert(seq![c].drop_last() =~= Seq::<Danmaku>::empty());
    if p(c) {
        assert(Seq::<Danmaku>::empty().push(c) =~= seq![c]);
    }
}

/// Moving `before[i]` to `j`, past comments that all appear strictly later,
/// keeps the order among comments of each time.
proof fn lemma_move_keeps_time_order(before: Seq<Danmaku>, i: int, j: int, t: i64)
    requires
        0 <= j <= i < before.len(),
        forall|k: int| j <= k < i ==> (#[trigger] before[k]).time > before[i].time,
    ensures
        with_time(before.remove(i).insert(j, before[i]), t) == with_time(before, t),
{
    let p = time_is(t);
    let c = before[i];
    let a = before.subrange(0, j);
    let m = before.subrange(j, i);
    let r = before.subrange(i + 1, before.len() as int);
    assert(before =~= a + m + seq![c] + r);
    assert(before.remove(i).insert(j, c) =~= a + seq![c] + m + r);
    Seq::filter_distributes_over_add(a + m + seq![c], r, p);
    Seq::filter_distributes_over_add(a + m, seq![c], p);
    Seq::filter_distributes_over_add(a, m, p);
    Seq::filter_distributes_over_add(a + seq![c] + m, r, p);
    Seq::filter_distributes_over_add(a + seq![c], m, p);
    Seq::filter_distributes_over_add(a, seq![c], p);
    lemma_filter_one(c, p);
    if c.time == t {
        lemma_filter_none(m, p);
        assert(a.filter(p) + Seq::<Danmaku>::empty() =~= a.filter(p));
        assert(seq![c] + Seq::<Danmaku>::empty() =~= seq![c]);
    } else {
        assert(a.filter(p) + Seq::<Danmaku>::empty() =~= a.filter(p));
        assert(m.filter(p) + Seq::<Danmaku>::empty() =~= m.filter(p));
    }
    assert((a + m + seq![c] + r).filter(p) =~= (a + seq![c] + m + r).filter(p));
}

/// Puts the store in appearance-time order (once, at load), keeping its
/// contents; comments of equal time keep their relative order.
pub fn sort_by_time(comments: &mut Vec<Danmaku>)
    ensures
        sorted_by_time(final(comments)@),
        final(comments)@.to_multiset() == old(comments)@.to_multiset(),
        forall|t: i64| #[trigger] with_time(final(comments)@, t) == with_time(old(comments)@, t),
{
    broadcast use vstd::seq_lib::to_multiset_remove, vstd::seq_lib::to_multiset_insert;

    let n = comments.len();
    let mut i: usize = 0;
    while i < n
        invariant
            n == comments.len(),
            i <= n,
            comments@.to_multiset() == old(comments)@.to_multiset(),
            sorted_by_time(comments@.subrange(0, i as int)),
            forall|t: i64| #[trigger] with_time(comments@, t) == with_time(old(comments)@, t),
        decreases n - i,
    {
        let t = comments[i].time;
        let mut j: usize = i;
        while j > 0 && comments[j - 1].time > t
            invariant
                n == comments.len(),
                i < n,
                j <= i,
                t == comments@[i as int].time,
                sorted_by_time(comments@.subrange(0, i as int)),
                forall|k: int| j <= k < i ==> (#[trigger] comments@[k]).time > t,
            decreases j,
        {
            j = j - 1;
        }
        let ghost before = comments@;
        let c = comments.remove(i);
        comments.insert(j, c);
        proof {
            let after = comments@;
            assert(after =~= before.remove(i as int).insert(j as int, c));
            broadcast use vstd::multiset::group_multiset_axioms;
            before.to_multiset_ensures();
            assert(before.to_multiset().count(c) > 0);
            assert(before.to_multiset().remove(c).insert(c) =~= before.to_multiset());
            vstd::seq_lib::to_multiset_remove(before, i as int);
            vstd::seq_lib::to_multiset_insert(before.remove(i as int), j as int, c);
            assert(after.to_multiset() == before.to_multiset());
            assert forall|t: i64| #[trigger] with_time(after, t) == with_time(before, t) by {
                lemma_move_keeps_time_order(before, i as int, j as int, t);
            }
            assert(forall|k: int| 0 <= k < j ==> #[trigger] after[k] == before[k]);
            assert(forall|k: int| j < k <= i ==> #[trigger] after[k] == before[k - 1]);
            assert forall|a: int, b: int| 0 <= a <= b < i + 1 implies (#[trigger] after.subrange(0, i + 1)[a]).time
                <= (#[trigger] after.subrange(0, i + 1)[b]).time by {
                let sb = before.subrange(0, i as int);
                if a < j && b < j {
                    assert(sb[a] == after[a] && sb[b] == after[b]);
                } else if a < j && b == j {
                    assert(sb[a] == after[a] && sb[j - 1] == before[j - 1]);
                } else if a < j {
                    assert(sb[a] == after[a] && sb[b - 1] == after[b]);
                } else if a == j && b > j {
                    assert(after[b] == before[b - 1]);
                } else if a > j {
                    assert(sb[a - 1] == after[a] && sb[b - 1] == after[b]);
                }
            }
        }
        i = i + 1;
    }
    assert(comments@.subrange(0, n as int) =~= comments@);
}

} // verus!
