//! The lane allocator: picks a display row for a comment that is about to
//! enter the screen, given how far each row is still occupied.

use vstd::prelude::*;

verus! {

/// A row is clear for a comment starting at `x` when nothing was placed in it
/// during this tick, or when what was placed ends strictly left of `x`.
pub open spec fn lane_free(end: Option<i128>, x: int) -> bool {
    match end {
        None => true,
        Some(e) => e < x,
    }
}

pub open spec fn some_lane_free(ends: Seq<Option<i128>>, x: int) -> bool {
    exists|j: int| 0 <= j < ends.len() && lane_free(#[trigger] ends[j], x)
}

/// `r` is the row that the allocation policy gives: the lowest clear row, or,
/// when every row is occupied past `x`, the row whose occupied extent is
/// smallest, the lowest such row on ties.
pub open spec fn lane_choice(ends: Seq<Option<i128>>, x: int, r: int) -> bool {
    &&& 0 <= r < ends.len()
    &&& if some_lane_free(ends, x) {
        &&& lane_free(ends[r], x)
        &&& forall|j: int| 0 <= j < r ==> !lane_free(#[trigger] ends[j], x)
    } else {
        &&& forall|j: int| 0 <= j < ends.len() ==> ends[r].unwrap() <= (#[trigger] ends[j]).unwrap()
        &&& forall|j: int| 0 <= j < r ==> ends[r].unwrap() < (#[trigger] ends[j]).unwrap()
    }
}

/// The row that the policy gives (meaningful on a non-empty table).
pub open spec fn pick_lane(ends: Seq<Option<i128>>, x: int) -> int {
    choose|r: int| lane_choice(ends, x, r)
}

/// The policy gives at most one row.
pub proof fn lemma_lane_choice_unique(ends: Seq<Option<i128>>, x: int, r1: int, r2: int)
    requires
        lane_choice(ends, x, r1),
        lane_choice(ends, x, r2),
    ensures
        r1 == r2,
{
    if some_lane_free(ends, x) {
        if r1 < r2 {
            assert(!lane_free(ends[r1], x));
        } else if r2 < r1 {
            assert(!lane_free(ends[r2], x));
        }
    } else {
        if r1 < r2 {
            assert(ends[r2].unwrap() < ends[r1].unwrap());
            assert(ends[r2].unwrap() <= ends[r1].unwrap());
        } else if r2 < r1 {
            assert(ends[r1].unwrap() < ends[r2].unwrap());
        }
    }
}

/// Once some row satisfies the policy, `pick_lane` is that row.
pub proof fn lemma_pick_lane(ends: Seq<Option<i128>>, x: int, r: int)
    requires
        lane_choice(ends, x, r),
    ensures
        pick_lane(ends, x) == r,
{
    lemma_lane_choice_unique(ends, x, r, pick_lane(ends, x));
}

proof fn lemma_first_free(ends: Seq<Option<i128>>, x: int, k: int) -> (r: int)
    requires
        0 <= k < ends.len(),
        lane_free(ends[k], x),
    ensures
        0 <= r <= k,
        lane_free(ends[r], x),
        forall|j: int| 0 <= j < r ==> !lane_free(#[trigger] ends[j], x),
    decreases k,
{
    if exists|j: int| 0 <= j < k && lane_free(#[trigger] ends[j], x) {
        let j = choose|j: int| 0 <= j < k && lane_free(#[trigger] ends[j], x);
        lemma_first_free(ends, x, j)
    } else {
        k
    }
}

proof fn lemma_least_end(ends: Seq<Option<i128>>, x: int, k: int) -> (r: int)
    requires
        0 <= k < ends.len(),
        forall|j: int| 0 <= j < ends.len() ==> !lane_free(#[trigger] ends[j], x),
    ensures
        0 <= r <= k,
        forall|j: int| 0 <= j <= k ==> ends[r].unwrap() <= (#[trigger] ends[j]).unwrap(),
        forall|j: int| 0 <= j < r ==> ends[r].unwrap() < (#[trigger] ends[j]).unwrap(),
    decreases k,
{
    assert(!lane_free(ends[k], x));
    if k == 0 {
        0
    } else {
        let r = lemma_least_end(ends, x, k - 1);
        if ends[k].unwrap() < ends[r].unwrap() {
            k
        } else {
            r
        }
    }
}

/// On a non-empty table the policy always gives a row.
pub proof fn lemma_lane_choice_exists(ends: Seq<Option<i128>>, x: int)
    requires
        ends.len() > 0,
    ensures
        lane_choice(ends, x, pick_lane(ends, x)),
{
    if some_lane_free(ends, x) {
        let j = choose|j: int| 0 <= j < ends.len() && lane_free(#[trigger] ends[j], x);
        let r = lemma_first_free(ends, x, j);
        lemma_pick_lane(ends, x, r);
    } else {
        let r = lemma_least_end(ends, x, ends.len() - 1);
        lemma_pick_lane(ends, x, r);
    }
}

/// Picks a row for a comment whose left edge is at `x`, following the
/// occupancy table `ends` (one entry per row).
pub fn choose_lane(ends: &Vec<Option<i128>>, x: i128) -> (r: usize)
    requires
        ends.len() > 0,
    ensures
        lane_choice(ends@, x as int, r as int),
        r as int == pick_lane(ends@, x as int),
{
    let n = ends.len();
    let mut i: usize = 0;
    while i < n
        invariant
            n == ends.len(),
            i <= n,
            forall|j: int| 0 <= j < i ==> !lane_free(#[trigger] ends@[j], x as int),
        decreases n - i,
    {
        let free = match ends[i] {
            None => true,
            Some(e) => e < x,
        };
        if free {
            proof {
                lemma_pick_lane(ends@, x as int, i as int);
            }
            return i;
        }
        i = i + 1;
    }
    // Every row is occupied past `x`: take the least occupied one.
    let mut best: usize = 0;
    let mut best_end: i128 = match ends[0] {
        Some(e) => e,
        None => x,
    };
    let mut k: usize = 1;
    while k < n
        invariant
            n == ends.len(),
            1 <= k <= n,
            best < k,
            forall|j: int| 0 <= j < n ==> !lane_free(#[trigger] ends@[j], x as int),
            ends@[best as int] == Some(best_end),
            forall|j: int| 0 <= j < k ==> best_end <= (#[trigger] ends@[j]).unwrap(),
            forall|j: int| 0 <= j < best ==> best_end < (#[trigger] ends@[j]).unwrap(),
        decreases n - k,
    {
        assert(!lane_free(ends@[k as int], x as int));
        let e = match ends[k] {
            Some(e) => e,
            None => best_end,
        };
        if e < best_end {
            best = k;
            best_end = e;
        }
        k = k + 1;
    }
    proof {
        assert(!some_lane_free(ends@, x as int));
        lemma_pick_lane(ends@, x as int, best as int);
    }
    best
}

} // verus!
