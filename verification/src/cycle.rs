//! Cycling through the non-empty groups: the ascending sequence of group
//! numbers with members, the choice of the next or previous one with
//! wraparound, and the law that one step forward and one step back return to
//! the starting group.

use vstd::prelude::*;

use crate::groups::group_has_members;
use crate::model::PaneId;

verus! {

/// The ascending sequence of group numbers in `[1, g]` whose member
/// sequence is non-empty.
pub open spec fn non_empty_upto(gs: Seq<Seq<PaneId>>, g: int) -> Seq<u8>
    decreases g,
{
    if g <= 0 {
        Seq::empty()
    } else if gs[g - 1].len() > 0 {
        non_empty_upto(gs, g - 1).push(g as u8)
    } else {
        non_empty_upto(gs, g - 1)
    }
}

/// The ascending sequence of all group numbers whose member sequence is
/// non-empty.
pub open spec fn non_empty_seq(gs: Seq<Seq<PaneId>>) -> Seq<u8> {
    non_empty_upto(gs, gs.len() as int)
}

/// Every element is strictly smaller than the next.
pub open spec fn strictly_sorted(s: Seq<u8>) -> bool {
    forall|i: int, j: int| 0 <= i < j < s.len() ==> s[i] < s[j]
}

/// The first element after index `i` (inclusive) strictly above `c`.
pub open spec fn first_above(ne: Seq<u8>, c: int, i: int) -> Option<u8>
    decreases ne.len() - i,
{
    if i < 0 || i >= ne.len() {
        None
    } else if ne[i] > c {
        Some(ne[i])
    } else {
        first_above(ne, c, i + 1)
    }
}

/// The last element up to index `i` (inclusive) strictly below `c`.
pub open spec fn last_below(ne: Seq<u8>, c: int, i: int) -> Option<u8>
    decreases i + 1,
{
    if i < 0 || i >= ne.len() {
        None
    } else if ne[i] < c {
        Some(ne[i])
    } else {
        last_below(ne, c, i - 1)
    }
}

/// The group that cycling lands on, given the non-empty group numbers `ne`
/// (ascending, non-empty) and the current number `c` (0 when no group is
/// active): forward, the first number above `c`, wrapping to the smallest;
/// backward, the last number below `c`, wrapping to the largest.
pub open spec fn cycle_choice(ne: Seq<u8>, c: int, forward: bool) -> u8
    recommends
        ne.len() > 0,
{
    if forward {
        match first_above(ne, c, 0) {
            Some(x) => x,
            None => ne[0],
        }
    } else {
        match last_below(ne, c, ne.len() - 1) {
            Some(x) => x,
            None => ne.last(),
        }
    }
}

/// The current number cycling starts from: the active group, or 0 — which
/// is below every real group number — when none is active.
pub open spec fn cycle_current(active: Option<u8>) -> int {
    match active {
        None => 0,
        Some(g) => g as int,
    }
}

/// The active pointer after one cycling step: unchanged when no group has
/// members, otherwise the chosen group.
pub open spec fn cycle_spec(gs: Seq<Seq<PaneId>>, active: Option<u8>, forward: bool) -> Option<
    u8,
> {
    let ne = non_empty_seq(gs);
    if ne.len() == 0 {
        active
    } else {
        Some(cycle_choice(ne, cycle_current(active), forward))
    }
}

/// What `non_empty_upto` holds: exactly the group numbers in `[1, g]` with
/// members, in strictly ascending order.
proof fn lemma_non_empty_upto(gs: Seq<Seq<PaneId>>, g: int)
    requires
        0 <= g <= gs.len() <= 255,
    ensures
        strictly_sorted(non_empty_upto(gs, g)),
        forall|i: int|
            0 <= i < non_empty_upto(gs, g).len() ==> 1 <= #[trigger] non_empty_upto(gs, g)[i] <= g
                && group_has_members(gs, non_empty_upto(gs, g)[i] as int),
        forall|k: int|
            1 <= k <= g && gs[k - 1].len() > 0 ==> #[trigger] non_empty_upto(gs, g).contains(
                k as u8,
            ),
    decreases g,
{
    if g > 0 {
        lemma_non_empty_upto(gs, g - 1);
        let prev = non_empty_upto(gs, g - 1);
        let cur = non_empty_upto(gs, g);
        if gs[g - 1].len() > 0 {
            assert(cur == prev.push(g as u8));
            assert forall|i: int| 0 <= i < cur.len() implies 1 <= #[trigger] cur[i] <= g
                && group_has_members(gs, cur[i] as int) by {
                if i < cur.len() - 1 {
                    assert(cur[i] == prev[i]);
                } else {
                    assert(cur[i] == g as u8);
                }
            }
            assert forall|i: int, j: int| 0 <= i < j < cur.len() implies cur[i] < cur[j] by {
                if j == cur.len() - 1 {
                    assert(cur[i] == prev[i]);
                    assert(prev[i] <= g - 1);
                } else {
                    assert(cur[i] == prev[i]);
                    assert(cur[j] == prev[j]);
                }
            }
        } else {
            assert(cur == prev);
        }
        assert forall|k: int| 1 <= k <= g && gs[k - 1].len() > 0 implies #[trigger] cur.contains(
            k as u8,
        ) by {
            if k < g {
                assert(prev.contains(k as u8));
                let i = choose|i: int| 0 <= i < prev.len() && prev[i] == k as u8;
                assert(cur[i] == k as u8);
            } else {
                assert(cur.last() == g as u8);
            }
        }
    }
}

/// What the non-empty sequence holds, for the whole store.
pub proof fn lemma_non_empty_seq(gs: Seq<Seq<PaneId>>)
    requires
        gs.len() <= 255,
    ensures
        strictly_sorted(non_empty_seq(gs)),
        forall|i: int|
            0 <= i < non_empty_seq(gs).len() ==> group_has_members(
                gs,
                #[trigger] non_empty_seq(gs)[i] as int,
            ),
        forall|k: int|
            #[trigger] group_has_members(gs, k) ==> non_empty_seq(gs).contains(k as u8),
{
    lemma_non_empty_upto(gs, gs.len() as int);
}

/// What a `Some` answer of `first_above` means: the element at the first
/// index from `i` on that is above `c`; everything before it is at most `c`.
proof fn lemma_first_above(ne: Seq<u8>, c: int, i: int)
    requires
        0 <= i,
    ensures
        match first_above(ne, c, i) {
            Some(f) => exists|j: int|
                i <= j < ne.len() && #[trigger] ne[j] == f && f > c && (forall|k: int|
                    i <= k < j ==> #[trigger] ne[k] <= c),
            None => forall|k: int| i <= k < ne.len() ==> #[trigger] ne[k] <= c,
        },
    decreases ne.len() - i,
{
    if i < ne.len() && ne[i] <= c {
        lemma_first_above(ne, c, i + 1);
        if let Some(f) = first_above(ne, c, i + 1) {
            let j = choose|j: int|
                i + 1 <= j < ne.len() && #[trigger] ne[j] == f && f > c && (forall|k: int|
                    i + 1 <= k < j ==> #[trigger] ne[k] <= c);
            assert(i <= j < ne.len() && ne[j] == f && f > c && (forall|k: int|
                i <= k < j ==> ne[k] <= c));
        }
    }
}

/// What a `Some` answer of `last_below` means: the element at the last
/// index up to `i` that is below `c`; everything after it is at least `c`.
proof fn lemma_last_below(ne: Seq<u8>, c: int, i: int)
    requires
        i < ne.len(),
    ensures
        match last_below(ne, c, i) {
            Some(m) => exists|j: int|
                0 <= j <= i && #[trigger] ne[j] == m && m < c && (forall|k: int|
                    j < k <= i ==> #[trigger] ne[k] >= c),
            None => forall|k: int| 0 <= k <= i ==> #[trigger] ne[k] >= c,
        },
    decreases i + 1,
{
    if 0 <= i && ne[i] >= c {
        lemma_last_below(ne, c, i - 1);
        if let Some(m) = last_below(ne, c, i - 1) {
            let j = choose|j: int|
                0 <= j <= i - 1 && #[trigger] ne[j] == m && m < c && (forall|k: int|
                    j < k <= i - 1 ==> #[trigger] ne[k] >= c);
            assert(0 <= j <= i && ne[j] == m && m < c && (forall|k: int|
                j < k <= i ==> ne[k] >= c));
        }
    }
}

/// Cycle totality and round trip: if group `g` has members and is the
/// current active group, cycling forward and then backward activates `g`
/// again, whatever the other non-empty groups are.
pub proof fn lemma_cycle_round_trip(gs: Seq<Seq<PaneId>>, g: u8)
    requires
        gs.len() <= 255,
        group_has_members(gs, g as int),
    ensures
        cycle_spec(gs, cycle_spec(gs, Some(g), true), false) == Some(g),
{
    lemma_non_empty_seq(gs);
    let ne = non_empty_seq(gs);
    assert(ne.contains(g));
    let jg = choose|jg: int| 0 <= jg < ne.len() && ne[jg] == g;
    let f = cycle_choice(ne, g as int, true);
    assert(cycle_spec(gs, Some(g), true) == Some(f));
    lemma_first_above(ne, g as int, 0);
    lemma_last_below(ne, f as int, ne.len() - 1);
    match first_above(ne, g as int, 0) {
        Some(f0) => {
            assert(f == f0);
            let j = choose|j: int|
                0 <= j < ne.len() && #[trigger] ne[j] == f && f > g && (forall|k: int|
                    0 <= k < j ==> #[trigger] ne[k] <= g);
            // g itself sits strictly before the first element above g.
            assert(jg < j);
            match last_below(ne, f as int, ne.len() - 1) {
                Some(m) => {
                    let jm = choose|jm: int|
                        0 <= jm < ne.len() && #[trigger] ne[jm] == m && m < f && (forall|k: int|
                            jm < k < ne.len() ==> #[trigger] ne[k] >= f);
                    // jm lies before j, so m <= g; and g is not after jm, so g <= m.
                    assert(jm < j);
                    assert(m <= g);
                    assert(jg <= jm);
                    assert(g <= m);
                    assert(m == g);
                },
                None => {
                    // Impossible: ne[jg] == g < f.
                    assert(ne[jg] >= f);
                    assert(false);
                },
            }
        },
        None => {
            // Nothing above g: g is the largest, so forward wraps to the
            // smallest and backward from it wraps back to the largest, g.
            assert(f == ne[0]);
            match last_below(ne, f as int, ne.len() - 1) {
                Some(m) => {
                    let jm = choose|jm: int|
                        0 <= jm < ne.len() && #[trigger] ne[jm] == m && m < f && (forall|k: int|
                            jm < k < ne.len() ==> #[trigger] ne[k] >= f);
                    // Impossible: ne[0] is the minimum of a sorted sequence.
                    assert(m >= ne[0]);
                    assert(false);
                },
                None => {
                    // Backward wraps to the last element, which is g.
                    assert(ne[jg] <= g);
                    assert(ne.last() <= g);
                    assert(ne[jg] <= ne.last());
                    assert(ne.last() == g);
                    assert(cycle_choice(ne, f as int, false) == ne.last());
                },
            }
        },
    }
}

} // verus!
