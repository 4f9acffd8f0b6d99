//! The mathematical model of the group store: a fixed sequence of nine
//! member sequences, the operations that mutate it, and the laws they obey —
//! the uniqueness invariant, the membership round trips and reconciliation
//! idempotence.

use vstd::prelude::*;

use crate::model::PaneId;

verus! {

/// How many groups exist; group numbers run from 1 to this bound.
pub const MAX_GROUPS: u8 = 9;

/// The predicate "is not `p`", as a named function value, so that every
/// mention of it is one and the same term.
pub open spec fn not_eq(p: PaneId) -> spec_fn(PaneId) -> bool {
    |x: PaneId| x != p
}

/// The predicate "is in `live`", as a named function value.
pub open spec fn in_set(live: Set<PaneId>) -> spec_fn(PaneId) -> bool {
    |x: PaneId| live.contains(x)
}

/// The member sequence of `s` with every occurrence of `p` removed.
pub open spec fn seq_remove(s: Seq<PaneId>, p: PaneId) -> Seq<PaneId> {
    s.filter(not_eq(p))
}

/// The member sequence of `s` restricted to identifiers in `live`,
/// preserving relative order.
pub open spec fn seq_retain(s: Seq<PaneId>, live: Set<PaneId>) -> Seq<PaneId> {
    s.filter(in_set(live))
}

/// The member sequences of a vector of groups, as a sequence of sequences.
pub open spec fn gview(groups: Seq<Vec<PaneId>>) -> Seq<Seq<PaneId>> {
    Seq::new(groups.len(), |i: int| groups[i]@)
}

/// Every group with `p` removed.
pub open spec fn groups_remove(gs: Seq<Seq<PaneId>>, p: PaneId) -> Seq<Seq<PaneId>> {
    Seq::new(gs.len(), |i: int| seq_remove(gs[i], p))
}

/// Every group restricted to the live identifiers.
pub open spec fn groups_retain(gs: Seq<Seq<PaneId>>, live: Set<PaneId>) -> Seq<Seq<PaneId>> {
    Seq::new(gs.len(), |i: int| seq_retain(gs[i], live))
}

/// `p` removed from every group, then appended to group `g` (numbered from 1).
pub open spec fn groups_add(gs: Seq<Seq<PaneId>>, p: PaneId, g: int) -> Seq<Seq<PaneId>> {
    let removed = groups_remove(gs, p);
    removed.update(g - 1, removed[g - 1].push(p))
}

/// Group `g` (numbered from 1) exists and has at least one member.
pub open spec fn group_has_members(gs: Seq<Seq<PaneId>>, g: int) -> bool {
    1 <= g <= gs.len() && gs[g - 1].len() > 0
}

/// No member sequence holds the same identifier twice.
pub open spec fn seq_no_dups(s: Seq<PaneId>) -> bool {
    forall|i: int, j: int| 0 <= i < j < s.len() ==> s[i] != s[j]
}

/// No identifier belongs to two different groups.
pub open spec fn groups_disjoint(gs: Seq<Seq<PaneId>>) -> bool {
    forall|g1: int, g2: int, p: PaneId|
        0 <= g1 < gs.len() && 0 <= g2 < gs.len() && g1 != g2 && #[trigger] gs[g1].contains(p)
            ==> !(#[trigger] gs[g2].contains(p))
}

/// The uniqueness invariant: an identifier appears in at most one group's
/// member sequence, and at most once there.
pub open spec fn groups_unique(gs: Seq<Seq<PaneId>>) -> bool {
    (forall|g: int| 0 <= g < gs.len() ==> seq_no_dups(#[trigger] gs[g])) && groups_disjoint(gs)
}

/// The active-group pointer, if set, names a group that has members.
pub open spec fn active_ok(gs: Seq<Seq<PaneId>>, active: Option<u8>) -> bool {
    active matches Some(g) ==> group_has_members(gs, g as int)
}

/// The active pointer after reconciling with `live`: kept if its group still
/// has members afterwards, cleared otherwise.
pub open spec fn reconcile_active(
    gs: Seq<Seq<PaneId>>,
    active: Option<u8>,
    live: Set<PaneId>,
) -> Option<u8> {
    match active {
        None => None,
        Some(g) => if group_has_members(groups_retain(gs, live), g as int) {
            Some(g)
        } else {
            None
        },
    }
}

/// An element of a filtered sequence is an element of the sequence it
/// was filtered from.
proof fn lemma_filter_subset(s: Seq<PaneId>, pred: spec_fn(PaneId) -> bool, x: PaneId)
    requires
        s.filter(pred).contains(x),
    ensures
        s.contains(x),
    decreases s.len(),
{
    reveal(Seq::filter);
    let out = s.filter(pred);
    let j = choose|j: int| 0 <= j < out.len() && out[j] == x;
    if pred(s.last()) && j == out.len() - 1 {
        assert(s[s.len() - 1] == x);
    } else {
        assert(s.drop_last().filter(pred)[j] == x);
        assert(s.drop_last().filter(pred).contains(x));
        lemma_filter_subset(s.drop_last(), pred, x);
        let i = choose|i: int| 0 <= i < s.drop_last().len() && s.drop_last()[i] == x;
        assert(s[i] == x);
    }
}

/// An element of a filtered sequence is an element of the unfiltered one
/// that satisfies the predicate, and conversely.
proof fn lemma_filter_mem(s: Seq<PaneId>, pred: spec_fn(PaneId) -> bool)
    ensures
        forall|x: PaneId| #[trigger]
            s.filter(pred).contains(x) <==> s.contains(x) && pred(x),
{
    assert forall|x: PaneId| s.contains(x) && pred(x) implies #[trigger] s.filter(pred).contains(
        x,
    ) by {
        let i = choose|i: int| 0 <= i < s.len() && s[i] == x;
        s.lemma_filter_contains(pred, i);
    }
    assert forall|x: PaneId| #[trigger] s.filter(pred).contains(x) implies s.contains(x) && pred(
        x,
    ) by {
        lemma_filter_subset(s, pred, x);
        let j = choose|j: int| 0 <= j < s.filter(pred).len() && s.filter(pred)[j] == x;
        s.lemma_filter_pred(pred, j);
    }
}

/// Filtering keeps a duplicate-free sequence duplicate-free.
proof fn lemma_filter_no_dups(s: Seq<PaneId>, pred: spec_fn(PaneId) -> bool)
    requires
        seq_no_dups(s),
    ensures
        seq_no_dups(s.filter(pred)),
    decreases s.len(),
{
    reveal(Seq::filter);
    if s.len() > 0 {
        assert(seq_no_dups(s.drop_last()));
        lemma_filter_no_dups(s.drop_last(), pred);
        if pred(s.last()) {
            lemma_filter_mem(s.drop_last(), pred);
            assert(!s.drop_last().contains(s.last()));
            let out = s.drop_last().filter(pred).push(s.last());
            assert forall|i: int, j: int| 0 <= i < j < out.len() implies out[i] != out[j] by {
                if j == out.len() - 1 {
                    assert(s.drop_last().filter(pred).contains(out[i]));
                }
            }
        }
    }
}

/// Filtering the same sequence twice with the same predicate is the same as
/// filtering it once.
proof fn lemma_filter_idempotent(s: Seq<PaneId>, pred: spec_fn(PaneId) -> bool)
    ensures
        s.filter(pred).filter(pred) == s.filter(pred),
    decreases s.len(),
{
    reveal(Seq::filter);
    if s.len() == 0 {
    } else {
        lemma_filter_idempotent(s.drop_last(), pred);
        if pred(s.last()) {
            let t = s.drop_last().filter(pred);
            assert(t.push(s.last()).drop_last() =~= t);
        }
    }
}

/// What removal does to membership: `p` is gone from every group, every
/// other identifier keeps its group, and uniqueness is preserved.
pub proof fn lemma_groups_remove(gs: Seq<Seq<PaneId>>, p: PaneId)
    ensures
        groups_remove(gs, p).len() == gs.len(),
        forall|g: int|
            0 <= g < gs.len() ==> !(#[trigger] groups_remove(gs, p)[g].contains(p)),
        forall|g: int, q: PaneId|
            0 <= g < gs.len() && q != p ==> (#[trigger] groups_remove(gs, p)[g].contains(q)
                <==> gs[g].contains(q)),
        groups_unique(gs) ==> groups_unique(groups_remove(gs, p)),
{
    let out = groups_remove(gs, p);
    assert forall|g: int| 0 <= g < gs.len() implies !(#[trigger] out[g].contains(p)) by {
        lemma_filter_mem(gs[g], not_eq(p));
    }
    assert forall|g: int, q: PaneId| 0 <= g < gs.len() && q != p implies (
    #[trigger] out[g].contains(q) <==> gs[g].contains(q)) by {
        lemma_filter_mem(gs[g], not_eq(p));
    }
    if groups_unique(gs) {
        assert forall|g: int| 0 <= g < out.len() implies seq_no_dups(#[trigger] out[g]) by {
            lemma_filter_no_dups(gs[g], not_eq(p));
        }
        assert forall|g1: int, g2: int, q: PaneId|
            0 <= g1 < out.len() && 0 <= g2 < out.len() && g1 != g2 && #[trigger] out[g1].contains(
                q,
            ) implies !(#[trigger] out[g2].contains(q)) by {
            lemma_filter_mem(gs[g1], not_eq(p));
            lemma_filter_mem(gs[g2], not_eq(p));
        }
    }
}

/// What reconciliation does to membership: only live identifiers survive,
/// live members stay where they were, and uniqueness is preserved.
pub proof fn lemma_groups_retain(gs: Seq<Seq<PaneId>>, live: Set<PaneId>)
    ensures
        groups_retain(gs, live).len() == gs.len(),
        forall|g: int, q: PaneId|
            0 <= g < gs.len() ==> (#[trigger] groups_retain(gs, live)[g].contains(q)
                <==> gs[g].contains(q) && live.contains(q)),
        groups_unique(gs) ==> groups_unique(groups_retain(gs, live)),
{
    let out = groups_retain(gs, live);
    assert forall|g: int, q: PaneId| 0 <= g < gs.len() implies (#[trigger] out[g].contains(q)
        <==> gs[g].contains(q) && live.contains(q)) by {
        lemma_filter_mem(gs[g], in_set(live));
    }
    if groups_unique(gs) {
        assert forall|g: int| 0 <= g < out.len() implies seq_no_dups(#[trigger] out[g]) by {
            lemma_filter_no_dups(gs[g], in_set(live));
        }
        assert forall|g1: int, g2: int, q: PaneId|
            0 <= g1 < out.len() && 0 <= g2 < out.len() && g1 != g2 && #[trigger] out[g1].contains(
                q,
            ) implies !(#[trigger] out[g2].contains(q)) by {
            lemma_filter_mem(gs[g1], in_set(live));
            lemma_filter_mem(gs[g2], in_set(live));
        }
    }
}

/// The uniqueness invariant holds after any `addToGroup`: afterwards `p`
/// belongs to group `g` exactly once and to no other group, every other
/// identifier keeps its group, and uniqueness is preserved.
pub proof fn lemma_groups_add(gs: Seq<Seq<PaneId>>, p: PaneId, g: int)
    requires
        1 <= g <= gs.len(),
    ensures
        groups_add(gs, p, g).len() == gs.len(),
        groups_add(gs, p, g)[g - 1].contains(p),
        forall|h: int|
            0 <= h < gs.len() && h != g - 1 ==> !(#[trigger] groups_add(gs, p, g)[h].contains(p)),
        forall|h: int, q: PaneId|
            0 <= h < gs.len() && q != p ==> (#[trigger] groups_add(gs, p, g)[h].contains(q)
                <==> gs[h].contains(q)),
        groups_unique(gs) ==> groups_unique(groups_add(gs, p, g)),
{
    lemma_groups_remove(gs, p);
    let removed = groups_remove(gs, p);
    let out = groups_add(gs, p, g);
    assert(out[g - 1] == removed[g - 1].push(p));
    assert(out[g - 1].last() == p);
    assert forall|h: int, q: PaneId| 0 <= h < gs.len() && q != p implies (
    #[trigger] out[h].contains(q) <==> gs[h].contains(q)) by {
        if h == g - 1 {
            assert forall|q2: PaneId| q2 != p implies (out[h].contains(q2) <==> removed[h].contains(
                q2,
            )) by {
                if removed[h].contains(q2) {
                    let i = choose|i: int| 0 <= i < removed[h].len() && removed[h][i] == q2;
                    assert(out[h][i] == q2);
                }
                if out[h].contains(q2) {
                    let i = choose|i: int| 0 <= i < out[h].len() && out[h][i] == q2;
                    assert(i < removed[h].len());
                    assert(removed[h][i] == q2);
                }
            }
        }
    }
    if groups_unique(gs) {
        assert forall|h: int| 0 <= h < out.len() implies seq_no_dups(#[trigger] out[h]) by {
            if h == g - 1 {
                assert(seq_no_dups(removed[h]));
                assert(!removed[h].contains(p));
                assert forall|i: int, j: int| 0 <= i < j < out[h].len() implies out[h][i]
                    != out[h][j] by {
                    if j == out[h].len() - 1 {
                        assert(removed[h][i] == out[h][i]);
                        assert(removed[h].contains(out[h][i]));
                    }
                }
            }
        }
        assert forall|g1: int, g2: int, q: PaneId|
            0 <= g1 < out.len() && 0 <= g2 < out.len() && g1 != g2 && #[trigger] out[g1].contains(
                q,
            ) implies !(#[trigger] out[g2].contains(q)) by {
            if q == p {
                assert(g1 == g - 1);
            } else {
                assert(gs[g1].contains(q));
                assert(!gs[g2].contains(q));
            }
        }
    }
}

/// Reconciliation idempotence: reconciling twice with the same live set
/// produces the same group store — and the same active pointer — as
/// reconciling once.
pub proof fn lemma_reconcile_idempotent(
    gs: Seq<Seq<PaneId>>,
    active: Option<u8>,
    live: Set<PaneId>,
)
    ensures
        groups_retain(groups_retain(gs, live), live) == groups_retain(gs, live),
        reconcile_active(
            groups_retain(gs, live),
            reconcile_active(gs, active, live),
            live,
        ) == reconcile_active(gs, active, live),
{
    let once = groups_retain(gs, live);
    let twice = groups_retain(once, live);
    assert forall|i: int| 0 <= i < gs.len() implies twice[i] == once[i] by {
        lemma_filter_idempotent(gs[i], in_set(live));
    }
    assert(twice =~= once);
}

/// Active validity: whatever the active pointer was before, after
/// reconciliation it only ever names a group that still has members.
pub proof fn lemma_reconcile_active_valid(
    gs: Seq<Seq<PaneId>>,
    active: Option<u8>,
    live: Set<PaneId>,
)
    ensures
        active_ok(groups_retain(gs, live), reconcile_active(gs, active, live)),
{
}

} // verus!
