//! The plugin state and its core operations: focus tracking, reconciliation
//! against the latest manifest, and group membership edits.

use vstd::prelude::*;

use crate::groups::{
    active_ok, groups_add, groups_remove, groups_retain, groups_unique, gview,
    lemma_groups_add, lemma_groups_remove, lemma_groups_retain, reconcile_active, seq_remove,
    seq_retain, in_set, not_eq, MAX_GROUPS,
};
use crate::cycle::{
    cycle_choice, cycle_current, cycle_spec, first_above, last_below, lemma_non_empty_seq,
    non_empty_seq, non_empty_upto,
};
use crate::model::{
    manifest_live, pane_id_from, spec_active_tab_position, spec_focused_pane, spec_pane_id,
    active_tab_from, focused_terminal_from, panes_for_tab_from, HostCommand, Mode, PaneId,
    PaneManifest, TabInfo,
};
use crate::plan::{
    activation_plan, can_activate, hide_others, hide_others_upto, hides_of, show_all_plan,
    show_all_upto, shows_of,
};

verus! {

broadcast use vstd::seq_lib::lemma_seq_contains_after_push;

/// The whole in-memory state of the pane-grouping manager.
pub struct State {
    /// Group membership: `groups[g - 1]` is group `g`'s member sequence, in
    /// insertion order. Always exactly nine groups.
    pub groups: Vec<Vec<PaneId>>,
    /// The single activated (visible-and-stacked) group, if any.
    pub active_group: Option<u8>,
    /// The most recently received pane manifest.
    pub pane_manifest: Option<PaneManifest>,
    /// The most recently received tab list.
    pub tab_info: Vec<TabInfo>,
    /// Whether the host granted the startup permission request.
    pub permissions_granted: bool,
    /// The UI selection cursor, a group number in `[1, 9]`.
    pub selected: u8,
    /// The ephemeral interaction mode.
    pub mode: Mode,
    /// The last focused, non-UI pane ever observed — the implicit operand of
    /// add/remove. Sticky: never cleared by absence.
    pub last_focused_pane: Option<PaneId>,
    /// The tab the last focused pane lived in.
    pub last_focused_tab: Option<usize>,
}

impl State {
    /// The member sequences of the nine groups.
    pub open spec fn gs(self) -> Seq<Seq<PaneId>> {
        gview(self.groups@)
    }

    /// Well-formedness: nine groups, the uniqueness invariant, and a
    /// selection cursor inside `[1, 9]`.
    pub open spec fn wf(self) -> bool {
        &&& self.groups@.len() == MAX_GROUPS
        &&& groups_unique(self.gs())
        &&& 1 <= self.selected <= MAX_GROUPS
    }
}

/// The fields that group-membership edits never touch are the same in `pre`
/// and `post`.
pub open spec fn same_but_store(pre: State, post: State) -> bool {
    &&& post.pane_manifest == pre.pane_manifest
    &&& post.tab_info == pre.tab_info
    &&& post.permissions_granted == pre.permissions_granted
    &&& post.selected == pre.selected
    &&& post.mode == pre.mode
    &&& post.last_focused_pane == pre.last_focused_pane
    &&& post.last_focused_tab == pre.last_focused_tab
}

/// As `same_but_store`, and the group membership is the same too: only the
/// active pointer may differ.
pub open spec fn same_but_active(pre: State, post: State) -> bool {
    &&& same_but_store(pre, post)
    &&& post.groups == pre.groups
}

/// How a state looks after refreshing the focus tracker: if a focused,
/// non-UI pane exists in the active tab, it and its tab are recorded;
/// otherwise nothing changes (sticky last-known value).
pub open spec fn focus_refreshed(s: State) -> State {
    match spec_focused_pane(s.pane_manifest, s.tab_info@) {
        Some(id) => State {
            last_focused_pane: Some(id),
            last_focused_tab: spec_active_tab_position(s.tab_info@),
            ..s
        },
        None => s,
    }
}

/// How reconciliation transforms a state: every group keeps exactly its
/// members that are live in the manifest, the active pointer is cleared if
/// its group became empty, and nothing else changes. Without a manifest
/// nothing changes at all.
pub open spec fn reconciled(pre: State, post: State) -> bool {
    match pre.pane_manifest {
        None => post == pre,
        Some(m) => {
            &&& gview(post.groups@) == groups_retain(gview(pre.groups@), manifest_live(m))
            &&& post.active_group == reconcile_active(
                gview(pre.groups@),
                pre.active_group,
                manifest_live(m),
            )
            &&& same_but_store(pre, post)
        },
    }
}

/// True iff `v` holds `p`.
fn vec_contains(v: &Vec<PaneId>, p: PaneId) -> (r: bool)
    ensures
        r == v@.contains(p),
{
    let mut i: usize = 0;
    while i < v.len()
        invariant
            0 <= i <= v@.len(),
            forall|k: int| 0 <= k < i ==> v@[k] != p,
        decreases v@.len() - i,
    {
        if v[i] == p {
            assert(v@.contains(p));
            return true;
        }
        i += 1;
    }
    assert(!v@.contains(p));
    false
}

/// A copy of a member vector.
fn copy_panes(v: &Vec<PaneId>) -> (r: Vec<PaneId>)
    ensures
        r@ == v@,
{
    let mut r: Vec<PaneId> = Vec::new();
    let mut i: usize = 0;
    while i < v.len()
        invariant
            0 <= i <= v@.len(),
            r@ == v@.subrange(0, i as int),
        decreases v@.len() - i,
    {
        r.push(v[i]);
        proof {
            assert(v@.subrange(0, i + 1 as int) =~= v@.subrange(0, i as int).push(v@[i as int]));
        }
        i += 1;
    }
    proof {
        assert(v@.subrange(0, v@.len() as int) =~= v@);
    }
    r
}

/// The members of `v` other than `p`, in order.
fn vec_remove(v: &Vec<PaneId>, p: PaneId) -> (r: Vec<PaneId>)
    ensures
        r@ == seq_remove(v@, p),
{
    let mut r: Vec<PaneId> = Vec::new();
    let mut i: usize = 0;
    while i < v.len()
        invariant
            0 <= i <= v@.len(),
            r@ == seq_remove(v@.subrange(0, i as int), p),
        decreases v@.len() - i,
    {
        proof {
            assert(v@.subrange(0, i + 1 as int) =~= v@.subrange(0, i as int).push(v@[i as int]));
            v@.subrange(0, i as int).lemma_filter_push(v@[i as int], not_eq(p));
            assert(not_eq(p)(v@[i as int]) == (v@[i as int] != p));
        }
        if !(v[i] == p) {
            r.push(v[i]);
        }
        i += 1;
    }
    proof {
        assert(v@.subrange(0, v@.len() as int) =~= v@);
    }
    r
}

/// The members of `v` that are in the live set, in order. The vector `ids`
/// is the executable face of the ghost set `live`.
fn vec_retain(v: &Vec<PaneId>, ids: &Vec<PaneId>, live: Ghost<Set<PaneId>>) -> (r: Vec<PaneId>)
    requires
        forall|p: PaneId| #[trigger] ids@.contains(p) <==> live@.contains(p),
    ensures
        r@ == seq_retain(v@, live@),
{
    let mut r: Vec<PaneId> = Vec::new();
    let mut i: usize = 0;
    while i < v.len()
        invariant
            0 <= i <= v@.len(),
            r@ == seq_retain(v@.subrange(0, i as int), live@),
            forall|p: PaneId| #[trigger] ids@.contains(p) <==> live@.contains(p),
        decreases v@.len() - i,
    {
        proof {
            assert(v@.subrange(0, i + 1 as int) =~= v@.subrange(0, i as int).push(v@[i as int]));
            v@.subrange(0, i as int).lemma_filter_push(v@[i as int], in_set(live@));
            assert(in_set(live@)(v@[i as int]) == live@.contains(v@[i as int]));
        }
        if vec_contains(ids, v[i]) {
            r.push(v[i]);
        }
        i += 1;
    }
    proof {
        assert(v@.subrange(0, v@.len() as int) =~= v@);
    }
    r
}

/// The identifiers of all panes anywhere in the manifest, with every live
/// identifier present.
fn collect_live(m: &PaneManifest) -> (ids: Vec<PaneId>)
    ensures
        forall|p: PaneId| #[trigger] ids@.contains(p) <==> manifest_live(*m).contains(p),
{
    let mut ids: Vec<PaneId> = Vec::new();
    let mut t: usize = 0;
    while t < m.panes.len()
        invariant
            0 <= t <= m.panes@.len(),
            forall|k: int| 0 <= k < ids@.len() ==> manifest_live(*m).contains(#[trigger] ids@[k]),
            forall|t2: int, i2: int|
                0 <= t2 < t && 0 <= i2 < m.panes@[t2].panes@.len() ==> ids@.contains(
                    spec_pane_id(#[trigger] m.panes@[t2].panes@[i2]),
                ),
        decreases m.panes@.len() - t,
    {
        let panes = &m.panes[t].panes;
        let mut i: usize = 0;
        while i < panes.len()
            invariant
                0 <= i <= panes@.len(),
                0 <= t < m.panes@.len(),
                panes@ == m.panes@[t as int].panes@,
                forall|k: int|
                    0 <= k < ids@.len() ==> manifest_live(*m).contains(#[trigger] ids@[k]),
                forall|t2: int, i2: int|
                    0 <= t2 < t && 0 <= i2 < m.panes@[t2].panes@.len() ==> ids@.contains(
                        spec_pane_id(#[trigger] m.panes@[t2].panes@[i2]),
                    ),
                forall|i2: int|
                    0 <= i2 < i ==> ids@.contains(
                        spec_pane_id(#[trigger] m.panes@[t as int].panes@[i2]),
                    ),
            decreases panes@.len() - i,
        {
            let id = pane_id_from(&panes[i]);
            proof {
                assert(spec_pane_id(m.panes@[t as int].panes@[i as int]) == id);
                assert(manifest_live(*m).contains(id));
            }
            ids.push(id);
            i += 1;
        }
        t += 1;
    }
    proof {
        assert forall|p: PaneId| #[trigger] ids@.contains(p) implies manifest_live(*m).contains(
            p,
        ) by {
            let k = choose|k: int| 0 <= k < ids@.len() && ids@[k] == p;
        }
        assert forall|p: PaneId| manifest_live(*m).contains(p) implies ids@.contains(p) by {
            let (t2, i2) = choose|t2: int, i2: int|
                0 <= t2 < m.panes@.len() && 0 <= i2 < m.panes@[t2].panes@.len() && spec_pane_id(
                    #[trigger] m.panes@[t2].panes@[i2],
                ) == p;
            assert(ids@.contains(spec_pane_id(m.panes@[t2].panes@[i2])));
        }
    }
    ids
}

impl State {
    /// The startup state: nine empty groups, nothing active, nothing
    /// observed yet, cursor on group 1, Normal mode.
    pub fn new() -> (s: State)
        ensures
            s.wf(),
            forall|g: int| 0 <= g < MAX_GROUPS ==> (#[trigger] s.gs()[g]).len() == 0,
            s.active_group is None,
            s.pane_manifest is None,
            s.tab_info@.len() == 0,
            !s.permissions_granted,
            s.selected == 1,
            s.mode == Mode::Normal,
            s.last_focused_pane is None,
            s.last_focused_tab is None,
    {
        let mut groups: Vec<Vec<PaneId>> = Vec::new();
        let mut g: usize = 0;
        while g < MAX_GROUPS as usize
            invariant
                0 <= g <= MAX_GROUPS,
                groups@.len() == g,
                forall|k: int| 0 <= k < g ==> (#[trigger] groups@[k])@.len() == 0,
            decreases MAX_GROUPS - g,
        {
            groups.push(Vec::new());
            g += 1;
        }
        State {
            groups,
            active_group: None,
            pane_manifest: None,
            tab_info: Vec::new(),
            permissions_granted: false,
            selected: 1,
            mode: Mode::Normal,
            last_focused_pane: None,
            last_focused_tab: None,
        }
    }

    /// The position of the tab currently marked active, if any.
    pub fn active_tab_position(&self) -> (r: Option<usize>)
        ensures
            r == spec_active_tab_position(self.tab_info@),
    {
        let mut i: usize = 0;
        while i < self.tab_info.len()
            invariant
                0 <= i <= self.tab_info@.len(),
                active_tab_from(self.tab_info@, 0) == active_tab_from(self.tab_info@, i as int),
            decreases self.tab_info@.len() - i,
        {
            if self.tab_info[i].active {
                return Some(self.tab_info[i].position);
            }
            i += 1;
        }
        None
    }

    /// The currently focused, non-UI pane, derived from the latest manifest
    /// and tab list.
    pub fn focused_terminal_pane(&self) -> (r: Option<PaneId>)
        ensures
            r == spec_focused_pane(self.pane_manifest, self.tab_info@),
    {
        let manifest = match &self.pane_manifest {
            Some(m) => m,
            None => {
                return None;
            },
        };
        let tab_pos = match self.active_tab_position() {
            Some(p) => p,
            None => {
                return None;
            },
        };
        let entries = &manifest.panes;
        let mut t: usize = 0;
        while t < entries.len()
            invariant
                0 <= t <= entries@.len(),
                self.pane_manifest is Some,
                entries@ == self.pane_manifest->Some_0.panes@,
                spec_active_tab_position(self.tab_info@) == Some(tab_pos),
                panes_for_tab_from(entries@, tab_pos, 0) == panes_for_tab_from(
                    entries@,
                    tab_pos,
                    t as int,
                ),
            decreases entries@.len() - t,
        {
            if entries[t].position == tab_pos {
                let panes = &entries[t].panes;
                proof {
                    assert(panes_for_tab_from(entries@, tab_pos, t as int) == Some(panes@));
                }
                let mut i: usize = 0;
                while i < panes.len()
                    invariant
                        0 <= i <= panes@.len(),
                        self.pane_manifest is Some,
                        entries@ == self.pane_manifest->Some_0.panes@,
                        spec_active_tab_position(self.tab_info@) == Some(tab_pos),
                        panes_for_tab_from(entries@, tab_pos, 0) == Some(panes@),
                        focused_terminal_from(panes@, 0) == focused_terminal_from(
                            panes@,
                            i as int,
                        ),
                    decreases panes@.len() - i,
                {
                    if panes[i].is_focused && !panes[i].is_plugin {
                        return Some(pane_id_from(&panes[i]));
                    }
                    i += 1;
                }
                return None;
            }
            t += 1;
        }
        None
    }

    /// Refreshes the focus tracker from the latest snapshots; keeps the
    /// prior value when no focused, non-UI pane is visible.
    pub fn update_last_focused(&mut self)
        ensures
            *final(self) == focus_refreshed(*old(self)),
    {
        if let Some(id) = self.focused_terminal_pane() {
            self.last_focused_pane = Some(id);
            self.last_focused_tab = self.active_tab_position();
        }
    }

    /// Removes `p` from every group's member sequence.
    fn remove_from_all(&mut self, p: PaneId)
        ensures
            gview(final(self).groups@) == groups_remove(gview(old(self).groups@), p),
            final(self).groups@.len() == old(self).groups@.len(),
            final(self).active_group == old(self).active_group,
            same_but_store(*old(self), *final(self)),
    {
        let mut new_groups: Vec<Vec<PaneId>> = Vec::new();
        let mut g: usize = 0;
        while g < self.groups.len()
            invariant
                0 <= g <= self.groups@.len(),
                new_groups@.len() == g,
                *self == *old(self),
                forall|k: int|
                    0 <= k < g ==> (#[trigger] new_groups@[k])@ == seq_remove(
                        old(self).groups@[k]@,
                        p,
                    ),
            decreases self.groups@.len() - g,
        {
            new_groups.push(vec_remove(&self.groups[g], p));
            g += 1;
        }
        self.groups = new_groups;
        proof {
            assert(gview(self.groups@) =~= groups_remove(gview(old(self).groups@), p));
        }
    }

    /// `addToGroup`: removes the last focused pane from every group, then
    /// appends it to group `group_num`. A no-op when no pane was ever
    /// focused.
    pub fn add_to_group(&mut self, group_num: u8)
        requires
            old(self).wf(),
            1 <= group_num <= MAX_GROUPS,
        ensures
            final(self).wf(),
            final(self).active_group == old(self).active_group,
            same_but_store(*old(self), *final(self)),
            match old(self).last_focused_pane {
                Some(p) => gview(final(self).groups@) == groups_add(
                    gview(old(self).groups@),
                    p,
                    group_num as int,
                ),
                None => *final(self) == *old(self),
            },
    {
        let pane_id = match self.last_focused_pane {
            Some(p) => p,
            None => {
                return ;
            },
        };
        let ghost pre = gview(self.groups@);
        self.remove_from_all(pane_id);
        let ghost mid = *self;
        let mut new_groups: Vec<Vec<PaneId>> = Vec::new();
        let mut g: usize = 0;
        let target = (group_num - 1) as usize;
        while g < self.groups.len()
            invariant
                0 <= g <= self.groups@.len(),
                new_groups@.len() == g,
                target == group_num - 1,
                *self == mid,
                forall|k: int|
                    0 <= k < g && k != target ==> (#[trigger] new_groups@[k])@
                        == self.groups@[k]@,
                forall|k: int|
                    0 <= k < g && k == target ==> (#[trigger] new_groups@[k])@
                        == self.groups@[k]@.push(pane_id),
            decreases self.groups@.len() - g,
        {
            let mut grp = copy_panes(&self.groups[g]);
            if g == target {
                grp.push(pane_id);
            }
            new_groups.push(grp);
            g += 1;
        }
        self.groups = new_groups;
        proof {
            assert(gview(self.groups@) =~= groups_add(pre, pane_id, group_num as int));
            lemma_groups_add(pre, pane_id, group_num as int);
        }
    }

    /// `removeFromGroup`: removes the last focused pane from every group's
    /// member sequence; a no-op when no pane was ever focused.
    pub fn remove_focused_from_group(&mut self)
        requires
            old(self).wf(),
        ensures
            final(self).wf(),
            final(self).active_group == old(self).active_group,
            same_but_store(*old(self), *final(self)),
            match old(self).last_focused_pane {
                Some(p) => gview(final(self).groups@) == groups_remove(
                    gview(old(self).groups@),
                    p,
                ),
                None => *final(self) == *old(self),
            },
    {
        let pane_id = match self.last_focused_pane {
            Some(p) => p,
            None => {
                return ;
            },
        };
        self.remove_from_all(pane_id);
        proof {
            lemma_groups_remove(gview(old(self).groups@), pane_id);
        }
    }

    /// Reconciliation: drops every group member not present in the latest
    /// manifest, in place and order-preserving, then clears the active
    /// pointer if its group became empty. Runs on every manifest update.
    pub fn validate_groups(&mut self)
        requires
            old(self).wf(),
        ensures
            final(self).wf(),
            reconciled(*old(self), *final(self)),
            old(self).pane_manifest is Some ==> active_ok(
                gview(final(self).groups@),
                final(self).active_group,
            ),
    {
        if self.pane_manifest.is_none() {
            return ;
        }
        let ghost m = self.pane_manifest->Some_0;
        let ghost live = manifest_live(m);
        let ids = match &self.pane_manifest {
            Some(mr) => collect_live(mr),
            None => {
                proof {
                    assert(false);
                }
                Vec::new()
            },
        };
        let mut new_groups: Vec<Vec<PaneId>> = Vec::new();
        let mut g: usize = 0;
        while g < self.groups.len()
            invariant
                0 <= g <= self.groups@.len(),
                new_groups@.len() == g,
                *self == *old(self),
                forall|p: PaneId| #[trigger] ids@.contains(p) <==> live.contains(p),
                forall|k: int|
                    0 <= k < g ==> (#[trigger] new_groups@[k])@ == seq_retain(
                        old(self).groups@[k]@,
                        live,
                    ),
            decreases self.groups@.len() - g,
        {
            new_groups.push(vec_retain(&self.groups[g], &ids, Ghost(live)));
            g += 1;
        }
        self.groups = new_groups;
        proof {
            assert(gview(self.groups@) =~= groups_retain(gview(old(self).groups@), live));
            lemma_groups_retain(gview(old(self).groups@), live);
        }
        if let Some(ag) = self.active_group {
            let agu = ag as usize;
            if agu < 1 || agu > self.groups.len() {
                self.active_group = None;
            } else if self.groups[agu - 1].len() == 0 {
                self.active_group = None;
            }
        }
    }
}

} // verus!

verus! {

/// The show commands for the members of one group, in member order.
fn plan_shows(members: &Vec<PaneId>) -> (cmds: Vec<HostCommand>)
    ensures
        cmds@ == shows_of(members@),
{
    let mut cmds: Vec<HostCommand> = Vec::new();
    let mut i: usize = 0;
    while i < members.len()
        invariant
            0 <= i <= members@.len(),
            cmds@ == shows_of(members@.subrange(0, i as int)),
        decreases members@.len() - i,
    {
        cmds.push(HostCommand::ShowPane(members[i], false));
        proof {
            assert(shows_of(members@.subrange(0, i + 1 as int)) =~= shows_of(
                members@.subrange(0, i as int),
            ).push(HostCommand::ShowPane(members@[i as int], false)));
        }
        i += 1;
    }
    proof {
        assert(members@.subrange(0, members@.len() as int) =~= members@);
    }
    cmds
}

impl State {
    /// The hide commands for every group other than `group_num`, in group
    /// order then member order.
    fn plan_hides(&self, group_num: u8) -> (cmds: Vec<HostCommand>)
        requires
            self.wf(),
        ensures
            cmds@ == hide_others(self.gs(), group_num as int),
    {
        let mut cmds: Vec<HostCommand> = Vec::new();
        let mut h: usize = 1;
        while h <= self.groups.len()
            invariant
                1 <= h <= self.groups@.len() + 1,
                self.wf(),
                cmds@ == hide_others_upto(self.gs(), group_num as int, h - 1),
            decreases self.groups@.len() + 1 - h,
        {
            if h != group_num as usize {
                let members = &self.groups[h - 1];
                let mut i: usize = 0;
                while i < members.len()
                    invariant
                        0 <= i <= members@.len(),
                        1 <= h <= self.groups@.len(),
                        h != group_num as int,
                        self.wf(),
                        members@ == self.gs()[h - 1],
                        cmds@ == hide_others_upto(self.gs(), group_num as int, h - 1)
                            + hides_of(members@.subrange(0, i as int)),
                    decreases members@.len() - i,
                {
                    cmds.push(HostCommand::HidePane(members[i]));
                    proof {
                        assert(hides_of(members@.subrange(0, i + 1 as int)) =~= hides_of(
                            members@.subrange(0, i as int),
                        ).push(HostCommand::HidePane(members@[i as int])));
                    }
                    i += 1;
                }
                proof {
                    assert(members@.subrange(0, members@.len() as int) =~= members@);
                    assert(hide_others_upto(self.gs(), group_num as int, h as int)
                        == hide_others_upto(self.gs(), group_num as int, h - 1) + hides_of(
                        self.gs()[h - 1],
                    ));
                }
            }
            h += 1;
        }
        cmds
    }

    /// `nonEmptyGroups`: the ascending list of group numbers whose member
    /// sequence is non-empty.
    pub fn non_empty_groups(&self) -> (r: Vec<u8>)
        requires
            self.wf(),
        ensures
            r@ == non_empty_seq(self.gs()),
    {
        let mut nums: Vec<u8> = Vec::new();
        let mut g: usize = 1;
        while g <= self.groups.len()
            invariant
                1 <= g <= self.groups@.len() + 1,
                self.wf(),
                nums@ == non_empty_upto(self.gs(), g - 1),
            decreases self.groups@.len() + 1 - g,
        {
            if self.groups[g - 1].len() > 0 {
                nums.push(g as u8);
            }
            g += 1;
        }
        nums
    }

    /// The group that holds `pane_id`, if any — by the uniqueness invariant
    /// there is at most one.
    pub fn group_containing(&self, pane_id: &PaneId) -> (r: Option<u8>)
        requires
            self.wf(),
        ensures
            match r {
                Some(g) => 1 <= g <= MAX_GROUPS && self.gs()[g as int - 1].contains(*pane_id),
                None => forall|h: int|
                    0 <= h < MAX_GROUPS ==> !(#[trigger] self.gs()[h].contains(*pane_id)),
            },
    {
        let mut g: usize = 1;
        while g <= self.groups.len()
            invariant
                1 <= g <= self.groups@.len() + 1,
                self.wf(),
                forall|h: int| 0 <= h < g - 1 ==> !(#[trigger] self.gs()[h].contains(*pane_id)),
            decreases self.groups@.len() + 1 - g,
        {
            if vec_contains(&self.groups[g - 1], *pane_id) {
                return Some(g as u8);
            }
            g += 1;
        }
        None
    }

    /// `activate(g)`: when group `g` has members, plans the hide / show /
    /// stack / focus commands and records `g` as active; otherwise a
    /// silent no-op with no commands.
    pub fn activate_group(&mut self, group_num: u8) -> (cmds: Vec<HostCommand>)
        requires
            old(self).wf(),
        ensures
            final(self).wf(),
            same_but_active(*old(self), *final(self)),
            can_activate(old(self).gs(), group_num as int) ==> final(self).active_group == Some(
                group_num,
            ) && activation_plan(cmds@, old(self).gs(), group_num as int),
            !can_activate(old(self).gs(), group_num as int) ==> *final(self) == *old(self)
                && cmds@ == Seq::<HostCommand>::empty(),
            active_ok(old(self).gs(), old(self).active_group) ==> active_ok(
                final(self).gs(),
                final(self).active_group,
            ),
    {
        let g = group_num as usize;
        if g < 1 || g > self.groups.len() {
            return Vec::new();
        }
        if self.groups[g - 1].len() == 0 {
            return Vec::new();
        }
        let ghost gs = self.gs();
        let ghost hides = hide_others(gs, group_num as int);
        let ghost shows = shows_of(gs[group_num as int - 1]);
        let mut cmds = self.plan_hides(group_num);
        let mut show_cmds = plan_shows(&self.groups[g - 1]);
        cmds.append(&mut show_cmds);
        assert(cmds@ == hides + shows);
        let many = self.groups[g - 1].len() > 1;
        if many {
            let stack = copy_panes(&self.groups[g - 1]);
            cmds.push(HostCommand::StackPanes(stack));
        }
        cmds.push(HostCommand::HideSelf);
        let members = &self.groups[g - 1];
        let first = members[0];
        cmds.push(HostCommand::FocusPane(first, false));
        self.active_group = Some(group_num);
        proof {
            let n = hides.len() + shows.len();
            assert(cmds@.subrange(0, hides.len() as int) =~= hides);
            assert(cmds@.subrange(hides.len() as int, n as int) =~= shows);
        }
        cmds
    }

    /// `cycle(forward)`: activates the next (or previous) non-empty group
    /// with wraparound, starting from the active group or from 0 when none
    /// is active; a no-op when no group has members.
    pub fn cycle_group(&mut self, forward: bool) -> (cmds: Vec<HostCommand>)
        requires
            old(self).wf(),
        ensures
            final(self).wf(),
            same_but_active(*old(self), *final(self)),
            final(self).active_group == cycle_spec(
                old(self).gs(),
                old(self).active_group,
                forward,
            ),
            non_empty_seq(old(self).gs()).len() == 0 ==> *final(self) == *old(self) && cmds@
                == Seq::<HostCommand>::empty(),
            non_empty_seq(old(self).gs()).len() > 0 ==> activation_plan(
                cmds@,
                old(self).gs(),
                cycle_choice(
                    non_empty_seq(old(self).gs()),
                    cycle_current(old(self).active_group),
                    forward,
                ) as int,
            ),
            active_ok(old(self).gs(), old(self).active_group) ==> active_ok(
                final(self).gs(),
                final(self).active_group,
            ),
    {
        let groups_list = self.non_empty_groups();
        if groups_list.len() == 0 {
            return Vec::new();
        }
        proof {
            lemma_non_empty_seq(self.gs());
        }
        let ghost ne = non_empty_seq(self.gs());
        let current: u8 = match self.active_group {
            Some(g) => g,
            None => 0,
        };
        assert(current as int == cycle_current(self.active_group));
        let next: u8;
        if forward {
            let mut i: usize = 0;
            let mut found: Option<u8> = None;
            while i < groups_list.len() && found.is_none()
                invariant
                    0 <= i <= groups_list@.len(),
                    groups_list@ == ne,
                    found is None ==> first_above(ne, current as int, 0) == first_above(
                        ne,
                        current as int,
                        i as int,
                    ),
                    found matches Some(f) ==> first_above(ne, current as int, 0) == Some(f)
                        && ne.contains(f),
                decreases groups_list@.len() - i,
            {
                if groups_list[i] > current {
                    found = Some(groups_list[i]);
                    proof {
                        assert(ne[i as int] == groups_list@[i as int]);
                    }
                }
                i += 1;
            }
            next = match found {
                Some(f) => f,
                None => groups_list[0],
            };
            assert(next == cycle_choice(ne, current as int, true));
        } else {
            let mut j: usize = groups_list.len();
            let mut found: Option<u8> = None;
            while j > 0 && found.is_none()
                invariant
                    0 <= j <= groups_list@.len(),
                    groups_list@ == ne,
                    found is None ==> last_below(ne, current as int, ne.len() - 1) == last_below(
                        ne,
                        current as int,
                        j - 1,
                    ),
                    found matches Some(f) ==> last_below(ne, current as int, ne.len() - 1)
                        == Some(f) && ne.contains(f),
                decreases j,
            {
                if groups_list[j - 1] < current {
                    found = Some(groups_list[j - 1]);
                    proof {
                        assert(ne[j - 1] == groups_list@[j - 1]);
                    }
                }
                j -= 1;
            }
            next = match found {
                Some(f) => f,
                None => groups_list[groups_list.len() - 1],
            };
            assert(next == cycle_choice(ne, current as int, false));
        }
        proof {
            if ne.contains(next) {
            } else {
                assert(ne[0] == next || ne[ne.len() - 1] == next);
            }
            assert(ne.contains(next));
            let k = choose|k: int| 0 <= k < ne.len() && ne[k] == next;
            assert(non_empty_seq(self.gs())[k] == next);
        }
        self.activate_group(next)
    }

    /// `showAll`: plans a show command for every member pane of every group
    /// and clears the active pointer; group membership is untouched.
    pub fn show_all(&mut self) -> (cmds: Vec<HostCommand>)
        requires
            old(self).wf(),
        ensures
            final(self).wf(),
            same_but_active(*old(self), *final(self)),
            final(self).active_group is None,
            cmds@ == show_all_plan(old(self).gs()),
    {
        let mut cmds: Vec<HostCommand> = Vec::new();
        let mut h: usize = 1;
        while h <= self.groups.len()
            invariant
                1 <= h <= self.groups@.len() + 1,
                self.wf(),
                cmds@ == show_all_upto(self.gs(), h - 1),
            decreases self.groups@.len() + 1 - h,
        {
            let members = &self.groups[h - 1];
            let mut i: usize = 0;
            while i < members.len()
                invariant
                    0 <= i <= members@.len(),
                    1 <= h <= self.groups@.len(),
                    self.wf(),
                    members@ == self.gs()[h - 1],
                    cmds@ == show_all_upto(self.gs(), h - 1) + shows_of(
                        members@.subrange(0, i as int),
                    ),
                decreases members@.len() - i,
            {
                cmds.push(HostCommand::ShowPane(members[i], false));
                proof {
                    assert(shows_of(members@.subrange(0, i + 1 as int)) =~= shows_of(
                        members@.subrange(0, i as int),
                    ).push(HostCommand::ShowPane(members@[i as int], false)));
                }
                i += 1;
            }
            proof {
                assert(members@.subrange(0, members@.len() as int) =~= members@);
                assert(show_all_upto(self.gs(), h as int) == show_all_upto(self.gs(), h - 1)
                    + shows_of(self.gs()[h - 1]));
            }
            h += 1;
        }
        self.active_group = None;
        cmds
    }
}

} // verus!
