//! The shape of the outbound command plans: what activating a group and
//! showing all groups send to the host, and in what order.

use vstd::prelude::*;

use crate::groups::group_has_members;
use crate::model::{HostCommand, PaneId};

verus! {

/// A hide command for each pane of `s`, in member order.
pub open spec fn hides_of(s: Seq<PaneId>) -> Seq<HostCommand> {
    Seq::new(s.len(), |i: int| HostCommand::HidePane(s[i]))
}

/// A show command for each pane of `s`, in member order, with the
/// keep-in-background flag cleared.
pub open spec fn shows_of(s: Seq<PaneId>) -> Seq<HostCommand> {
    Seq::new(s.len(), |i: int| HostCommand::ShowPane(s[i], false))
}

/// The hide commands for every group numbered in `[1, h]` other than `g`,
/// in group order then member order.
pub open spec fn hide_others_upto(gs: Seq<Seq<PaneId>>, g: int, h: int) -> Seq<HostCommand>
    decreases h,
{
    if h <= 0 {
        Seq::empty()
    } else if h == g {
        hide_others_upto(gs, g, h - 1)
    } else {
        hide_others_upto(gs, g, h - 1) + hides_of(gs[h - 1])
    }
}

/// The hide commands for every group other than `g`.
pub open spec fn hide_others(gs: Seq<Seq<PaneId>>, g: int) -> Seq<HostCommand> {
    hide_others_upto(gs, g, gs.len() as int)
}

/// The show commands for every group numbered in `[1, h]`, in group order
/// then member order.
pub open spec fn show_all_upto(gs: Seq<Seq<PaneId>>, h: int) -> Seq<HostCommand>
    decreases h,
{
    if h <= 0 {
        Seq::empty()
    } else {
        show_all_upto(gs, h - 1) + shows_of(gs[h - 1])
    }
}

/// The commands `showAll` sends: a show command for every member pane of
/// every group.
pub open spec fn show_all_plan(gs: Seq<Seq<PaneId>>) -> Seq<HostCommand> {
    show_all_upto(gs, gs.len() as int)
}

/// Activation succeeds exactly when the target group has members.
pub open spec fn can_activate(gs: Seq<Seq<PaneId>>, g: int) -> bool {
    group_has_members(gs, g)
}

/// The command plan of a successful activation of group `g`: hide every
/// other group's panes, show `g`'s panes, stack them when there are at least
/// two, hide the plugin's own panel, and focus the first member — in exactly
/// that order.
pub open spec fn activation_plan(cmds: Seq<HostCommand>, gs: Seq<Seq<PaneId>>, g: int) -> bool {
    let hides = hide_others(gs, g);
    let members = gs[g - 1];
    let shows = shows_of(members);
    let n = hides.len() + shows.len();
    &&& cmds.subrange(0, hides.len() as int) == hides
    &&& cmds.subrange(hides.len() as int, n as int) == shows
    &&& if members.len() > 1 {
        &&& cmds.len() == n + 3
        &&& (cmds[n as int] matches HostCommand::StackPanes(v) && v@ == members)
        &&& cmds[(n + 1) as int] == HostCommand::HideSelf
        &&& cmds[(n + 2) as int] == HostCommand::FocusPane(members[0], false)
    } else {
        &&& cmds.len() == n + 2
        &&& cmds[n as int] == HostCommand::HideSelf
        &&& cmds[(n + 1) as int] == HostCommand::FocusPane(members[0], false)
    }
}

} // verus!
