//! The command interpreter: local key input against the two-state
//! interaction mode, host events, and externally delivered named commands,
//! all reduced to the group-store and activation-engine operations.

use vstd::prelude::*;

use crate::cycle::{cycle_choice, cycle_current, cycle_spec, non_empty_seq};
use crate::groups::{groups_add, groups_remove, gview, MAX_GROUPS};
use crate::model::{
    BareKey, Event, HostCommand, KeyWithModifier, Mode, PaneId, PipeMessage,
};
use crate::parse::{parse_u8, spec_parse_u8};
use crate::plan::{activation_plan, can_activate, show_all_plan};
use crate::state::{focus_refreshed, reconciled, same_but_active, same_but_store, State};

verus! {

/// The group a digit key names: `Some(1)` to `Some(9)` for the digit keys
/// `1` to `9` (with or without modifiers), `None` for every other key.
pub open spec fn key_group_num(key: KeyWithModifier) -> Option<u8> {
    match key.bare_key {
        BareKey::Char(c) => if 49 <= c as u32 <= 57 {
            Some((c as u32 - 48) as u8)
        } else {
            None
        },
        _ => None,
    }
}

/// Builds the group number a digit key names, if any.
pub fn key_to_group_num(key: &KeyWithModifier) -> (r: Option<u8>)
    ensures
        r == key_group_num(*key),
{
    match key.bare_key {
        BareKey::Char(c) => {
            let d = c as u32;
            if 49 <= d && d <= 57 {
                Some((d - 48) as u8)
            } else {
                None
            }
        },
        _ => None,
    }
}

/// The key is exactly `bare`, with no modifier held.
pub open spec fn spec_is_key(key: KeyWithModifier, bare: BareKey) -> bool {
    key.bare_key == bare && !key.has_modifiers
}

/// True iff the key is exactly `bare` with no modifier held.
pub fn is_key(key: &KeyWithModifier, bare: BareKey) -> (r: bool)
    ensures
        r == spec_is_key(*key, bare),
{
    key.bare_key == bare && !key.has_modifiers
}

/// The commands of the quit gesture: hide the panel, then refocus the last
/// focused pane if one is known.
pub open spec fn quit_plan(last: Option<PaneId>) -> Seq<HostCommand> {
    match last {
        Some(p) => seq![HostCommand::HideSelf, HostCommand::FocusPane(p, false)],
        None => seq![HostCommand::HideSelf],
    }
}

/// What a direct activation of group `g` does to the state and emits: on a
/// group with members, the activation plan and the active pointer; on an
/// empty group, nothing at all.
pub open spec fn activate_effect(pre: State, g: u8, post: State, cmds: Seq<HostCommand>) -> bool {
    &&& same_but_active(pre, post)
    &&& if can_activate(gview(pre.groups@), g as int) {
        &&& post.active_group == Some(g)
        &&& activation_plan(cmds, gview(pre.groups@), g as int)
    } else {
        &&& post == pre
        &&& cmds == Seq::<HostCommand>::empty()
    }
}

/// What one cycling step does: nothing when no group has members, otherwise
/// an activation of the chosen neighbour with wraparound.
pub open spec fn cycle_effect(pre: State, forward: bool, post: State, cmds: Seq<
    HostCommand,
>) -> bool {
    &&& same_but_active(pre, post)
    &&& post.active_group == cycle_spec(gview(pre.groups@), pre.active_group, forward)
    &&& (non_empty_seq(gview(pre.groups@)).len() == 0 ==> post == pre && cmds == Seq::<
        HostCommand,
    >::empty())
    &&& (non_empty_seq(gview(pre.groups@)).len() > 0 ==> activation_plan(
        cmds,
        gview(pre.groups@),
        cycle_choice(
            non_empty_seq(gview(pre.groups@)),
            cycle_current(pre.active_group),
            forward,
        ) as int,
    ))
}

/// What `showAll` does: clears the active pointer, touches no membership,
/// and emits a show command for every member pane of every group.
pub open spec fn show_all_effect(pre: State, post: State, cmds: Seq<HostCommand>) -> bool {
    &&& same_but_active(pre, post)
    &&& post.active_group is None
    &&& cmds == show_all_plan(gview(pre.groups@))
}

/// What a key does in Normal mode, case by case, in the order the keys are
/// tried.
pub open spec fn normal_key_effect(
    pre: State,
    key: KeyWithModifier,
    post: State,
    cmds: Seq<HostCommand>,
) -> bool {
    if spec_is_key(key, BareKey::Char('q')) || spec_is_key(key, BareKey::Esc) {
        &&& post == pre
        &&& cmds == quit_plan(pre.last_focused_pane)
    } else if spec_is_key(key, BareKey::Char('j')) || spec_is_key(key, BareKey::Down) {
        &&& post == State {
            selected: if pre.selected < MAX_GROUPS {
                (pre.selected + 1) as u8
            } else {
                pre.selected
            },
            ..pre
        }
        &&& cmds == Seq::<HostCommand>::empty()
    } else if spec_is_key(key, BareKey::Char('k')) || spec_is_key(key, BareKey::Up) {
        &&& post == State {
            selected: if pre.selected > 1 {
                (pre.selected - 1) as u8
            } else {
                pre.selected
            },
            ..pre
        }
        &&& cmds == Seq::<HostCommand>::empty()
    } else if spec_is_key(key, BareKey::Enter) {
        activate_effect(pre, pre.selected, post, cmds)
    } else if spec_is_key(key, BareKey::Char('a')) {
        &&& post == State { mode: Mode::Add, ..pre }
        &&& cmds == Seq::<HostCommand>::empty()
    } else if spec_is_key(key, BareKey::Char('d')) {
        &&& same_but_store(pre, post)
        &&& post.active_group == pre.active_group
        &&& cmds == Seq::<HostCommand>::empty()
        &&& match pre.last_focused_pane {
            Some(p) => gview(post.groups@) == groups_remove(gview(pre.groups@), p),
            None => post == pre,
        }
    } else if spec_is_key(key, BareKey::Char('u')) {
        show_all_effect(pre, post, cmds)
    } else if spec_is_key(key, BareKey::Tab) {
        cycle_effect(pre, true, post, cmds)
    } else {
        &&& cmds == Seq::<HostCommand>::empty()
        &&& match key_group_num(key) {
            Some(n) => post == State { selected: n, ..pre },
            None => post == pre,
        }
    }
}

/// What any key does: in Add mode a digit key assigns the last focused pane
/// to that group and any other key cancels, the mode resetting to Normal
/// either way; in Normal mode, `normal_key_effect`.
pub open spec fn key_effect(
    pre: State,
    key: KeyWithModifier,
    post: State,
    cmds: Seq<HostCommand>,
) -> bool {
    if pre.mode == Mode::Add {
        &&& post.mode == Mode::Normal
        &&& post.selected == pre.selected
        &&& post.active_group == pre.active_group
        &&& post.pane_manifest == pre.pane_manifest
        &&& post.tab_info == pre.tab_info
        &&& post.permissions_granted == pre.permissions_granted
        &&& post.last_focused_pane == pre.last_focused_pane
        &&& post.last_focused_tab == pre.last_focused_tab
        &&& cmds == Seq::<HostCommand>::empty()
        &&& match (key_group_num(key), pre.last_focused_pane) {
            (Some(n), Some(p)) => gview(post.groups@) == groups_add(
                gview(pre.groups@),
                p,
                n as int,
            ),
            _ => post.groups == pre.groups,
        }
    } else {
        normal_key_effect(pre, key, post, cmds)
    }
}

impl State {
    /// Interprets one key according to the interaction mode.
    pub fn handle_key(&mut self, key: KeyWithModifier) -> (cmds: Vec<HostCommand>)
        requires
            old(self).wf(),
        ensures
            final(self).wf(),
            key_effect(*old(self), key, *final(self), cmds@),
    {
        if self.mode == Mode::Add {
            if let Some(num) = key_to_group_num(&key) {
                self.add_to_group(num);
            }
            self.mode = Mode::Normal;
            return Vec::new();
        }
        if is_key(&key, BareKey::Char('q')) || is_key(&key, BareKey::Esc) {
            let mut cmds: Vec<HostCommand> = Vec::new();
            cmds.push(HostCommand::HideSelf);
            if let Some(pane_id) = self.last_focused_pane {
                cmds.push(HostCommand::FocusPane(pane_id, false));
            }
            proof {
                assert(cmds@ =~= quit_plan(self.last_focused_pane));
            }
            return cmds;
        }
        if is_key(&key, BareKey::Char('j')) || is_key(&key, BareKey::Down) {
            if self.selected < MAX_GROUPS {
                self.selected = self.selected + 1;
            }
            return Vec::new();
        }
        if is_key(&key, BareKey::Char('k')) || is_key(&key, BareKey::Up) {
            if self.selected > 1 {
                self.selected = self.selected - 1;
            }
            return Vec::new();
        }
        if is_key(&key, BareKey::Enter) {
            let selected = self.selected;
            return self.activate_group(selected);
        }
        if is_key(&key, BareKey::Char('a')) {
            self.mode = Mode::Add;
            return Vec::new();
        }
        if is_key(&key, BareKey::Char('d')) {
            self.remove_focused_from_group();
            return Vec::new();
        }
        if is_key(&key, BareKey::Char('u')) {
            return self.show_all();
        }
        if is_key(&key, BareKey::Tab) {
            return self.cycle_group(true);
        }
        if let Some(num) = key_to_group_num(&key) {
            self.selected = num;
        }
        Vec::new()
    }

    /// Reacts to one inbound host event: records a permission grant, takes a
    /// manifest (focus refresh, then reconciliation), takes a tab list
    /// (focus refresh), or interprets a key. The first result component says
    /// whether the panel should be redrawn.
    pub fn update(&mut self, event: Event) -> (r: (bool, Vec<HostCommand>))
        requires
            old(self).wf(),
        ensures
            final(self).wf(),
            match event {
                Event::PermissionRequestResult(granted) => {
                    &&& *final(self) == State {
                        permissions_granted: old(self).permissions_granted || granted,
                        ..*old(self)
                    }
                    &&& r.0 == false
                    &&& r.1@ == Seq::<HostCommand>::empty()
                },
                Event::PaneUpdate(m) => {
                    &&& reconciled(
                        focus_refreshed(State { pane_manifest: Some(m), ..*old(self) }),
                        *final(self),
                    )
                    &&& r.0 == true
                    &&& r.1@ == Seq::<HostCommand>::empty()
                },
                Event::TabUpdate(tabs) => {
                    &&& *final(self) == focus_refreshed(State { tab_info: tabs, ..*old(self) })
                    &&& r.0 == true
                    &&& r.1@ == Seq::<HostCommand>::empty()
                },
                Event::Key(k) => {
                    &&& key_effect(*old(self), k, *final(self), r.1@)
                    &&& r.0 == true
                },
            },
    {
        match event {
            Event::PermissionRequestResult(granted) => {
                if granted {
                    self.permissions_granted = true;
                }
                (false, Vec::new())
            },
            Event::PaneUpdate(manifest) => {
                self.pane_manifest = Some(manifest);
                self.update_last_focused();
                self.validate_groups();
                (true, Vec::new())
            },
            Event::TabUpdate(tabs) => {
                self.tab_info = tabs;
                self.update_last_focused();
                (true, Vec::new())
            },
            Event::Key(key) => {
                let cmds = self.handle_key(key);
                (true, cmds)
            },
        }
    }

    /// Reacts to one externally delivered named command. Commands not
    /// marked private are ignored; unknown names, malformed or out-of-range
    /// payloads are silently ignored. The first result component says
    /// whether the panel should be redrawn.
    pub fn pipe(&mut self, msg: &PipeMessage) -> (r: (bool, Vec<HostCommand>))
        requires
            old(self).wf(),
        ensures
            final(self).wf(),
            !msg.is_private ==> *final(self) == *old(self) && r.0 == false && r.1@ == Seq::<
                HostCommand,
            >::empty(),
            msg.is_private ==> r.0 == (msg.name@ == "toggle_ui"@) && (if msg.name@
                == "toggle_ui"@ {
                *final(self) == *old(self) && r.1@ == seq![HostCommand::ShowSelf(false)]
            } else if msg.name@ == "next_group"@ {
                cycle_effect(*old(self), true, *final(self), r.1@)
            } else if msg.name@ == "prev_group"@ {
                cycle_effect(*old(self), false, *final(self), r.1@)
            } else if msg.name@ == "activate_group"@ {
                match msg.payload {
                    Some(pl) => match spec_parse_u8(pl@) {
                        Some(n) => if 1 <= n <= MAX_GROUPS {
                            activate_effect(*old(self), n, *final(self), r.1@)
                        } else {
                            *final(self) == *old(self) && r.1@ == Seq::<HostCommand>::empty()
                        },
                        None => *final(self) == *old(self) && r.1@ == Seq::<
                            HostCommand,
                        >::empty(),
                    },
                    None => *final(self) == *old(self) && r.1@ == Seq::<HostCommand>::empty(),
                }
            } else if msg.name@ == "show_all"@ {
                show_all_effect(*old(self), *final(self), r.1@)
            } else {
                *final(self) == *old(self) && r.1@ == Seq::<HostCommand>::empty()
            }),
    {
        if !msg.is_private {
            return (false, Vec::new());
        }
        if msg.name == "toggle_ui".to_owned() {
            let mut cmds: Vec<HostCommand> = Vec::new();
            cmds.push(HostCommand::ShowSelf(false));
            proof {
                assert(cmds@ =~= seq![HostCommand::ShowSelf(false)]);
            }
            return (true, cmds);
        }
        if msg.name == "next_group".to_owned() {
            let cmds = self.cycle_group(true);
            return (false, cmds);
        }
        if msg.name == "prev_group".to_owned() {
            let cmds = self.cycle_group(false);
            return (false, cmds);
        }
        if msg.name == "activate_group".to_owned() {
            if let Some(payload) = &msg.payload {
                if let Some(num) = parse_u8(payload.as_str()) {
                    if 1 <= num && num <= MAX_GROUPS {
                        let cmds = self.activate_group(num);
                        return (false, cmds);
                    }
                }
            }
            return (false, Vec::new());
        }
        if msg.name == "show_all".to_owned() {
            let cmds = self.show_all();
            return (false, cmds);
        }
        (false, Vec::new())
    }
}

} // verus!
