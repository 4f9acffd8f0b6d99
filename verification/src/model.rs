//! The identifier and snapshot model: pane identifiers, the two host-pushed
//! snapshots (pane manifest and tab list), key input, inbound events and
//! outbound host commands, all as plain values.

use vstd::prelude::*;

verus! {

/// Identifier of a pane within the host, valid for the pane's lifetime.
/// A pane is either a regular terminal surface or a host-UI (plugin) surface;
/// the plugin's own panel is such a surface and is never grouped.
#[derive(Clone, Copy, Debug, Hash, PartialEq, Eq, Structural)]
pub enum PaneId {
    Terminal(u32),
    Plugin(u32),
}

/// One pane record from the host's pane manifest, reduced to the fields the
/// state machine reads.
#[derive(Clone, Copy, Debug)]
pub struct PaneInfo {
    pub id: u32,
    pub is_plugin: bool,
    pub is_focused: bool,
}

/// All panes of one tab in the manifest, keyed by the tab's position.
#[derive(Debug)]
pub struct TabPanes {
    pub position: usize,
    pub panes: Vec<PaneInfo>,
}

/// The host's full snapshot of all panes across all tabs.
#[derive(Debug)]
pub struct PaneManifest {
    pub panes: Vec<TabPanes>,
}

/// One tab record from the host's tab list.
#[derive(Clone, Copy, Debug)]
pub struct TabInfo {
    pub position: usize,
    pub active: bool,
}

/// The key actually pressed, stripped of modifiers.
#[derive(Clone, Copy, Debug, PartialEq, Eq, Structural)]
pub enum BareKey {
    Char(char),
    Down,
    Up,
    Enter,
    Esc,
    Tab,
    Other,
}

/// A key event: the bare key plus whether any modifier was held.
#[derive(Clone, Copy, Debug)]
pub struct KeyWithModifier {
    pub bare_key: BareKey,
    pub has_modifiers: bool,
}

/// The two-state ephemeral interaction mode: in `Add`, the next digit key
/// assigns the last focused pane to that group.
#[derive(Clone, Copy, Debug, PartialEq, Eq, Structural)]
pub enum Mode {
    Normal,
    Add,
}

/// An inbound host event, as delivered to the state machine.
#[derive(Debug)]
pub enum Event {
    /// The result of the startup permission request: `true` means granted.
    PermissionRequestResult(bool),
    /// A full pane manifest snapshot.
    PaneUpdate(PaneManifest),
    /// A full tab list snapshot.
    TabUpdate(Vec<TabInfo>),
    /// A key pressed while the panel has focus.
    Key(KeyWithModifier),
}

/// An externally delivered named command with an optional string payload.
#[derive(Debug)]
pub struct PipeMessage {
    pub name: String,
    pub payload: Option<String>,
    pub is_private: bool,
}

/// An outbound command for the host, fire-and-forget.
#[derive(Debug, PartialEq)]
pub enum HostCommand {
    /// Hide the pane.
    HidePane(PaneId),
    /// Show the pane; the flag asks the host to keep it in the background.
    ShowPane(PaneId, bool),
    /// Stack the listed panes together as one visually grouped surface.
    StackPanes(Vec<PaneId>),
    /// Focus the pane; the flag asks the host not to raise it.
    FocusPane(PaneId, bool),
    /// Hide the plugin's own panel.
    HideSelf,
    /// Show the plugin's own panel; the flag asks the host to float it.
    ShowSelf(bool),
}

/// The identifier a manifest pane record denotes.
pub open spec fn spec_pane_id(p: PaneInfo) -> PaneId {
    if p.is_plugin {
        PaneId::Plugin(p.id)
    } else {
        PaneId::Terminal(p.id)
    }
}

/// Builds the identifier for a manifest pane record.
pub fn pane_id_from(pane: &PaneInfo) -> (id: PaneId)
    ensures
        id == spec_pane_id(*pane),
{
    if pane.is_plugin {
        PaneId::Plugin(pane.id)
    } else {
        PaneId::Terminal(pane.id)
    }
}

/// The set of identifiers of all panes present anywhere in the manifest.
pub open spec fn manifest_live(m: PaneManifest) -> Set<PaneId> {
    Set::new(
        |id: PaneId|
            exists|t: int, i: int|
                0 <= t < m.panes@.len() && 0 <= i < m.panes@[t].panes@.len()
                    && spec_pane_id(#[trigger] m.panes@[t].panes@[i]) == id,
    )
}

/// The position of the first tab marked active, scanning from index `i`.
pub open spec fn active_tab_from(tabs: Seq<TabInfo>, i: int) -> Option<usize>
    decreases tabs.len() - i,
{
    if i < 0 || i >= tabs.len() {
        None
    } else if tabs[i].active {
        Some(tabs[i].position)
    } else {
        active_tab_from(tabs, i + 1)
    }
}

/// The position of the first tab marked active, if any.
pub open spec fn spec_active_tab_position(tabs: Seq<TabInfo>) -> Option<usize> {
    active_tab_from(tabs, 0)
}

/// The pane list of the first manifest entry for tab position `pos`,
/// scanning from index `i`.
pub open spec fn panes_for_tab_from(entries: Seq<TabPanes>, pos: usize, i: int) -> Option<
    Seq<PaneInfo>,
>
    decreases entries.len() - i,
{
    if i < 0 || i >= entries.len() {
        None
    } else if entries[i].position == pos {
        Some(entries[i].panes@)
    } else {
        panes_for_tab_from(entries, pos, i + 1)
    }
}

/// The identifier of the first focused, non-UI pane in the list, scanning
/// from index `i`.
pub open spec fn focused_terminal_from(panes: Seq<PaneInfo>, i: int) -> Option<PaneId>
    decreases panes.len() - i,
{
    if i < 0 || i >= panes.len() {
        None
    } else if panes[i].is_focused && !panes[i].is_plugin {
        Some(spec_pane_id(panes[i]))
    } else {
        focused_terminal_from(panes, i + 1)
    }
}

/// The currently focused, non-UI pane: the first focused non-UI pane of the
/// active tab's pane list, if a manifest, an active tab and such a pane all
/// exist.
pub open spec fn spec_focused_pane(m: Option<PaneManifest>, tabs: Seq<TabInfo>) -> Option<PaneId> {
    match m {
        None => None,
        Some(m) => match spec_active_tab_position(tabs) {
            None => None,
            Some(pos) => match panes_for_tab_from(m.panes@, pos, 0) {
                None => None,
                Some(ps) => focused_terminal_from(ps, 0),
            },
        },
    }
}

} // verus!
