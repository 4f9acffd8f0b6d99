//! A pane-grouping manager for a host windowing environment.
//!
//! Panes (terminal-like surfaces living in tabs) can be tagged into up to
//! nine numbered groups; a group can then be activated, which plans a set of
//! host commands that hide every other group's panes, show and stack the
//! group's own panes, and focus the first of them. The library is the pure
//! state machine: it consumes host snapshots and user commands as plain
//! values and returns the host commands to issue as plain values. Delivering
//! events and performing the commands is the embedding program's job.

pub mod cycle;
pub mod groups;
pub mod interpret;
pub mod model;
pub mod parse;
pub mod plan;
pub mod state;
