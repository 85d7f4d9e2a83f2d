//! Workspace names that show what runs in each workspace.
//!
//! The library takes a snapshot of a window manager's layout tree and a
//! configuration, finds the windows of every workspace, turns each window's
//! class into a label and says which workspaces have to be renamed, and to what.
pub mod config;
pub mod label;
pub mod node;
pub mod collect;
pub mod synth;
pub mod update;

pub use crate::collect::{collect_classes, get_class, get_classes, get_window_nodes, get_workspaces};
pub use crate::config::{get_option, Config};
pub use crate::label::resolve;
pub use crate::node::{LayoutNode, LookupError, NodeKind, WindowProperties};
pub use crate::synth::{rename_command, synthesize};
pub use crate::update::{
    handle_window_event, handle_workspace_event, update_tree, Reaction, UpdatePlan, WindowChange,
    WorkspaceChange,
};
