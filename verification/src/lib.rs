// Viewer core for hierarchical function-call traces: the trace grammar, the
// depth-aware visibility filter, the visibility store and the interaction
// state machine that drives them.

pub mod app;
pub mod display;
pub mod handler;
pub mod key;
pub mod keybinding;
pub mod layout;
pub mod name_order;
pub mod pattern;
pub mod reconcile;
pub mod selection;
pub mod std_string;
pub mod stored_file;
pub mod trace;
pub mod typename;
pub mod visibility_info;
