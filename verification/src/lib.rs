//! The state-keeping core of a retained-mode widget tree.
//!
//! Every mounted widget has a node in an arena. The node owns the widget's
//! state with its concrete type erased, a dirty flag, a link to its parent
//! and the set of descendants that read its state. User code reaches state
//! through a build context only: guards for the node's own state, and handles
//! for the state that an ancestor provides. Taking a mutable guard marks the
//! node dirty; taking one on inherited state marks the ancestor and its
//! direct dependents. Lifecycle hooks run with that notice suppressed.
//!
//! A dependent stays registered until it is unmounted; registering again
//! changes nothing. Unmounting a widget destroys its state and hands back its
//! configuration. The slot of its node stays behind, empty, and no index is
//! used twice: the slots are given back when the tree is dropped.

pub mod arena;
pub mod build_ctx;
pub mod erased_state;
pub mod erased_widget;
pub mod event_detectors;
pub mod laws;
pub mod model;
pub mod structural_eq;
pub mod tree;
pub mod type_id;
