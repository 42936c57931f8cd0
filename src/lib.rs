//! The data logic of an administration console for a management server:
//! the dictionary tree (built from a flat parent-referencing list, and
//! updated one entry at a time), the checks and requests of its forms, the
//! calls it makes, and the state of a list pane (its fetched rows, its add or
//! edit dialog, its field hint and its operation message).
//!
//! Performing the calls and drawing the screens is left to the host; the
//! functions here take what came back as plain values.
use vstd::prelude::*;

pub mod api;
pub mod forms;
pub mod model;
pub mod pane;
pub mod text;
pub mod tree;
pub mod tree_laws;

verus! {

} // verus!
