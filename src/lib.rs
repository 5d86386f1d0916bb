//! Roll call on a ring of peer nodes. Each node knows only the next one. A
//! `StartRollCall` started at any node travels forward, marking every node
//! present; when it comes back to a marked node, a `MarkItself` sweep follows
//! that clears every mark again.
//!
//! `node` holds the actions, the node state and the coordinator that drives
//! one node; `ring` models a whole ring built from those rules and states what
//! a roll call does on it. `remote` names the next node, `color` reads and
//! writes colours, and `io_error` wraps errors as I/O errors.

pub mod color;
pub mod io_error;
pub mod node;
pub mod remote;
pub mod ring;
mod text;
