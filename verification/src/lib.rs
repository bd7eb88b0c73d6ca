//! The core of an in-process actor runtime, together with the rules by which
//! an annotated `impl` block is turned into handler registrations.

pub mod cell;
pub mod context;
pub mod dispatch;
pub mod expand;
pub mod laws;
pub mod mailbox;
pub mod message;
pub mod model;
pub mod node;
pub mod syntax;

pub use crate::expand::{handler, on_exit, on_init, process, subscriptions};
