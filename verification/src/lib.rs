//! Coordination core for a shared-canvas window system.
//!
//! Independently spawned application processes appear as windows on one
//! shared rendering canvas.  This crate holds the coordination layer:
//! the shared application-position store and its reservation discipline,
//! the process supervisor that keeps supervisor state consistent with
//! position state, the control-protocol codec and dispatch, and the
//! frame/event scheduler that interleaves bounded-capacity frame
//! production with bounded-capacity event forwarding.
//!
//! Process creation, sockets, rendering and the async runtime live
//! outside this crate; every function here is pure logic over plain
//! values and is verified against its contract.

pub mod config;
pub mod events;
pub mod framing;
pub mod parse;
pub mod position_store;
pub mod protocol;
pub mod scheduler;
pub mod supervisor;
pub mod template;
pub mod text;
pub mod util;
