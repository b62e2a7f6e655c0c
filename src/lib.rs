//! Entity ownership runtime: a store of slots that updates check out and
//! restore, typed handles into it, observers, and a deferred effect queue
//! drained when the outermost update returns.

pub mod app;
pub mod entity;
pub mod handlers;
pub mod laws;
pub mod window;
