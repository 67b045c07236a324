//! The relay's room, routing and control state.

pub mod config;
pub mod control;
pub mod keys;
pub mod egress;
pub mod media;
pub mod metrics;
pub mod room;
pub mod router;
pub mod session;
