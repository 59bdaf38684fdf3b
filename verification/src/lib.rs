//! Keeps audio capture devices at a fixed input level.
//!
//! The library holds the rules of the enforcement daemon as pure, verified
//! code: the order of input levels, the decision whether a device needs a
//! correction, the case-insensitive device matcher, and the state machine
//! that drives start-up, the periodic correction pass, the interruptible
//! sleep and shutdown. Everything that touches the platform is performed by
//! the caller, which hands the outcome of each requested action back in as
//! an event.

pub mod level;
pub mod controller;
pub mod matcher;
pub mod config;
pub mod protocol;
pub mod model;
pub mod enforcer;
