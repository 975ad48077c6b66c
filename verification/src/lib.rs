//! Control-plane core of a tiling compositor's configuration layer: the
//! registry that binds key presses with modifier state to actions, the
//! depth-2 workspace navigation history behind "last workspace" toggling,
//! and the wall-clock-aligned periodic schedule that drives a status label.
//! The compositor runtime itself — input delivery, seat actions, timers,
//! process spawning — is an external collaborator the core only instructs.

pub mod bindings;
pub mod modifiers;
pub mod profile;
pub mod scheduler;
pub mod status;
pub mod workspace;
