//! The scene wizard: a staged run from a prompt to an assembled scene.

pub mod claim;
pub mod corrections;
pub mod dispatch;
pub mod laws;
pub mod lifecycle;
pub mod message;
pub mod project;
pub mod session;
pub mod stages;
pub mod state;
pub mod workers;
