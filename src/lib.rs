//! The per-connection core of a live state bridge: actions from a client
//! drive a state actor, and each changed state goes back as a snapshot.

pub mod action;
pub mod actor;
pub mod bridge;
pub mod counter;
pub mod listener;

pub use action::Action;
