//! Request-level rules of the web interface: who may use it, and what Twitch
//! EventSub deliveries are accepted.

pub mod auth;
pub mod components;
pub mod twitch;
