//! Verified core of an RTMP stream relay: chat inbox, chat-protocol parsing,
//! configuration rules, notification payloads and request authentication.

pub mod text;
pub mod chat;
pub mod web;
pub mod config;
pub mod notifications;
pub mod server;
pub mod metrics;
pub mod embedded_assets;
pub mod systemd;
