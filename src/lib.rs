//! Outbound notification core: an SMTP client driven as a pure protocol
//! state machine, the capability negotiation it relies on, message and
//! command construction, a set-once notification dispatcher, and the
//! configuration values these consume.

pub mod text;
pub mod subject;
pub mod error;
pub mod capability;
pub mod mail;
pub mod config;
pub mod session;
pub mod dispatch;
pub mod args;
pub mod federation;
