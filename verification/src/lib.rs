//! Harmony: relays chat messages between platforms, correlating channels and
//! users across platforms by name.

pub mod platform;
pub mod relay;
pub mod table;

pub use platform::PlatformId;
pub use table::{Table, TableKey};
pub mod channels;
pub mod discord;
pub mod error;
pub mod event;
pub mod irc;
pub mod irc_session;
pub mod irc_fetch;
pub mod messages;
pub mod peers;
pub mod text;
pub mod user;
pub mod users;
pub mod fetched;
pub mod fetch_events;
pub mod profiles;
pub mod config;
pub mod args;
pub mod logger;
pub mod router;
