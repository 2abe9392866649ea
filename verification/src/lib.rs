//! Verified core of the DrawbridgeVPN client.

pub mod browser;
pub mod dashboard;
pub mod events;
pub mod logfile;
pub mod login;
pub mod paths;
pub mod profile;
pub mod script;
pub mod session;
pub mod text;
pub mod totp;
pub mod vpn;
pub mod webview;
