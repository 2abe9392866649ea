//! What the connection worker reports back to the window, and the
//! connection status it shows.

use vstd::prelude::*;

verus! {

/// Where the connection stands, as the window shows it.
#[derive(Debug, Clone, Copy, PartialEq, Eq, Structural)]
pub enum ConnectionStatus {
    Idle,
    LoggingIn,
    WaitingMfa,
    ConnectingVpn,
    Connected,
    Failed,
}

/// The words the window shows for a status.
pub open spec fn status_label(s: ConnectionStatus) -> Seq<char> {
    match s {
        ConnectionStatus::Idle => "Idle"@,
        ConnectionStatus::LoggingIn => "Logging In"@,
        ConnectionStatus::WaitingMfa => "Waiting for MFA"@,
        ConnectionStatus::ConnectingVpn => "Connecting VPN"@,
        ConnectionStatus::Connected => "Connected"@,
        ConnectionStatus::Failed => "Failed"@,
    }
}

impl ConnectionStatus {
    /// The status as the window labels it.
    pub fn label(&self) -> (res: String)
        ensures
            res@ == status_label(*self),
    {
        match self {
            ConnectionStatus::Idle => String::from_str("Idle"),
            ConnectionStatus::LoggingIn => String::from_str("Logging In"),
            ConnectionStatus::WaitingMfa => String::from_str("Waiting for MFA"),
            ConnectionStatus::ConnectingVpn => String::from_str("Connecting VPN"),
            ConnectionStatus::Connected => String::from_str("Connected"),
            ConnectionStatus::Failed => String::from_str("Failed"),
        }
    }
}

/// A report from the connection worker. Throughput samples, which are
/// fractional rates, travel beside these and never reach the session.
#[derive(Debug)]
pub enum LogEvent {
    /// The worker moved on to a new stage.
    Status(ConnectionStatus),
    /// A line for the log.
    Log(String),
    /// The attempt failed; the message says why.
    Error(String),
    /// The tunnel is up, run by the process with this id.
    Connected(u32),
    /// The tunnel was taken down.
    Disconnected,
}

} // verus!
