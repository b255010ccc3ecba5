//! Configuration records, one per supported transport. They are loaded from
//! a file by the surrounding application and consumed read-only here.

use vstd::prelude::*;

verus! {

/// The full configuration: one optional section per transport.
pub struct Config {
    pub email: Option<EmailConfig>,
    pub matrix: Option<MatrixConfig>,
}

/// Mailbox transport settings. `address` is the authorized sender: the only
/// identity whose replies are accepted as control input.
pub struct EmailConfig {
    pub address: String,
    pub username: String,
    pub password: String,
    pub smtp_server: String,
    pub imap_server: String,
    pub imap_port: u16,
}

/// Chat transport settings. `address` is the authorized user id; `room` is
/// the room the reports and replies travel through.
pub struct MatrixConfig {
    pub address: String,
    pub username: String,
    pub password: String,
    pub room: String,
}

} // verus!
