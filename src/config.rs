//! Configuration values consumed by the notifier and the server, as plain
//! data. Reading them from a file is left to the caller.

use vstd::prelude::*;
use vstd::string::*;
use crate::mail::{Email, Identity};

verus! {

/// The default of `startup_check`: on.
pub fn serde_true() -> (r: bool)
    ensures
        r,
{
    true
}

/// The port the server listens on unless configured otherwise.
pub fn default_server_port() -> (r: u16)
    ensures
        r == 9005,
{
    9005
}

/// The SMTP operation timeout, in seconds, unless configured otherwise.
pub fn default_smtp_timeout() -> (r: u64)
    ensures
        r == 3000,
{
    3000
}

/// A signing key that has been retired, with the time it expired.
#[derive(Clone, Debug)]
pub struct ServerKeysOld {
    pub value: String,
    pub expired_ts: u64,
}

/// Where the server's signing key lives, and its retired keys.
#[derive(Clone, Debug)]
pub struct ServerKeys {
    pub keyfile: String,
    pub old_keys: Option<Vec<ServerKeysOld>>,
}

/// Where the server keeps its data.
#[derive(Clone, Debug)]
pub enum StorageKind {
    PostgreSql {
        host: String,
        port: u16,
        database: String,
        schema: String,
        username: String,
        passfile: String,
    },
    Local { path: String },
}

impl Default for StorageKind {
    /// A local database file, `storage.db`.
    fn default() -> (r: StorageKind)
        ensures
            r matches StorageKind::Local { path } && path@ == "storage.db"@,
    {
        StorageKind::Local { path: String::from_str("storage.db") }
    }
}

#[derive(Clone, Debug)]
pub struct StorageConfig {
    pub kind: StorageKind,
}

/// How the SMTP connection is secured.
#[derive(Clone, Copy, Debug, PartialEq, Eq, Structural)]
pub enum SmtpTlsMode {
    /// Plaintext connect, then upgrade with STARTTLS.
    StartTls,
    /// TLS from the first byte (not supported by the session).
    ForceTls,
    /// No TLS.
    Off,
}

/// The SMTP notifier's settings: relay, security, sender, recipients,
/// subject template, credentials and per-operation timeout in seconds.
#[derive(Clone, Debug)]
pub struct SmtpNotifierConfig {
    pub host: String,
    pub port: u16,
    pub tls: SmtpTlsMode,
    pub sender: Identity,
    pub to: Identity,
    pub cc: Vec<Email>,
    pub subject: String,
    pub username: String,
    pub passfile: String,
    pub timeout: u64,
}

/// The notifiers to run, and whether a notification is sent at startup.
#[derive(Clone, Debug)]
pub struct NotifierConfig {
    pub startup_check: bool,
    pub smtp: Option<SmtpNotifierConfig>,
}

} // verus!
