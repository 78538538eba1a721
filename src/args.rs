//! Command-line arguments of the server program, as plain data.

use vstd::prelude::*;

verus! {

/// How much the server logs.
#[derive(Clone, Copy, Debug, PartialEq, Eq, Structural)]
pub enum LogLevel {
    Trace,
    Debug,
    Info,
    Warn,
    Error,
}

/// Run the server.
#[derive(Clone, Debug)]
pub struct ServerArguments {
    /// Path of the YAML configuration file.
    pub config_path: String,
    pub log_level: LogLevel,
    /// Whether log lines carry the thread id.
    pub log_thread_id: bool,
}

/// Generate a signing key pair into `path`, named `name` or at random.
#[derive(Clone, Debug)]
pub struct GenKeyArguments {
    pub name: Option<String>,
    pub path: String,
}

/// Key management commands.
#[derive(Clone, Debug)]
pub enum CryptoArguments {
    Genkey(GenKeyArguments),
}

/// The program's commands.
#[derive(Clone, Debug)]
pub enum Arguments {
    Server(ServerArguments),
    Crypto(CryptoArguments),
}

} // verus!
