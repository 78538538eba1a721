//! The server-key document the federation API publishes.

use std::collections::HashMap;
use vstd::prelude::*;

verus! {

/// A current public verification key.
#[derive(Clone, Debug)]
pub struct VerifyKey {
    pub key: String,
}

/// A retired verification key and when it expired.
#[derive(Clone, Debug)]
pub struct OldKey {
    pub expired_ts: u64,
    pub key: String,
}

/// The keys of this server: current ones by id, until when they are valid,
/// and retired ones by id.
pub struct ServerKeyResponse {
    pub server_name: String,
    pub keys: HashMap<String, VerifyKey>,
    pub valid_until_ts: u64,
    pub ols_verify_keys: HashMap<String, OldKey>,
}

} // verus!
