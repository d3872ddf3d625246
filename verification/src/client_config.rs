//! The core configuration of one validator client instance. Reading flags or
//! files into this record belongs to the caller.

use vstd::prelude::*;

verus! {

pub const DEFAULT_HTTP_SERVER: &'static str = "http://localhost:5052/";

pub const DEFAULT_DATA_DIR: &'static str = ".lighthouse/validators";

/// Path of the slashing protection database within the data directory.
pub const SLASHING_PROTECTION_FILENAME: &'static str = "slashing_protection.sqlite";

/// The core validator-client configuration.
#[derive(Debug, PartialEq, Eq)]
pub struct Config {
    /// The directory holding all validator databases.
    pub data_dir: String,
    /// The HTTP endpoint of the beacon node.
    pub http_server: String,
    /// Whether to poll for duties even against an unsynced beacon node.
    pub allow_unsynced_beacon_node: bool,
    /// Whether to register new keys with the slashing protection database.
    pub auto_register: bool,
    pub first_validator: usize,
    pub last_validator: usize,
}

impl Default for Config {
    /// The defaults: the local beacon endpoint, the home-relative data
    /// directory, nothing automatic, an empty validator range.
    fn default() -> (r: Self)
        ensures
            r.data_dir@ == DEFAULT_DATA_DIR@,
            r.http_server@ == DEFAULT_HTTP_SERVER@,
            !r.allow_unsynced_beacon_node,
            !r.auto_register,
            r.first_validator == 0,
            r.last_validator == 0,
    {
        Config {
            data_dir: DEFAULT_DATA_DIR.to_string(),
            http_server: DEFAULT_HTTP_SERVER.to_string(),
            allow_unsynced_beacon_node: false,
            auto_register: false,
            first_validator: 0,
            last_validator: 0,
        }
    }
}

impl Config {
    /// Whether the configured validator range is usable.
    pub fn validator_range_ok(&self) -> (r: bool)
        ensures
            r == (self.first_validator <= self.last_validator),
    {
        self.first_validator <= self.last_validator
    }
}

} // verus!
