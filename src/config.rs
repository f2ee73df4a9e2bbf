//! Runtime configuration: where to listen and where to keep the store.

use vstd::prelude::*;

verus! {

/// Where the store's file lives.
#[derive(Debug)]
pub struct StorageConfig {
    pub path: Option<String>,
}

impl Default for StorageConfig {
    fn default() -> (r: Self)
        ensures
            r.path is None,
    {
        StorageConfig { path: None }
    }
}

/// The settings that the control plane starts with.
#[derive(Debug)]
pub struct Config {
    pub address: String,
    pub port: u16,
    pub storage: StorageConfig,
}

impl Default for Config {
    fn default() -> (r: Self)
        ensures
            r.address@ == "0.0.0.0"@,
            r.port == 8080,
            r.storage.path is None,
    {
        Config { address: String::from_str("0.0.0.0"), port: 8080, storage: StorageConfig::default() }
    }
}

/// A configuration together with the file it was read from.
pub struct ConfigFile {
    pub config: Config,
    pub path: String,
}

} // verus!
