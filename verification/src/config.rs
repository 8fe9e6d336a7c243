//! Where the database lives.

use vstd::prelude::*;
use vstd::std_specs::convert::FromSpecImpl;

verus! {

/// The part of a client's configuration that the store reads.
#[derive(Clone, Debug, PartialEq, Eq)]
pub struct ClientConfig {
    pub store_path: String,
}

/// The path of the database file. Nothing is checked of it before the file
/// is opened.
#[derive(Clone, Debug, PartialEq, Eq)]
pub struct StoreConfig {
    pub path: String,
}

impl StoreConfig {
    /// The path of the database file.
    pub fn path(&self) -> (path: &str)
        ensures
            path@ == self.path@,
    {
        self.path.as_str()
    }
}

impl From<&ClientConfig> for StoreConfig {
    /// Takes the path of the store from the client's configuration.
    fn from(config: &ClientConfig) -> (store: StoreConfig) {
        StoreConfig { path: config.store_path.clone() }
    }
}

impl FromSpecImpl<&ClientConfig> for StoreConfig {
    open spec fn obeys_from_spec() -> bool {
        true
    }

    open spec fn from_spec(config: &ClientConfig) -> StoreConfig {
        StoreConfig { path: config.store_path }
    }
}

} // verus!
