//! The settings of the server.

use vstd::prelude::*;

verus! {

/// Where the server listens and where it keeps its data.
#[derive(Debug)]
pub struct Config {
    pub addr: String,
    pub store_path: String,
}

/// The address the server listens on when none is set.
pub open spec fn default_addr() -> Seq<char> {
    "127.0.0.1:3000"@
}

/// The store path used when none is set.
pub open spec fn default_store_path() -> Seq<char> {
    "./store.json"@
}

impl Default for Config {
    fn default() -> (res: Self)
        ensures
            res.addr@ == default_addr(),
            res.store_path@ == default_store_path(),
    {
        Config { addr: "127.0.0.1:3000".to_owned(), store_path: "./store.json".to_owned() }
    }
}

impl Config {
    /// The settings given the values of `API_ADDR` and `API_STORE_PATH`
    /// (`None` when unset): each unset one takes its default.
    pub fn from_values(addr: Option<String>, store_path: Option<String>) -> (res: Self)
        ensures
            res.addr@ == match addr {
                Some(a) => a@,
                None => default_addr(),
            },
            res.store_path@ == match store_path {
                Some(p) => p@,
                None => default_store_path(),
            },
    {
        let addr = match addr {
            Some(a) => a,
            None => "127.0.0.1:3000".to_owned(),
        };
        let store_path = match store_path {
            Some(p) => p,
            None => "./store.json".to_owned(),
        };
        Config { addr, store_path }
    }
}

} // verus!
