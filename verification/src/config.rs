//! The service configuration: where to listen and where the cache lives.

use vstd::prelude::*;
use vstd::string::StrSliceExecFns;

verus! {

/// Host, port and storage root. Reading them from the environment is the
/// runtime shell's job; the defaults live here.
pub struct Config {
    pub host: String,
    pub port: String,
    pub data_dir: String,
}

impl Config {
    pub fn new(host: String, port: String, data_dir: String) -> (r: Self)
        ensures
            r.host@ == host@,
            r.port@ == port@,
            r.data_dir@ == data_dir@,
    {
        Config { host, port, data_dir }
    }

    /// The values used when the environment sets nothing.
    pub fn defaults() -> (r: Self)
        ensures
            r.host@ == "127.0.0.1"@,
            r.port@ == "8080"@,
            r.data_dir@ == "data"@,
    {
        Config {
            host: "127.0.0.1".to_owned(),
            port: "8080".to_owned(),
            data_dir: "data".to_owned(),
        }
    }
}

} // verus!
