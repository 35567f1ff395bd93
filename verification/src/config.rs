//! Service configuration: the provider API key and the address the HTTP
//! server binds to.

use vstd::prelude::*;

verus! {

/// Configuration loaded at startup; every field defaults to a usable value
/// when the configuration file is absent.
pub struct MyConfig {
    pub api_key: String,
    pub host: String,
    pub port: String,
}

impl Default for MyConfig {
    /// An empty API key and the local loopback address on port 8080.
    fn default() -> (c: Self)
        ensures
            c.api_key@ == ""@,
            c.host@ == "127.0.0.1"@,
            c.port@ == "8080"@,
    {
        MyConfig {
            api_key: "".to_owned(),
            host: "127.0.0.1".to_owned(),
            port: "8080".to_owned(),
        }
    }
}

} // verus!
