use vstd::prelude::*;

verus! {

/// Web server configuration: the address the listener binds to.
#[derive(Debug)]
pub struct WebConfig {
    pub addr: String,
}

/// Cache configuration: the connection string of the key-value store.
#[derive(Debug)]
pub struct RedisConfig {
    pub dsn: String,
}

} // verus!
