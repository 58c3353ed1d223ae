use vstd::prelude::*;

verus! {

/// The address of the cache store where the configuration names none.
pub const DEFAULT_REDIS_SERVER: &'static str = "redis://127.0.0.1/";

/// The address of the cache store where the configuration names none.
pub fn get_default_redis_server() -> (r: String)
    ensures
        r@ == DEFAULT_REDIS_SERVER@,
{
    DEFAULT_REDIS_SERVER.to_owned()
}

/// Where the server listens, and where its cache store is.
pub struct HttpServerConfigure {
    address: String,
    port: u16,
    redis_address: String,
}

/// What an `HttpServerConfigure` holds.
pub struct HttpServerConfigureView {
    pub address: Seq<char>,
    pub port: u16,
    pub redis_address: Seq<char>,
}

impl View for HttpServerConfigure {
    type V = HttpServerConfigureView;

    closed spec fn view(&self) -> HttpServerConfigureView {
        HttpServerConfigureView {
            address: self.address@,
            port: self.port,
            redis_address: self.redis_address@,
        }
    }
}

impl HttpServerConfigure {
    pub fn new(address: String, port: u16, redis_address: String) -> (r: Self)
        ensures
            r@ == (HttpServerConfigureView {
                address: address@,
                port,
                redis_address: redis_address@,
            }),
    {
        HttpServerConfigure { address, port, redis_address }
    }

    pub fn address(&self) -> (r: &str)
        ensures
            r@ == self@.address,
    {
        self.address.as_str()
    }

    pub fn port(&self) -> (r: u16)
        ensures
            r == self@.port,
    {
        self.port
    }

    pub fn redis_address(&self) -> (r: &str)
        ensures
            r@ == self@.redis_address,
    {
        self.redis_address.as_str()
    }
}

impl Clone for HttpServerConfigure {
    fn clone(&self) -> (r: Self)
        ensures
            r@ == self@,
    {
        HttpServerConfigure {
            address: self.address.clone(),
            port: self.port,
            redis_address: self.redis_address.clone(),
        }
    }
}

impl Default for HttpServerConfigure {
    fn default() -> (r: Self)
        ensures
            r@ == (HttpServerConfigureView {
                address: "127.0.0.1"@,
                port: 23365,
                redis_address: DEFAULT_REDIS_SERVER@,
            }),
    {
        HttpServerConfigure {
            address: "127.0.0.1".to_owned(),
            port: 23365,
            redis_address: DEFAULT_REDIS_SERVER.to_owned(),
        }
    }
}

} // verus!
