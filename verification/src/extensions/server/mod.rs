//! The JSON-RPC server: its configuration and the decisions made when it is built
//! and when a connection comes in.
use vstd::prelude::*;
use crate::extensions::server::proxy_get_request::ProxyGetRequestMethod;

pub mod proxy_get_request;
pub mod single;

verus! {

/// The builder of the server, from its configuration.
#[derive(Debug, Clone)]
pub struct SubwayServerBuilder {
    pub config: ServerConfig,
}

/// A path served by `GET`, answered by calling `method`.
#[derive(Debug, Clone)]
pub struct HttpMethodsConfig {
    pub path: String,
    pub method: String,
}

/// One item, or a list of them.
#[derive(Debug, Clone)]
pub enum ItemOrList<T> {
    Item(T),
    List(Vec<T>),
}

impl<T> ItemOrList<T> {
    pub open spec fn list_view(self) -> Seq<T> {
        match self {
            ItemOrList::Item(item) => seq![item],
            ItemOrList::List(list) => list@,
        }
    }

    /// The items as a list.
    pub fn into_list(self) -> (v: Vec<T>)
        ensures
            v@ == self.list_view(),
    {
        match self {
            ItemOrList::Item(item) => {
                let mut v = Vec::new();
                v.push(item);
                v
            },
            ItemOrList::List(list) => list,
        }
    }
}

/// The server's configuration.
#[derive(Debug, Clone)]
pub struct ServerConfig {
    pub port: u16,
    pub listen_address: String,
    pub max_connections: u32,
    pub max_subscriptions_per_connection: u32,
    pub max_batch_size: Option<u32>,
    pub http_methods: Vec<HttpMethodsConfig>,
    pub request_timeout_seconds: u64,
    pub cors: Option<ItemOrList<String>>,
}

/// How long a request may take when the configuration says nothing.
pub fn default_request_timeout_seconds() -> (s: u64)
    ensures
        s == 120,
{
    120
}

/// How many subscriptions a connection may hold when the configuration says nothing.
pub fn default_max_subscriptions_per_connection() -> (n: u32)
    ensures
        n == 1024,
{
    1024
}

impl SubwayServerBuilder {
    pub fn new(config: ServerConfig) -> (b: Self)
        ensures
            b.config == config,
    {
        SubwayServerBuilder { config }
    }
}

/// Which origins the server lets in (CORS).
#[derive(Debug)]
pub enum CorsPolicy {
    /// No origin configured: the default policy.
    Default,
    /// Any origin (`*` or `all`).
    Permissive,
    /// Just these origins.
    List(Vec<String>),
}

/// The CORS policy of the configured origins: none gives the default policy, the one
/// origin `*` or `all` lets any origin in, any other list lets in just its origins.
pub fn cors_policy(cors: Option<ItemOrList<String>>) -> (p: CorsPolicy)
    ensures
        ({
            let origins = match cors {
                Some(c) => c.list_view(),
                None => Seq::<String>::empty(),
            };
            &&& origins.len() == 0 ==> p is Default
            &&& (origins.len() == 1 && (origins[0]@ == "*"@ || origins[0]@ == "all"@)) ==> p is Permissive
            &&& !(origins.len() == 0 || (origins.len() == 1 && (origins[0]@ == "*"@ || origins[0]@ == "all"@)))
                ==> (p matches CorsPolicy::List(l) && l@ == origins)
        }),
{
    let origins = match cors {
        Some(c) => c.into_list(),
        None => Vec::new(),
    };
    if origins.len() == 0 {
        CorsPolicy::Default
    } else if origins.len() == 1 && (is_text(origins[0].as_str(), "*") || is_text(origins[0].as_str(), "all")) {
        CorsPolicy::Permissive
    } else {
        CorsPolicy::List(origins)
    }
}

/// Whether `a` and `b` are the same text.
pub fn is_text(a: &str, b: &str) -> (r: bool)
    ensures
        r == (a@ == b@),
{
    crate::config::keys::compare_keys(a, b) == crate::config::keys::KeyOrder::Equal
}

/// How the server treats batch requests.
#[derive(Debug, Clone, Copy, PartialEq, Eq, Structural)]
pub enum BatchPolicy {
    Disabled,
    Limit(u32),
    Unlimited,
}

/// The batch policy of a maximum batch size: 0 disables batches, another size limits
/// them, none leaves them unlimited.
pub fn batch_policy(max_batch_size: Option<u32>) -> (p: BatchPolicy)
    ensures
        p == match max_batch_size {
            Some(0) => BatchPolicy::Disabled,
            Some(n) => BatchPolicy::Limit(n),
            None => BatchPolicy::Unlimited,
        },
{
    match max_batch_size {
        Some(0) => BatchPolicy::Disabled,
        Some(n) => BatchPolicy::Limit(n),
        None => BatchPolicy::Unlimited,
    }
}

/// The transport of a connection.
#[derive(Debug, Clone, Copy, PartialEq, Eq, Structural)]
pub enum Protocol {
    Ws,
    Http,
}

impl Protocol {
    /// The transport of a connection that is, or is not, a websocket upgrade.
    pub fn of_connection(is_websocket: bool) -> (p: Protocol)
        ensures
            p == if is_websocket { Protocol::Ws } else { Protocol::Http },
    {
        if is_websocket {
            Protocol::Ws
        } else {
            Protocol::Http
        }
    }

    /// The label of the transport in metrics.
    pub fn to_string(&self) -> (s: String)
        ensures
            s@ == match *self {
                Protocol::Ws => "ws"@,
                Protocol::Http => "http"@,
            },
    {
        match self {
            Protocol::Ws => String::from_str("ws"),
            Protocol::Http => String::from_str("http"),
        }
    }
}

/// The IP that a connection is rate limited by: the one that `X-Forwarded-For` gives
/// when the rate limits say to use it and the header gives one, else the socket's.
pub fn connection_ip(socket_ip: String, use_xff: Option<bool>, forwarded_ip: Option<String>) -> (ip: String)
    ensures
        ip == if use_xff == Some(true) && forwarded_ip is Some { forwarded_ip.unwrap() } else { socket_ip },
{
    match use_xff {
        Some(true) => match forwarded_ip {
            Some(f) => f,
            None => socket_ip,
        },
        _ => socket_ip,
    }
}

/// The paths served by `GET`, as the proxy takes them, in order.
pub fn proxy_methods(http_methods: &Vec<HttpMethodsConfig>) -> (v: Vec<ProxyGetRequestMethod>)
    ensures
        v@.len() == http_methods@.len(),
        forall|i: int| 0 <= i < v@.len() ==> #[trigger] v@[i].path@ == http_methods@[i].path@
            && v@[i].method@ == http_methods@[i].method@,
{
    let mut v: Vec<ProxyGetRequestMethod> = Vec::new();
    let mut i: usize = 0;
    while i < http_methods.len()
        invariant
            i <= http_methods.len(),
            v@.len() == i,
            forall|k: int| 0 <= k < i ==> #[trigger] v@[k].path@ == http_methods@[k].path@
                && v@[k].method@ == http_methods@[k].method@,
        decreases http_methods.len() - i,
    {
        let m = &http_methods[i];
        v.push(ProxyGetRequestMethod { path: m.path.clone(), method: m.method.clone() });
        i = i + 1;
    }
    v
}

} // verus!
