use vstd::prelude::*;

verus! {

/// Controller configuration.
#[derive(Debug, Clone)]
pub struct ClientConfig {
    pub redis_url: String,
    pub base_url: String,
    pub tokens: Vec<String>,
    /// Fetcher endpoints, `host:port`.
    pub fetch_nodes: Vec<String>,
    pub plan_horizon_secs: u64,
}

/// Fetcher configuration.
#[derive(Debug, Clone)]
pub struct FetchConfig {
    pub redis_url: String,
    pub base_url: String,
    pub node_id: String,
    pub capacity_rps: u32,
    pub bind_addr: String,
}

/// Default of `plan_horizon_secs`.
pub fn default_plan_horizon() -> (r: u64)
    ensures
        r == 5,
{
    5
}

/// Default of `capacity_rps`: fetches per second one node may make.
pub fn default_capacity() -> (r: u32)
    ensures
        r == 20,
{
    20
}

/// Default of `bind_addr`.
pub fn default_bind() -> (r: String)
    ensures
        r@ == "0.0.0.0:3000"@,
{
    String::from_str("0.0.0.0:3000")
}

} // verus!
