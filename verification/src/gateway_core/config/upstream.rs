//! Upstream configuration.

use vstd::prelude::*;

verus! {

/// An upstream id (kebab-case).
pub type UpstreamId = String;

/// One upstream.
#[derive(Debug, Clone)]
pub struct UpstreamConfig {
    pub id: UpstreamId,
    pub provider: String,
    pub base_url: String,
    pub api_key: String,
    pub load_balancer: LoadBalancer,
    pub models: Vec<String>,
}

/// How requests spread over an upstream's instances.
#[derive(Debug, Clone, PartialEq, Eq, Structural)]
pub enum LoadBalancer {
    RoundRobin,
    Random,
}

impl Default for LoadBalancer {
    /// Round robin.
    fn default() -> (lb: Self)
        ensures
            lb == LoadBalancer::RoundRobin,
    {
        LoadBalancer::RoundRobin
    }
}

} // verus!
