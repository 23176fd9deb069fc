//! Values exchanged with visualization clients and the server's settings.
use vstd::prelude::*;
use crate::model::{GraphEdge, GraphNode};

verus! {

/// The full graph, sent once on connect and on resync.
#[derive(Clone, Debug)]
pub struct GraphData {
    pub nodes: Vec<GraphNode>,
    pub edges: Vec<GraphEdge>,
    pub sequence: u64,
}

/// The answer of the health endpoint.
#[derive(Clone, Debug)]
pub struct HealthResponse {
    pub status: String,
    pub version: String,
}

impl HealthResponse {
    /// A healthy answer for the given version.
    pub fn ok(version: String) -> (r: HealthResponse)
        ensures
            r.status@ == "ok"@,
            r.version@ == version@,
    {
        HealthResponse { status: "ok".to_owned(), version }
    }
}

/// Where the server listens.
#[derive(Clone, Debug)]
pub struct ServerConfig {
    pub port: u16,
    pub host: String,
}

impl Default for ServerConfig {
    fn default() -> (r: ServerConfig)
        ensures
            r.port == 7890,
            r.host@ == "127.0.0.1"@,
    {
        ServerConfig { port: 7890, host: "127.0.0.1".to_owned() }
    }
}

} // verus!
