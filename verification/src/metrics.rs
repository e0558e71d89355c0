//! Metric-server configuration records.
use vstd::prelude::*;

verus! {

/// Default for the `enable` flag of a metrics server.
pub fn return_true() -> (r: bool)
    ensures
        r,
{
    true
}

/// Whether a flag still has its default value, used to elide it on output.
pub fn is_true(b: &bool) -> (r: bool)
    ensures
        r == *b,
{
    *b
}

/// Metrics server reached over UDP.
pub struct CloudMetricsUdp {
    pub name: String,
    /// Enables or disables the metrics server.
    pub enable: bool,
    /// The endpoint host and port.
    pub endpoint: String,
    /// The MTU.
    pub mtu: Option<u16>,
    pub comment: Option<String>,
}

/// Metrics server reached over HTTP(s).
pub struct CloudMetricsHttp {
    pub name: String,
    /// Enables or disables the metrics server.
    pub enable: bool,
    /// The base url of the server.
    pub url: String,
    /// The (optional) API token.
    pub token: Option<String>,
    pub bucket: Option<String>,
    pub organization: Option<String>,
    /// The (optional) maximum body size.
    pub max_body_size: Option<usize>,
    /// If true, the certificate will be validated.
    pub verify_tls: Option<bool>,
    pub comment: Option<String>,
}

/// Type of a metrics server.
#[derive(Clone, Copy, Debug, Eq, PartialEq, Structural)]
pub enum MetricServerType {
    /// Reached over HTTP(s).
    CloudHttp,
    /// Reached over UDP.
    CloudUdp,
}

/// Basic information about a metrics server.
pub struct MetricServerInfo {
    pub name: String,
    pub ty: MetricServerType,
    /// Enables or disables the metrics server.
    pub enable: Option<bool>,
    /// The target server.
    pub server: String,
    pub comment: Option<String>,
}

} // verus!
