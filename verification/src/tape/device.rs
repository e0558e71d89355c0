//! Cloud service storage description records.
use vstd::prelude::*;

verus! {

/// Optional cloud service identification attributes.
pub struct OptionalCloudServiceIdentification {
    /// Service name (autodetected).
    pub service_name: Option<String>,
    /// Service region (autodetected).
    pub region: Option<String>,
    /// Access key (autodetected).
    pub access_key: Option<String>,
    /// Account id (autodetected).
    pub account_id: Option<String>,
}

/// Kind of cloud storage.
#[derive(Clone, Copy, Debug, Eq, PartialEq, Structural)]
pub enum CloudStorageKind {
    /// Object storage service.
    ObjectStorage,
    /// File-based storage service.
    FileStorage,
}

/// Cloud storage information.
pub struct CloudStorageInfo {
    pub kind: CloudStorageKind,
    /// URL to the cloud storage service endpoint.
    pub endpoint_url: String,
    /// Access key id for authentication.
    pub access_key_id: String,
    /// Secret access key for authentication.
    pub secret_access_key: String,
    /// Service name (autodetected).
    pub service_name: String,
    /// Storage region.
    pub region: String,
    /// Maximum allowed storage capacity (in GB).
    pub max_capacity_gb: u32,
    /// Current used storage capacity (in GB).
    pub used_capacity_gb: u32,
}

} // verus!
