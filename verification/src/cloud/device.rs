//! Cloud storage device description records.
use vstd::prelude::*;

verus! {

/// Optional device identification attributes.
pub struct OptionalCloudDeviceIdentification {
    /// Vendor (autodetected).
    pub vendor: Option<String>,
    /// Model (autodetected).
    pub model: Option<String>,
    /// Serial number (autodetected).
    pub serial: Option<String>,
}

/// Kind of cloud storage.
#[derive(Clone, Copy, Debug, Eq, PartialEq, Structural)]
pub enum CloudStorageKind {
    /// Object storage service.
    ObjectStorage,
    /// Block storage service.
    BlockStorage,
}

/// Cloud backup storage device information.
pub struct CloudBackupDeviceInfo {
    pub kind: CloudStorageKind,
    /// Service endpoint URL for the backup service.
    pub service_endpoint: String,
    /// Access key for the backup service.
    pub access_key: String,
    /// Secret key for the backup service.
    pub secret_key: String,
    /// Bucket or container name for the backup service.
    pub container_name: String,
    /// Region for the backup service.
    pub region: String,
    /// Optional identification attributes.
    pub optional_identification: Option<OptionalCloudDeviceIdentification>,
}

} // verus!
