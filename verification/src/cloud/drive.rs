//! Cloud backup store description records.
use vstd::prelude::*;

use crate::cloud::device::OptionalCloudDeviceIdentification;

verus! {

/// Configuration of a cloud backup store.
pub struct CloudBackupStoreConfig {
    /// The name of the bucket or container.
    pub container_name: String,
    /// The region of the cloud service.
    pub region: String,
    /// Cloud service endpoint (optional, for custom endpoints).
    pub service_endpoint: Option<String>,
    /// Access key for the cloud storage.
    pub access_key: String,
    /// Secret key for the cloud storage.
    pub secret_key: String,
}

/// A named cloud backup store with its configuration and identification.
pub struct CloudBackupStore {
    pub name: String,
    pub config: CloudBackupStoreConfig,
    pub info: OptionalCloudDeviceIdentification,
    /// Indicates if the cloud storage is connected.
    pub connected: Option<bool>,
}

} // verus!
