//! Backup device description records.
use vstd::prelude::*;

verus! {

/// Optional device identification attributes.
pub struct OptionalDeviceIdentification {
    /// Vendor (autodetected).
    pub vendor: Option<String>,
    /// Model (autodetected).
    pub model: Option<String>,
    /// Serial number (autodetected).
    pub serial: Option<String>,
}

/// Kind of device.
#[derive(Clone, Copy, Debug, Eq, PartialEq, Structural)]
pub enum DeviceKind {
    /// Tape changer (autoloader, robot).
    Changer,
    /// Normal SCSI tape device.
    Tape,
}

/// Backup device information.
pub struct CloudBackupDeviceInfo {
    pub kind: DeviceKind,
    /// Path to the backup service.
    pub service_path: String,
    /// Access key for the backup service.
    pub access_key: String,
    /// Secret key for the backup service.
    pub secret_key: String,
    /// Bucket name for the backup service.
    pub bucket_name: String,
    /// Region for the backup service.
    pub region: String,
}

} // verus!
