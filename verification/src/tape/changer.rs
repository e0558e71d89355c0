//! Backup unit configuration and inventory listing records.
use vstd::prelude::*;

use crate::device::OptionalDeviceIdentification;

verus! {

/// Configuration of one backup unit.
pub struct CloudBackupConfig {
    pub name: String,
    pub path: String,
    pub export_slots: Option<String>,
    /// If set to true, data is ejected after backup completion.
    pub auto_eject: Option<bool>,
}

/// A backup unit's configuration together with identification attributes.
pub struct CloudBackupListEntry {
    pub config: CloudBackupConfig,
    pub info: OptionalDeviceIdentification,
}

/// Kind of an object in a backup unit's inventory.
#[derive(Clone, Copy, Debug, Eq, PartialEq, Structural)]
pub enum CloudObjectKind {
    /// Storage bucket.
    Bucket,
    /// Individual file or object.
    Object,
    /// Import/export slots.
    ImportExport,
}

/// One entry of a backup unit's inventory.
pub struct CloudObjectEntry {
    pub object_kind: CloudObjectKind,
    /// The id of the object or slot.
    pub object_id: u64,
    /// The object label (if available).
    pub label_text: Option<String>,
    /// The slot the object was retrieved from.
    pub loaded_slot: Option<u64>,
    /// The current state of the object.
    pub state: Option<String>,
}

} // verus!
