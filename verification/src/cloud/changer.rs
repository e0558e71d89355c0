//! Cloud backup target configuration record.
use vstd::prelude::*;

verus! {

/// Connection settings of one cloud backup target.
pub struct CloudBackupConfig {
    pub provider: String,
    pub access_key_id: Option<String>,
    pub secret_access_key: Option<String>,
    pub region: Option<String>,
    pub bucket_name: String,
    pub container_name: String,
    pub blob_prefix: Option<String>,
    pub export_data: Option<String>,
}

} // verus!
