//! Where backup data lives: a cloud bucket, local storage, or a vault; with
//! the textual form used in listings.
use vstd::prelude::*;

use crate::text::{has_prefix, str_eq, str_has_prefix, str_suffix};
use vstd::string::{StrSliceExecFns, StringExecFns};

verus! {

/// Backup data location.
#[derive(Debug, Clone, PartialEq, Eq)]
pub enum BackupLocation {
    /// Data is available in a cloud storage bucket.
    Cloud(String),
    /// Local storage, available for upload.
    Local,
    /// Archived in a specific storage vault.
    Vault(String),
}

/// The location text does not name any known form.
#[derive(Debug, Clone, Copy, PartialEq, Eq, Structural)]
pub struct BackupLocationParseError;

impl BackupLocation {
    /// The textual form of this location: `local`, `cloud-<bucket>` or
    /// `vault-<vault>`.
    pub open spec fn spec_text(&self) -> Seq<char> {
        match self {
            BackupLocation::Local => "local"@,
            BackupLocation::Cloud(s) => "cloud-"@ + s@,
            BackupLocation::Vault(s) => "vault-"@ + s@,
        }
    }

    /// Renders the location in the form `parse` reads back.
    pub fn to_text(&self) -> (r: String)
        ensures
            r@ == self.spec_text(),
    {
        match self {
            BackupLocation::Local => String::from_str("local"),
            BackupLocation::Cloud(s) => String::from_str("cloud-").concat(s.as_str()),
            BackupLocation::Vault(s) => String::from_str("vault-").concat(s.as_str()),
        }
    }

    /// Reads a location from its textual form. `local` stands alone; the
    /// prefixes `cloud-` and `vault-` carry the place's name; any other text
    /// is refused.
    pub fn parse(s: &str) -> (r: Result<BackupLocation, BackupLocationParseError>)
        ensures
            s@ == "local"@ ==> r == Result::<BackupLocation, BackupLocationParseError>::Ok(
                BackupLocation::Local,
            ),
            s@ != "local"@ && has_prefix(s@, "cloud-"@) ==> (r matches Ok(BackupLocation::Cloud(l))
                && l@ == s@.skip("cloud-"@.len() as int)),
            s@ != "local"@ && !has_prefix(s@, "cloud-"@) && has_prefix(s@, "vault-"@) ==> (
            r matches Ok(BackupLocation::Vault(l)) && l@ == s@.skip("vault-"@.len() as int)),
            r is Err <==> (s@ != "local"@ && !has_prefix(s@, "cloud-"@) && !has_prefix(
                s@,
                "vault-"@,
            )),
    {
        if str_eq(s, "local") {
            return Ok(BackupLocation::Local);
        }
        if str_has_prefix(s, "cloud-") {
            let p_len = "cloud-".unicode_len();
            return Ok(BackupLocation::Cloud(str_suffix(s, p_len)));
        }
        if str_has_prefix(s, "vault-") {
            let p_len = "vault-".unicode_len();
            return Ok(BackupLocation::Vault(str_suffix(s, p_len)));
        }
        Err(BackupLocationParseError)
    }
}

} // verus!
