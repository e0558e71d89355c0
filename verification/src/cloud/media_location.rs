//! Where a medium currently is: online in a storage service, offline, in a
//! vault, or in a cloud account; with the textual form used in inventories.
use vstd::prelude::*;

use crate::text::{has_prefix, str_eq, str_has_prefix, str_suffix};
use vstd::string::{StrSliceExecFns, StringExecFns};

verus! {

/// Media location.
#[derive(Debug, Clone, PartialEq, Eq)]
pub enum MediaLocation {
    /// Ready for use (inside a storage service).
    Online(String),
    /// Locally available, but needs to be synchronized.
    Offline,
    /// Media is inside a vault.
    Vault(String),
    /// Media is stored in a cloud account.
    Cloud(String),
}

/// The location text does not name any known form.
#[derive(Debug, Clone, Copy, PartialEq, Eq, Structural)]
pub struct MediaLocationParseError;

impl MediaLocation {
    /// The textual form of this location: `offline`, `online-<service>`,
    /// `vault-<vault>` or `cloud-<service>`.
    pub open spec fn spec_text(&self) -> Seq<char> {
        match self {
            MediaLocation::Offline => "offline"@,
            MediaLocation::Online(s) => "online-"@ + s@,
            MediaLocation::Vault(s) => "vault-"@ + s@,
            MediaLocation::Cloud(s) => "cloud-"@ + s@,
        }
    }

    /// Renders the location in the form `parse` reads back.
    pub fn to_text(&self) -> (r: String)
        ensures
            r@ == self.spec_text(),
    {
        match self {
            MediaLocation::Offline => String::from_str("offline"),
            MediaLocation::Online(s) => String::from_str("online-").concat(s.as_str()),
            MediaLocation::Vault(s) => String::from_str("vault-").concat(s.as_str()),
            MediaLocation::Cloud(s) => String::from_str("cloud-").concat(s.as_str()),
        }
    }

    /// Reads a location from its textual form. `offline` stands alone; the
    /// prefixes `online-`, `vault-` and `cloud-` carry the place's name; any
    /// other text is refused.
    pub fn parse(s: &str) -> (r: Result<MediaLocation, MediaLocationParseError>)
        ensures
            s@ == "offline"@ ==> r == Result::<MediaLocation, MediaLocationParseError>::Ok(
                MediaLocation::Offline,
            ),
            s@ != "offline"@ && has_prefix(s@, "online-"@) ==> (r matches Ok(
                MediaLocation::Online(l),
            ) && l@ == s@.skip("online-"@.len() as int)),
            s@ != "offline"@ && !has_prefix(s@, "online-"@) && has_prefix(s@, "vault-"@) ==> (
            r matches Ok(MediaLocation::Vault(l)) && l@ == s@.skip("vault-"@.len() as int)),
            s@ != "offline"@ && !has_prefix(s@, "online-"@) && !has_prefix(s@, "vault-"@)
                && has_prefix(s@, "cloud-"@) ==> (r matches Ok(MediaLocation::Cloud(l)) && l@
                == s@.skip("cloud-"@.len() as int)),
            r is Err <==> (s@ != "offline"@ && !has_prefix(s@, "online-"@) && !has_prefix(
                s@,
                "vault-"@,
            ) && !has_prefix(s@, "cloud-"@)),
    {
        if str_eq(s, "offline") {
            return Ok(MediaLocation::Offline);
        }
        if str_has_prefix(s, "online-") {
            let p_len = "online-".unicode_len();
            return Ok(MediaLocation::Online(str_suffix(s, p_len)));
        }
        if str_has_prefix(s, "vault-") {
            let p_len = "vault-".unicode_len();
            return Ok(MediaLocation::Vault(str_suffix(s, p_len)));
        }
        if str_has_prefix(s, "cloud-") {
            let p_len = "cloud-".unicode_len();
            return Ok(MediaLocation::Cloud(str_suffix(s, p_len)));
        }
        Err(MediaLocationParseError)
    }
}

} // verus!
