//! Privileges, roles, and the capability check the job engine consults
//! before touching any hardware: a single (identity, path, privilege)
//! membership test against injected access-control entries.
use vstd::prelude::*;

use crate::text::str_eq;

verus! {

/// Cloud.Audit allows reading cloud backup configuration and status.
pub const PRIV_CLOUD_AUDIT: u64 = 1u64 << 0;

/// Cloud.Modify allows modifying cloud backup configuration.
pub const PRIV_CLOUD_MODIFY: u64 = 1u64 << 1;

/// Cloud.Backup allows creating new backups in the cloud.
pub const PRIV_CLOUD_BACKUP: u64 = 1u64 << 2;

/// Cloud.Restore allows restoring backups from the cloud.
pub const PRIV_CLOUD_RESTORE: u64 = 1u64 << 3;

/// Cloud.Delete allows deleting backups from the cloud.
pub const PRIV_CLOUD_DELETE: u64 = 1u64 << 4;

/// Datastore.Read allows reading a datastore's contents.
pub const PRIV_DATASTORE_READ: u64 = 1u64 << 5;

/// Tape.Audit allows reading tape configuration and status.
pub const PRIV_TAPE_AUDIT: u64 = 1u64 << 6;

/// Tape.Write allows writing to tape media and pools.
pub const PRIV_TAPE_WRITE: u64 = 1u64 << 7;

/// Admin always has all privileges.
pub const ROLE_ADMIN: u64 = u64::MAX;

/// NoAccess can be used to remove privileges from specific (sub-)paths.
pub const ROLE_NO_ACCESS: u64 = 0;

/// Cloud.Audit can view configuration and status, but not modify it.
pub const ROLE_CLOUD_AUDIT: u64 = PRIV_CLOUD_AUDIT;

/// Cloud.Admin can do anything on the cloud backup.
pub const ROLE_CLOUD_ADMIN: u64 = PRIV_CLOUD_AUDIT | PRIV_CLOUD_MODIFY | PRIV_CLOUD_BACKUP
    | PRIV_CLOUD_RESTORE | PRIV_CLOUD_DELETE;

/// Cloud.User can perform backup and restore operations.
pub const ROLE_CLOUD_USER: u64 = PRIV_CLOUD_BACKUP | PRIV_CLOUD_RESTORE;

/// Roles, each a fixed combination of privileges.
#[derive(Clone, Copy, Debug, Eq, PartialEq, Structural)]
pub enum Role {
    /// Administrator.
    Admin,
    /// Disable access.
    NoAccess,
    /// Cloud auditor.
    CloudAudit,
    /// Cloud administrator.
    CloudAdmin,
    /// Cloud user (performs backups and restores).
    CloudUser,
}

impl Role {
    /// The privilege set this role grants.
    pub open spec fn spec_privileges(self) -> u64 {
        match self {
            Role::Admin => ROLE_ADMIN,
            Role::NoAccess => ROLE_NO_ACCESS,
            Role::CloudAudit => ROLE_CLOUD_AUDIT,
            Role::CloudAdmin => ROLE_CLOUD_ADMIN,
            Role::CloudUser => ROLE_CLOUD_USER,
        }
    }

    pub fn privileges(self) -> (r: u64)
        ensures
            r == self.spec_privileges(),
    {
        match self {
            Role::Admin => ROLE_ADMIN,
            Role::NoAccess => ROLE_NO_ACCESS,
            Role::CloudAudit => ROLE_CLOUD_AUDIT,
            Role::CloudAdmin => ROLE_CLOUD_ADMIN,
            Role::CloudUser => ROLE_CLOUD_USER,
        }
    }
}

/// The names of the privileges set in `privs`, in declaration order.
pub open spec fn spec_priv_names(privs: u64) -> Seq<&'static str> {
    let s0: Seq<&'static str> = if privs & PRIV_CLOUD_AUDIT != 0 {
        seq!["Cloud.Audit"]
    } else {
        Seq::empty()
    };
    let s1: Seq<&'static str> = if privs & PRIV_CLOUD_MODIFY != 0 {
        seq!["Cloud.Modify"]
    } else {
        Seq::empty()
    };
    let s2: Seq<&'static str> = if privs & PRIV_CLOUD_BACKUP != 0 {
        seq!["Cloud.Backup"]
    } else {
        Seq::empty()
    };
    let s3: Seq<&'static str> = if privs & PRIV_CLOUD_RESTORE != 0 {
        seq!["Cloud.Restore"]
    } else {
        Seq::empty()
    };
    let s4: Seq<&'static str> = if privs & PRIV_CLOUD_DELETE != 0 {
        seq!["Cloud.Delete"]
    } else {
        Seq::empty()
    };
    s0 + s1 + s2 + s3 + s4
}

/// Lists the names of the cloud privileges set in `privs`.
pub fn privs_to_priv_names(privs: u64) -> (r: Vec<&'static str>)
    ensures
        r@ == spec_priv_names(privs),
{
    let mut names: Vec<&'static str> = Vec::new();
    if privs & PRIV_CLOUD_AUDIT != 0 {
        names.push("Cloud.Audit");
    }
    if privs & PRIV_CLOUD_MODIFY != 0 {
        names.push("Cloud.Modify");
    }
    if privs & PRIV_CLOUD_BACKUP != 0 {
        names.push("Cloud.Backup");
    }
    if privs & PRIV_CLOUD_RESTORE != 0 {
        names.push("Cloud.Restore");
    }
    if privs & PRIV_CLOUD_DELETE != 0 {
        names.push("Cloud.Delete");
    }
    proof {
        assert(names@ =~= spec_priv_names(privs));
    }
    names
}

/// ACL list entry.
pub struct AclListItem {
    pub path: String,
    pub ugid: String,
    pub ugid_type: String,
    pub propagate: bool,
    pub roleid: String,
}

/// One granted capability: an identity holds privileges on a resource path.
pub struct AclEntry {
    pub auth_id: String,
    pub path: Vec<String>,
    pub privs: u64,
}

/// The access-control collaborator, injected as plain data: the set of
/// capabilities granted to identities on resource paths.
pub struct AccessControl {
    pub entries: Vec<AclEntry>,
}

/// Componentwise equality of two resource paths.
pub fn path_eq(a: &Vec<String>, b: &Vec<String>) -> (r: bool)
    ensures
        r <==> a.deep_view() =~= b.deep_view(),
{
    if a.len() != b.len() {
        return false;
    }
    let n = a.len();
    let mut i: usize = 0;
    while i < n
        invariant
            n == a.len(),
            a.len() == b.len(),
            i <= n,
            forall|j: int| 0 <= j < i ==> a.deep_view()[j] == b.deep_view()[j],
        decreases n - i,
    {
        if !str_eq(a[i].as_str(), b[i].as_str()) {
            assert(a.deep_view()[i as int] != b.deep_view()[i as int]);
            return false;
        }
        i += 1;
    }
    proof {
        assert(a.deep_view() =~= b.deep_view());
    }
    true
}

impl AccessControl {
    /// The identity holds all bits of `required` on `path`.
    pub open spec fn spec_has_privs(
        &self,
        auth_id: Seq<char>,
        path: Seq<Seq<char>>,
        required: u64,
    ) -> bool {
        exists|i: int|
            0 <= i < self.entries@.len() && {
                let e = #[trigger] self.entries@[i];
                &&& e.auth_id@ == auth_id
                &&& e.path.deep_view() == path
                &&& e.privs & required == required
            }
    }

    /// The single capability-check primitive: does `auth_id` hold all bits
    /// of `required` on `path`?
    pub fn check_privs(&self, auth_id: &str, path: &Vec<String>, required: u64) -> (r: bool)
        ensures
            r == self.spec_has_privs(auth_id@, path.deep_view(), required),
    {
        let n = self.entries.len();
        let mut i: usize = 0;
        while i < n
            invariant
                n == self.entries@.len(),
                i <= n,
                forall|j: int|
                    0 <= j < i ==> !{
                        let e = #[trigger] self.entries@[j];
                        &&& e.auth_id@ == auth_id@
                        &&& e.path.deep_view() == path.deep_view()
                        &&& e.privs & required == required
                    },
            decreases n - i,
        {
            let e = &self.entries[i];
            if str_eq(e.auth_id.as_str(), auth_id) && path_eq(&e.path, path) && (e.privs & required)
                == required {
                return true;
            }
            i += 1;
        }
        false
    }
}

} // verus!
