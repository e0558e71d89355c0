//! Maintenance mode gating: which operations a store in maintenance still
//! allows, and the decoded reason text reported when one is refused.
use vstd::prelude::*;

verus! {

/// What an operation needs from the store.
#[derive(Clone, Copy, Debug, Eq, PartialEq, Structural)]
pub enum Operation {
    /// Reads backup data or metadata.
    Read,
    /// Creates or deletes backup data.
    Write,
    /// Touches only in-memory state.
    Lookup,
}

/// Kind of maintenance a store can be placed under.
#[derive(Clone, Copy, Debug, Eq, PartialEq, Structural)]
pub enum MaintenanceType {
    /// Only read operations are allowed.
    ReadOnly,
    /// Neither read nor write operations are allowed.
    Offline,
    /// The store is being deleted or reconfigured.
    Delete,
}

/// Why `MaintenanceMode::check` refused an operation. The message variants
/// carry the percent-decoded reason text of the mode.
#[derive(Clone, Debug)]
pub enum MaintenanceError {
    /// The store is being deleted; nothing is allowed.
    Delete,
    /// The store is offline.
    Offline(String),
    /// The store is read-only and a write was attempted.
    ReadOnly(String),
}

/// The result of percent-decoding a piece of text and reading it as UTF-8,
/// with undecodable input read as the empty string.
pub uninterp spec fn percent_decoded(s: Seq<char>) -> Seq<char>;

/// Relies on percent_encoding::percent_decode_str and
/// PercentDecode::decode_utf8: both depend on the input text alone; input
/// that does not decode to UTF-8 is replaced by the empty string here.
#[verifier::external_body]
fn percent_decode_text(s: &str) -> (r: String)
    ensures
        r@ == percent_decoded(s@),
{
    match percent_encoding::percent_decode_str(s).decode_utf8() {
        Ok(cow) => cow.into_owned(),
        Err(_) => String::new(),
    }
}

/// A maintenance marker on a store: the kind of maintenance and an optional
/// percent-encoded reason.
pub struct MaintenanceMode {
    ty: MaintenanceType,
    message: Option<String>,
}

impl MaintenanceMode {
    pub closed spec fn spec_ty(&self) -> MaintenanceType {
        self.ty
    }

    pub closed spec fn spec_message(&self) -> Option<String> {
        self.message
    }

    /// The raw (still percent-encoded) reason text, or empty when none is set.
    pub open spec fn spec_raw_message(&self) -> Seq<char> {
        match self.spec_message() {
            Some(m) => m@,
            None => Seq::<char>::empty(),
        }
    }

    pub fn new(ty: MaintenanceType, message: Option<String>) -> (r: MaintenanceMode)
        ensures
            r.spec_ty() == ty,
            r.spec_message() == message,
    {
        MaintenanceMode { ty, message }
    }

    /// Whether `check` lets an attempted operation through, as a predicate:
    /// deletion refuses everything; lookups pass any other maintenance;
    /// offline refuses the rest; read-only refuses writes.
    pub open spec fn allows(&self, operation: Option<Operation>) -> bool {
        &&& self.spec_ty() != MaintenanceType::Delete
        &&& (operation != Some(Operation::Lookup) ==> {
            &&& self.spec_ty() != MaintenanceType::Offline
            &&& !(self.spec_ty() == MaintenanceType::ReadOnly && operation == Some(
                Operation::Write,
            ))
        })
    }

    /// Checks the maintenance mode against an attempted operation.
    pub fn check(&self, operation: Option<Operation>) -> (r: Result<(), MaintenanceError>)
        ensures
            r is Ok <==> self.allows(operation),
            self.spec_ty() == MaintenanceType::Delete ==> r == Result::<
                (),
                MaintenanceError,
            >::Err(MaintenanceError::Delete),
            r matches Err(MaintenanceError::Offline(m)) ==> m@ == percent_decoded(
                self.spec_raw_message(),
            ),
            r matches Err(MaintenanceError::ReadOnly(m)) ==> m@ == percent_decoded(
                self.spec_raw_message(),
            ),
            !self.allows(operation) && self.spec_ty() == MaintenanceType::Offline ==> (r matches
                Err(MaintenanceError::Offline(_))),
            !self.allows(operation) && self.spec_ty() == MaintenanceType::ReadOnly ==> (r matches
                Err(MaintenanceError::ReadOnly(_))),
    {
        if self.ty == MaintenanceType::Delete {
            return Err(MaintenanceError::Delete);
        }

        let message = match &self.message {
            Some(m) => percent_decode_text(m.as_str()),
            None => {
                proof {
                    reveal_strlit("");
                    assert(""@ =~= Seq::<char>::empty());
                }
                percent_decode_text("")
            },
        };

        if let Some(Operation::Lookup) = operation {
            return Ok(());
        } else if self.ty == MaintenanceType::Offline {
            return Err(MaintenanceError::Offline(message));
        } else if self.ty == MaintenanceType::ReadOnly {
            if let Some(Operation::Write) = operation {
                return Err(MaintenanceError::ReadOnly(message));
            }
        }
        Ok(())
    }
}

} // verus!
