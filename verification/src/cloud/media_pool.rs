//! Media pool policies: how media sets are allocated and how long written
//! media stay protected, plus the pool's configuration record.
//!
//! Calendar-event and time-span texts are interpreted by the scheduling
//! collaborator outside this crate; the engine reads their outcome as plain
//! values: the next time an allocation event fires, and a protection span in
//! seconds.
use vstd::prelude::*;

use crate::text::str_eq;

verus! {

/// Media set allocation policy.
#[derive(Debug, Clone, Copy, PartialEq, Eq, Structural)]
pub enum MediaSetPolicy {
    /// Try to use the current media set.
    ContinueCurrent,
    /// Each backup job creates a new media set.
    AlwaysCreate,
    /// Create a new set when the allocation schedule next fires; the field
    /// holds that time, as computed by the scheduling collaborator.
    CreateAt(i64),
}

/// Media retention policy.
#[derive(Debug, Clone, Copy, PartialEq, Eq, Structural)]
pub enum RetentionPolicy {
    /// Always overwrite media.
    OverwriteAlways,
    /// Protect written data for this many seconds after its set's creation.
    ProtectFor(u64),
    /// Never overwrite data.
    KeepForever,
}

/// The policy text is neither a fixed word nor one this crate can interpret
/// alone; schedule and span texts belong to the scheduling collaborator.
#[derive(Debug, Clone, Copy, PartialEq, Eq, Structural)]
pub struct PolicyParseError;

impl MediaSetPolicy {
    /// Reads the two fixed policy words. Any other text is a calendar event,
    /// whose firing time only the scheduling collaborator can compute; such
    /// text is refused here and `CreateAt` is built from that computed time.
    pub fn parse(s: &str) -> (r: Result<MediaSetPolicy, PolicyParseError>)
        ensures
            s@ == "continue"@ ==> r == Result::<MediaSetPolicy, PolicyParseError>::Ok(
                MediaSetPolicy::ContinueCurrent,
            ),
            s@ != "continue"@ && s@ == "always"@ ==> r == Result::<
                MediaSetPolicy,
                PolicyParseError,
            >::Ok(MediaSetPolicy::AlwaysCreate),
            r is Err <==> (s@ != "continue"@ && s@ != "always"@),
    {
        if str_eq(s, "continue") {
            return Ok(MediaSetPolicy::ContinueCurrent);
        }
        if str_eq(s, "always") {
            return Ok(MediaSetPolicy::AlwaysCreate);
        }
        Err(PolicyParseError)
    }
}

impl RetentionPolicy {
    /// Reads the two fixed policy words. Any other text is a time span,
    /// whose length in seconds only the scheduling collaborator can compute;
    /// such text is refused here and `ProtectFor` is built from that length.
    pub fn parse(s: &str) -> (r: Result<RetentionPolicy, PolicyParseError>)
        ensures
            s@ == "overwrite"@ ==> r == Result::<RetentionPolicy, PolicyParseError>::Ok(
                RetentionPolicy::OverwriteAlways,
            ),
            s@ != "overwrite"@ && s@ == "keep"@ ==> r == Result::<
                RetentionPolicy,
                PolicyParseError,
            >::Ok(RetentionPolicy::KeepForever),
            r is Err <==> (s@ != "overwrite"@ && s@ != "keep"@),
    {
        if str_eq(s, "overwrite") {
            return Ok(RetentionPolicy::OverwriteAlways);
        }
        if str_eq(s, "keep") {
            return Ok(RetentionPolicy::KeepForever);
        }
        Err(PolicyParseError)
    }
}

/// Media pool configuration.
pub struct CloudMediaPoolConfig {
    /// The pool name.
    pub name: String,
    /// Media set allocation policy text.
    pub allocation: Option<String>,
    /// Media retention policy text.
    pub retention: Option<String>,
    /// Media set naming template.
    pub template: Option<String>,
    pub comment: Option<String>,
}

} // verus!
