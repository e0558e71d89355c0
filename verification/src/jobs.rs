//! Job configuration records and group filters: the include/exclude rules
//! that select which backup groups a job transfers.
use vstd::prelude::*;

use crate::datastore::BackupType;
use crate::text::{has_prefix, str_has_prefix, str_suffix};
use vstd::string::{StrSliceExecFns, StringExecFns};

verus! {

/// Cloud job scheduling status.
pub struct CloudJobScheduleStatus {
    pub next_run: Option<i64>,
    pub last_run_state: Option<String>,
    pub last_run_upid: Option<String>,
    pub last_run_endtime: Option<i64>,
}

/// When to send notifications for jobs.
#[derive(Clone, Copy, Debug, Eq, PartialEq, Structural)]
pub enum CloudNotify {
    /// Never send notification.
    Never,
    /// Send notifications for failed and successful jobs.
    Always,
    /// Send notifications for failed jobs only.
    Error,
}

/// Per-datastore notification settings.
pub struct CloudDatastoreNotify {
    /// Garbage collection setting.
    pub gc: Option<CloudNotify>,
    /// Verify job setting.
    pub verify: Option<CloudNotify>,
    /// Sync job setting.
    pub sync: Option<CloudNotify>,
    /// Prune job setting.
    pub prune: Option<CloudNotify>,
}

// ---------------------------------------------------------------------------
// Group filters.
// ---------------------------------------------------------------------------
/// Whether a pattern is accepted by the regular-expression engine.
pub uninterp spec fn regex_valid(pattern: Seq<char>) -> bool;

/// Whether a valid pattern matches somewhere in a text.
pub uninterp spec fn regex_match(pattern: Seq<char>, text: Seq<char>) -> bool;

/// Relies on regex::Regex::new: whether a pattern compiles depends on the
/// pattern text alone.
#[verifier::external_body]
fn regex_compiles(pattern: &str) -> (r: bool)
    ensures
        r == regex_valid(pattern@),
{
    regex::Regex::new(pattern).is_ok()
}

/// Relies on regex::Regex::new and regex::Regex::is_match: both depend on
/// the pattern and haystack texts alone. On a valid pattern the compile
/// cannot fail, so the error arm is never taken.
#[verifier::external_body]
fn regex_text_match(pattern: &str, text: &str) -> (r: bool)
    requires
        regex_valid(pattern@),
    ensures
        r == regex_match(pattern@, text@),
{
    match regex::Regex::new(pattern) {
        Ok(re) => re.is_match(text),
        Err(_) => false,
    }
}

/// A character allowed anywhere in a safe identifier.
pub open spec fn is_safe_id_char(c: char) -> bool {
    ('A' <= c && c <= 'Z') || ('a' <= c && c <= 'z') || ('0' <= c && c <= '9') || c == '_' || c
        == '.' || c == '-'
}

/// A character allowed as the first of a safe identifier.
pub open spec fn is_safe_id_start(c: char) -> bool {
    ('A' <= c && c <= 'Z') || ('a' <= c && c <= 'z') || ('0' <= c && c <= '9') || c == '_'
}

/// A safe identifier: nonempty, a word character first, then word
/// characters, dots and dashes.
pub open spec fn is_safe_id(s: Seq<char>) -> bool {
    &&& s.len() >= 1
    &&& is_safe_id_start(s[0])
    &&& forall|i: int| 1 <= i < s.len() ==> is_safe_id_char(#[trigger] s[i])
}

/// Checks the safe-identifier grammar.
pub fn check_safe_id(s: &str) -> (r: bool)
    ensures
        r == is_safe_id(s@),
{
    let n = s.unicode_len();
    if n == 0 {
        return false;
    }
    let c0 = s.get_char(0);
    if !(('A' <= c0 && c0 <= 'Z') || ('a' <= c0 && c0 <= 'z') || ('0' <= c0 && c0 <= '9') || c0
        == '_') {
        return false;
    }
    let mut i: usize = 1;
    while i < n
        invariant
            1 <= i <= n,
            n == s@.len(),
            is_safe_id_start(s@[0]),
            forall|j: int| 1 <= j < i ==> is_safe_id_char(#[trigger] s@[j]),
        decreases n - i,
    {
        let c = s.get_char(i);
        if !(('A' <= c && c <= 'Z') || ('a' <= c && c <= 'z') || ('0' <= c && c <= '9') || c == '_'
            || c == '.' || c == '-') {
            return false;
        }
        i += 1;
    }
    true
}

/// The canonical text of a group identity: `<type>/<id>`.
pub open spec fn spec_group_text(ty: BackupType, id: Seq<char>) -> Seq<char> {
    ty.spec_text() + "/"@ + id
}

/// Renders a group identity as `<type>/<id>`.
pub fn group_text(ty: BackupType, id: &str) -> (r: String)
    ensures
        r@ == spec_group_text(ty, id@),
{
    let r = String::from_str(ty.to_text()).concat("/").concat(id);
    proof {
        assert(r@ =~= spec_group_text(ty, id@));
    }
    r
}

/// A full group identifier: a backup type name, a slash, and a safe id.
/// The four type prefixes are tried in order; no text carries two of them.
pub open spec fn is_group_text(s: Seq<char>) -> bool {
    if has_prefix(s, "cloud/"@) {
        is_safe_id(s.skip("cloud/"@.len() as int))
    } else if has_prefix(s, "ct/"@) {
        is_safe_id(s.skip("ct/"@.len() as int))
    } else if has_prefix(s, "host/"@) {
        is_safe_id(s.skip("host/"@.len() as int))
    } else if has_prefix(s, "vm/"@) {
        is_safe_id(s.skip("vm/"@.len() as int))
    } else {
        false
    }
}

/// Checks the full group identifier grammar.
pub fn check_group_text(s: &str) -> (r: bool)
    ensures
        r == is_group_text(s@),
{
    if str_has_prefix(s, "cloud/") {
        let tail = str_suffix(s, "cloud/".unicode_len());
        return check_safe_id(tail.as_str());
    }
    if str_has_prefix(s, "ct/") {
        let tail = str_suffix(s, "ct/".unicode_len());
        return check_safe_id(tail.as_str());
    }
    if str_has_prefix(s, "host/") {
        let tail = str_suffix(s, "host/".unicode_len());
        return check_safe_id(tail.as_str());
    }
    if str_has_prefix(s, "vm/") {
        let tail = str_suffix(s, "vm/".unicode_len());
        return check_safe_id(tail.as_str());
    }
    false
}

/// Filter for matching backup groups.
#[derive(Clone, Debug)]
pub enum FilterType {
    /// Match by backup type.
    BackupType(BackupType),
    /// Match the full group identifier `<type>/<id>`.
    Group(String),
    /// Match the full group identifier against a regular expression.
    Regex(String),
}

impl FilterType {
    /// The filter's payload is well formed: a group filter holds a full
    /// group identifier, a regex filter a pattern the engine accepts.
    pub open spec fn wf(&self) -> bool {
        match self {
            FilterType::BackupType(_) => true,
            FilterType::Group(g) => is_group_text(g@),
            FilterType::Regex(p) => regex_valid(p@),
        }
    }

    /// The filter matches a group identity. An invalid regex pattern
    /// matches nothing.
    pub open spec fn spec_matches(&self, ty: BackupType, id: Seq<char>) -> bool {
        match self {
            FilterType::BackupType(t) => ty == t,
            FilterType::Group(g) => g@ == spec_group_text(ty, id),
            FilterType::Regex(p) => regex_valid(p@) && regex_match(p@, spec_group_text(ty, id)),
        }
    }

    /// Tests the filter against a group identity.
    pub fn matches(&self, ty: BackupType, id: &str) -> (r: bool)
        ensures
            r == self.spec_matches(ty, id@),
    {
        match self {
            FilterType::BackupType(t) => {
                let rt = ty.rank();
                let rf = t.rank();
                proof {
                    if ty.spec_rank() == t.spec_rank() {
                        assert(ty == t);
                    }
                }
                rt == rf
            },
            FilterType::Group(g) => {
                let text = group_text(ty, id);
                g.eq(&text)
            },
            FilterType::Regex(p) => {
                if regex_compiles(p.as_str()) {
                    let text = group_text(ty, id);
                    regex_text_match(p.as_str(), text.as_str())
                } else {
                    false
                }
            },
        }
    }
}

/// Parse failure of a filter text.
#[derive(Debug, Clone, Copy, PartialEq, Eq, Structural)]
pub struct GroupFilterParseError;

/// An include or exclude rule selecting backup groups.
#[derive(Clone, Debug)]
pub struct GroupFilter {
    pub is_exclude: bool,
    pub filter_type: FilterType,
}

impl GroupFilter {
    pub open spec fn wf(&self) -> bool {
        self.filter_type.wf()
    }

    pub open spec fn spec_matches(&self, ty: BackupType, id: Seq<char>) -> bool {
        self.filter_type.spec_matches(ty, id)
    }

    /// Tests the filter body against a group identity, ignoring the
    /// include/exclude direction.
    pub fn matches(&self, ty: BackupType, id: &str) -> (r: bool)
        ensures
            r == self.spec_matches(ty, id@),
    {
        self.filter_type.matches(ty, id)
    }
}

/// A group passes a filter list when no exclude filter matches it, and
/// either no include filter exists or some include filter matches it.
pub open spec fn spec_passes_filters(filters: Seq<GroupFilter>, ty: BackupType, id: Seq<char>) -> bool {
    &&& forall|i: int|
        0 <= i < filters.len() && filters[i].is_exclude ==> !(#[trigger] filters[i]).spec_matches(
            ty,
            id,
        )
    &&& ((forall|i: int| 0 <= i < filters.len() ==> (#[trigger] filters[i]).is_exclude) || exists|
        i: int,
    |
        0 <= i < filters.len() && !(#[trigger] filters[i]).is_exclude && filters[i].spec_matches(
            ty,
            id,
        ))
}

/// Applies a filter list to a group identity.
pub fn passes_filters(filters: &Vec<GroupFilter>, ty: BackupType, id: &str) -> (r: bool)
    ensures
        r == spec_passes_filters(filters@, ty, id@),
{
    let n = filters.len();
    let mut i: usize = 0;
    let mut saw_include: bool = false;
    let mut include_matched: bool = false;
    while i < n
        invariant
            i <= n,
            n == filters@.len(),
            forall|j: int|
                0 <= j < i && filters@[j].is_exclude ==> !(#[trigger] filters@[j]).spec_matches(
                    ty,
                    id@,
                ),
            saw_include == exists|j: int| 0 <= j < i && !(#[trigger] filters@[j]).is_exclude,
            include_matched == exists|j: int|
                0 <= j < i && !(#[trigger] filters@[j]).is_exclude && filters@[j].spec_matches(
                    ty,
                    id@,
                ),
        decreases n - i,
    {
        let f = &filters[i];
        let m = f.matches(ty, id);
        if f.is_exclude {
            if m {
                return false;
            }
        } else {
            saw_include = true;
            if m {
                include_matched = true;
            }
        }
        i += 1;
    }
    !saw_include || include_matched
}

impl PartialEq for FilterType {
    fn eq(&self, other: &FilterType) -> (r: bool) {
        match (self, other) {
            (FilterType::BackupType(a), FilterType::BackupType(b)) => {
                let ra = a.rank();
                let rb = b.rank();
                proof {
                    if a.spec_rank() == b.spec_rank() {
                        assert(a == b);
                    }
                }
                ra == rb
            },
            (FilterType::Group(a), FilterType::Group(b)) => a.eq(b),
            (FilterType::Regex(a), FilterType::Regex(b)) => a.eq(b),
            _ => false,
        }
    }
}

impl vstd::std_specs::cmp::PartialEqSpecImpl for FilterType {
    open spec fn obeys_eq_spec() -> bool {
        true
    }

    open spec fn eq_spec(&self, other: &FilterType) -> bool {
        match (self, other) {
            (FilterType::BackupType(a), FilterType::BackupType(b)) => a == b,
            (FilterType::Group(a), FilterType::Group(b)) => a@ == b@,
            (FilterType::Regex(a), FilterType::Regex(b)) => a@ == b@,
            _ => false,
        }
    }
}

impl PartialEq for GroupFilter {
    fn eq(&self, other: &GroupFilter) -> (r: bool) {
        self.is_exclude == other.is_exclude && self.filter_type == other.filter_type
    }
}

impl vstd::std_specs::cmp::PartialEqSpecImpl for GroupFilter {
    open spec fn obeys_eq_spec() -> bool {
        true
    }

    open spec fn eq_spec(&self, other: &GroupFilter) -> bool {
        self.is_exclude == other.is_exclude && vstd::std_specs::cmp::PartialEqSpec::eq_spec(
            &self.filter_type,
            &other.filter_type,
        )
    }
}

impl FilterType {
    /// The textual form of the filter: `type:<t>`, `group:<g>` or
    /// `regex:<re>`.
    pub open spec fn spec_text(&self) -> Seq<char> {
        match self {
            FilterType::BackupType(t) => "type:"@ + t.spec_text(),
            FilterType::Group(g) => "group:"@ + g@,
            FilterType::Regex(p) => "regex:"@ + p@,
        }
    }

    /// Renders the filter in the form `parse` reads back.
    pub fn to_text(&self) -> (r: String)
        ensures
            r@ == self.spec_text(),
    {
        match self {
            FilterType::BackupType(t) => String::from_str("type:").concat(t.to_text()),
            FilterType::Group(g) => String::from_str("group:").concat(g.as_str()),
            FilterType::Regex(p) => String::from_str("regex:").concat(p.as_str()),
        }
    }

    /// A filter body text is valid: `group:` carries a full group
    /// identifier, `type:` one of the four type names, `regex:` a pattern
    /// the engine accepts.
    pub open spec fn body_valid(s: Seq<char>) -> bool {
        if has_prefix(s, "group:"@) {
            is_group_text(s.skip("group:"@.len() as int))
        } else if has_prefix(s, "type:"@) {
            BackupType::spec_parse(s.skip("type:"@.len() as int)) is Some
        } else if has_prefix(s, "regex:"@) {
            regex_valid(s.skip("regex:"@.len() as int))
        } else {
            false
        }
    }

    /// Reads a filter body. The result, rendered back with `to_text`,
    /// gives the input again; invalid bodies are refused.
    pub fn parse(s: &str) -> (r: Result<FilterType, GroupFilterParseError>)
        ensures
            r is Ok <==> FilterType::body_valid(s@),
            r matches Ok(f) ==> f.wf() && s@ == f.spec_text(),
    {
        if str_has_prefix(s, "group:") {
            let tail = str_suffix(s, "group:".unicode_len());
            if check_group_text(tail.as_str()) {
                proof {
                    assert(s@ =~= "group:"@ + s@.skip("group:"@.len() as int));
                }
                return Ok(FilterType::Group(tail));
            }
            return Err(GroupFilterParseError);
        }
        if str_has_prefix(s, "type:") {
            let tail = str_suffix(s, "type:".unicode_len());
            match BackupType::parse(tail.as_str()) {
                Some(t) => {
                    proof {
                        assert(s@ =~= "type:"@ + s@.skip("type:"@.len() as int));
                    }
                    return Ok(FilterType::BackupType(t));
                },
                None => {
                    return Err(GroupFilterParseError);
                },
            }
        }
        if str_has_prefix(s, "regex:") {
            let tail = str_suffix(s, "regex:".unicode_len());
            if regex_compiles(tail.as_str()) {
                proof {
                    assert(s@ =~= "regex:"@ + s@.skip("regex:"@.len() as int));
                }
                return Ok(FilterType::Regex(tail));
            }
            return Err(GroupFilterParseError);
        }
        Err(GroupFilterParseError)
    }
}

impl GroupFilter {
    /// The textual form: the body, with `exclude:` in front of excludes.
    pub open spec fn spec_text(&self) -> Seq<char> {
        if self.is_exclude {
            "exclude:"@ + self.filter_type.spec_text()
        } else {
            self.filter_type.spec_text()
        }
    }

    /// Renders the filter in the form `parse` reads back.
    pub fn to_text(&self) -> (r: String)
        ensures
            r@ == self.spec_text(),
    {
        let body = self.filter_type.to_text();
        if self.is_exclude {
            String::from_str("exclude:").concat(body.as_str())
        } else {
            body
        }
    }

    /// The body part of a filter text: what follows an `include:` or
    /// `exclude:` direction, or the whole text without one.
    pub open spec fn spec_body(s: Seq<char>) -> Seq<char> {
        if has_prefix(s, "include:"@) {
            s.skip("include:"@.len() as int)
        } else if has_prefix(s, "exclude:"@) {
            s.skip("exclude:"@.len() as int)
        } else {
            s
        }
    }

    /// Reads a filter: an optional `include:` or `exclude:` direction, then
    /// the filter body. The direction of the result is `exclude:` exactly
    /// when that prefix introduced the text, and its body rendered back
    /// gives the body of the input.
    pub fn parse(s: &str) -> (r: Result<GroupFilter, GroupFilterParseError>)
        ensures
            r is Ok <==> FilterType::body_valid(GroupFilter::spec_body(s@)),
            r matches Ok(f) ==> f.wf(),
            r matches Ok(f) ==> f.is_exclude == (!has_prefix(s@, "include:"@) && has_prefix(
                s@,
                "exclude:"@,
            )),
            r matches Ok(f) ==> f.filter_type.spec_text() == GroupFilter::spec_body(s@),
    {
        if str_has_prefix(s, "include:") {
            let tail = str_suffix(s, "include:".unicode_len());
            let ft = FilterType::parse(tail.as_str())?;
            return Ok(GroupFilter { is_exclude: false, filter_type: ft });
        }
        if str_has_prefix(s, "exclude:") {
            let tail = str_suffix(s, "exclude:".unicode_len());
            let ft = FilterType::parse(tail.as_str())?;
            return Ok(GroupFilter { is_exclude: true, filter_type: ft });
        }
        let ft = FilterType::parse(s)?;
        Ok(GroupFilter { is_exclude: false, filter_type: ft })
    }
}

// ---------------------------------------------------------------------------
// Job setup and configuration records.
// ---------------------------------------------------------------------------
/// Immutable parameters of one tape backup run.
#[derive(Clone, Debug)]
pub struct TapeBackupJobSetup {
    /// Datastore to read from.
    pub store: String,
    /// Media pool to write to.
    pub pool: String,
    /// Drive to use.
    pub drive: String,
    /// Anchor namespace; the root namespace when absent.
    pub ns: Option<crate::datastore::BackupNamespace>,
    /// How deep below the anchor to look; unbounded when absent.
    pub max_depth: Option<usize>,
    /// Transfer only each group's newest snapshot.
    pub latest_only: Option<bool>,
    /// Filters selecting the groups to transfer.
    pub group_filter: Option<Vec<GroupFilter>>,
    /// Export the media set after the run.
    pub export_media_set: Option<bool>,
    /// Eject the medium after the run.
    pub eject_media: Option<bool>,
    /// Whom to notify about the result.
    pub notify_user: Option<String>,
}

/// Tape backup job.
#[derive(Clone, Debug)]
pub struct TapeBackupJobConfig {
    pub id: String,
    pub setup: TapeBackupJobSetup,
    pub comment: Option<String>,
    pub schedule: Option<String>,
}

/// Status of a tape backup job.
pub struct TapeBackupJobStatus {
    pub config: TapeBackupJobConfig,
    pub status: CloudJobScheduleStatus,
    /// Next tape used (best guess).
    pub next_media_label: Option<String>,
}

/// Cloud backup job.
#[derive(Clone, Debug)]
pub struct CloudBackupJobConfig {
    pub id: String,
    pub setup: TapeBackupJobSetup,
    pub comment: Option<String>,
    pub schedule: Option<String>,
}

/// Status of a cloud backup job.
pub struct CloudBackupJobStatus {
    pub config: CloudBackupJobConfig,
    pub status: CloudJobScheduleStatus,
    /// Next tape used (best guess).
    pub next_media_label: Option<String>,
}


/// Common pruning options: how many backups each keep-rule retains.
#[derive(Clone, Copy, Debug, Eq, PartialEq, Structural)]
pub struct KeepOptions {
    /// Number of backups to keep.
    pub keep_last: Option<u64>,
    /// Number of hourly backups to keep.
    pub keep_hourly: Option<u64>,
    /// Number of daily backups to keep.
    pub keep_daily: Option<u64>,
    /// Number of weekly backups to keep.
    pub keep_weekly: Option<u64>,
    /// Number of monthly backups to keep.
    pub keep_monthly: Option<u64>,
    /// Number of yearly backups to keep.
    pub keep_yearly: Option<u64>,
}

impl KeepOptions {
    /// A rule with a positive count is set.
    pub open spec fn spec_keeps_something(&self) -> bool {
        ||| (self.keep_last matches Some(n) && n > 0)
        ||| (self.keep_hourly matches Some(n) && n > 0)
        ||| (self.keep_daily matches Some(n) && n > 0)
        ||| (self.keep_weekly matches Some(n) && n > 0)
        ||| (self.keep_monthly matches Some(n) && n > 0)
        ||| (self.keep_yearly matches Some(n) && n > 0)
    }

    /// Whether these options retain anything at all.
    pub fn keeps_something(&self) -> (r: bool)
        ensures
            r == self.spec_keeps_something(),
    {
        let mut keep_something = false;
        if matches!(self.keep_last, Some(n) if n > 0) {
            keep_something = true;
        }
        if matches!(self.keep_hourly, Some(n) if n > 0) {
            keep_something = true;
        }
        if matches!(self.keep_daily, Some(n) if n > 0) {
            keep_something = true;
        }
        if matches!(self.keep_weekly, Some(n) if n > 0) {
            keep_something = true;
        }
        if matches!(self.keep_monthly, Some(n) if n > 0) {
            keep_something = true;
        }
        if matches!(self.keep_yearly, Some(n) if n > 0) {
            keep_something = true;
        }
        keep_something
    }
}

} // verus!
