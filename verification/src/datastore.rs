//! Model of the datastore collaborator: namespaces, backup groups and
//! snapshots, as plain data handed to the engine, together with the total
//! order on group identities that fixes the processing order.
use vstd::prelude::*;

use crate::text::{chars_lt, lemma_chars_lt_asymmetric, lemma_chars_lt_connected,
    lemma_chars_lt_transitive, str_eq, str_lt};

verus! {

/// Type of a backup group.
#[derive(Clone, Copy, Debug, Eq, PartialEq, Structural)]
pub enum BackupType {
    /// Cloud backup.
    Cloud,
    /// Container backup.
    Ct,
    /// Host backup.
    Host,
    /// Virtual machine backup.
    Vm,
}

impl BackupType {
    /// Rank in the sort order; it equals the lexical order of the textual
    /// names `cloud`, `ct`, `host`, `vm`.
    pub open spec fn spec_rank(self) -> int {
        match self {
            BackupType::Cloud => 0,
            BackupType::Ct => 1,
            BackupType::Host => 2,
            BackupType::Vm => 3,
        }
    }

    pub fn rank(self) -> (r: u8)
        ensures
            r as int == self.spec_rank(),
    {
        match self {
            BackupType::Cloud => 0,
            BackupType::Ct => 1,
            BackupType::Host => 2,
            BackupType::Vm => 3,
        }
    }

    /// The textual name of the type.
    pub open spec fn spec_text(self) -> Seq<char> {
        match self {
            BackupType::Cloud => "cloud"@,
            BackupType::Ct => "ct"@,
            BackupType::Host => "host"@,
            BackupType::Vm => "vm"@,
        }
    }

    pub fn to_text(self) -> (r: &'static str)
        ensures
            r@ == self.spec_text(),
    {
        match self {
            BackupType::Cloud => "cloud",
            BackupType::Ct => "ct",
            BackupType::Host => "host",
            BackupType::Vm => "vm",
        }
    }

    /// The type a name denotes; exactly the four known names are accepted.
    pub open spec fn spec_parse(s: Seq<char>) -> Option<BackupType> {
        if s == "cloud"@ {
            Some(BackupType::Cloud)
        } else if s == "ct"@ {
            Some(BackupType::Ct)
        } else if s == "host"@ {
            Some(BackupType::Host)
        } else if s == "vm"@ {
            Some(BackupType::Vm)
        } else {
            None
        }
    }

    /// Reads a type name.
    pub fn parse(s: &str) -> (r: Option<BackupType>)
        ensures
            r == BackupType::spec_parse(s@),
    {
        if str_eq(s, "cloud") {
            Some(BackupType::Cloud)
        } else if str_eq(s, "ct") {
            Some(BackupType::Ct)
        } else if str_eq(s, "host") {
            Some(BackupType::Host)
        } else if str_eq(s, "vm") {
            Some(BackupType::Vm)
        } else {
            None
        }
    }
}

/// A namespace: a path of name components; the root namespace is empty.
#[derive(Clone, Debug, PartialEq, Eq)]
pub struct BackupNamespace {
    pub path: Vec<String>,
}

impl BackupNamespace {
    pub open spec fn spec_path(&self) -> Seq<Seq<char>> {
        self.path.deep_view()
    }

    pub open spec fn spec_depth(&self) -> nat {
        self.path@.len()
    }

    pub fn root() -> (r: BackupNamespace)
        ensures
            r.spec_path() =~= Seq::<Seq<char>>::empty(),
    {
        BackupNamespace { path: Vec::new() }
    }

    /// `self` lies at or below `anchor`, no more than `depth` levels deeper
    /// (`None` means unbounded).
    pub open spec fn spec_within(&self, anchor: Seq<Seq<char>>, depth: Option<usize>) -> bool {
        &&& self.spec_path().len() >= anchor.len()
        &&& self.spec_path().subrange(0, anchor.len() as int) == anchor
        &&& (depth matches Some(d) ==> self.spec_path().len() - anchor.len() <= d)
    }

    pub fn within(&self, anchor: &BackupNamespace, depth: Option<usize>) -> (r: bool)
        ensures
            r == self.spec_within(anchor.spec_path(), depth),
    {
        if self.path.len() < anchor.path.len() {
            return false;
        }
        match depth {
            Some(d) if self.path.len() - anchor.path.len() > d => {
                return false;
            },
            _ => {},
        }
        let n = anchor.path.len();
        let mut i: usize = 0;
        while i < n
            invariant
                n == anchor.path@.len(),
                i <= n,
                self.path@.len() >= n,
                forall|j: int| 0 <= j < i ==> self.spec_path()[j] == anchor.spec_path()[j],
            decreases n - i,
        {
            if !str_eq(self.path[i].as_str(), anchor.path[i].as_str()) {
                assert(self.spec_path()[i as int] != anchor.spec_path()[i as int]);
                return false;
            }
            i += 1;
        }
        proof {
            assert(self.spec_path().subrange(0, n as int) =~= anchor.spec_path());
        }
        true
    }
}

/// Identity of a backup group: its type and id.
#[derive(Clone, Debug, PartialEq, Eq)]
pub struct BackupGroup {
    pub ty: BackupType,
    pub id: String,
}

/// One chunk of content-addressed data.
#[derive(Clone, Copy, Debug, Eq, PartialEq, Structural)]
pub struct Chunk {
    /// Content digest.
    pub digest: u64,
    /// Size in bytes.
    pub size: u64,
}

/// One snapshot of a group, as the datastore reports it.
#[derive(Clone, Debug)]
pub struct SnapshotData {
    /// Backup timestamp.
    pub time: i64,
    /// Only finished snapshots are eligible for transfer.
    pub finished: bool,
    /// Opening the snapshot's reader succeeds.
    pub readable: bool,
    /// The snapshot directory is gone by transfer time.
    pub vanished: bool,
    /// The snapshot's chunks, in stream order.
    pub chunks: Vec<Chunk>,
    /// If set, the chunk reader fails before yielding the chunk at this
    /// position instead of delivering it.
    pub read_error_at: Option<usize>,
    /// Size in bytes of the snapshot's metadata archive.
    pub snapshot_archive_size: u64,
}

/// One group of a datastore, with its namespace and snapshots.
#[derive(Clone, Debug)]
pub struct GroupData {
    pub ns: BackupNamespace,
    pub group: BackupGroup,
    pub snapshots: Vec<SnapshotData>,
}

/// The datastore collaborator, as plain data.
#[derive(Clone, Debug)]
pub struct Datastore {
    pub name: String,
    pub groups: Vec<GroupData>,
}

/// Identity of one snapshot: namespace, group type and id, and timestamp.
#[derive(Clone, Debug, PartialEq, Eq)]
pub struct SnapshotRef {
    pub ns: BackupNamespace,
    pub ty: BackupType,
    pub id: String,
    pub time: i64,
}

impl SnapshotRef {
    /// The snapshot's identity as a mathematical key.
    pub open spec fn spec_key(&self) -> (Seq<Seq<char>>, BackupType, Seq<char>, int) {
        (self.ns.spec_path(), self.ty, self.id@, self.time as int)
    }

    /// Whether two references name the same snapshot.
    pub fn same(&self, other: &SnapshotRef) -> (r: bool)
        ensures
            r == (self.spec_key() == other.spec_key()),
    {
        if self.time != other.time {
            return false;
        }
        let ra = self.ty.rank();
        let rb = other.ty.rank();
        if ra != rb {
            return false;
        }
        proof {
            if self.ty.spec_rank() == other.ty.spec_rank() {
                assert(self.ty == other.ty);
            }
        }
        if !str_eq(self.id.as_str(), other.id.as_str()) {
            return false;
        }
        paths_eq_exec(&self.ns.path, &other.ns.path)
    }
}

// ---------------------------------------------------------------------------
// The order on group identities: by type, then id, then namespace path.
// ---------------------------------------------------------------------------
/// Strict lexicographic order on sequences of character sequences.
pub open spec fn paths_lt(a: Seq<Seq<char>>, b: Seq<Seq<char>>) -> bool
    decreases a.len(),
{
    if b.len() == 0 {
        false
    } else if a.len() == 0 {
        true
    } else if a[0] != b[0] {
        chars_lt(a[0], b[0])
    } else {
        paths_lt(a.drop_first(), b.drop_first())
    }
}

pub proof fn lemma_paths_lt_asymmetric(a: Seq<Seq<char>>, b: Seq<Seq<char>>)
    requires
        paths_lt(a, b),
    ensures
        !paths_lt(b, a),
    decreases a.len(),
{
    if b.len() == 0 {
    } else if a.len() == 0 {
    } else if a[0] != b[0] {
        lemma_chars_lt_asymmetric(a[0], b[0]);
    } else {
        lemma_paths_lt_asymmetric(a.drop_first(), b.drop_first());
    }
}

pub proof fn lemma_paths_lt_connected(a: Seq<Seq<char>>, b: Seq<Seq<char>>)
    requires
        !paths_lt(a, b),
        !paths_lt(b, a),
    ensures
        a == b,
    decreases a.len(),
{
    if b.len() == 0 {
        assert(a.len() == 0);
        assert(a =~= b);
    } else if a.len() == 0 {
    } else {
        if a[0] != b[0] {
            lemma_chars_lt_connected(a[0], b[0]);
        }
        lemma_paths_lt_connected(a.drop_first(), b.drop_first());
        assert(a =~= seq![a[0]] + a.drop_first());
        assert(b =~= seq![b[0]] + b.drop_first());
    }
}

pub proof fn lemma_paths_lt_transitive(a: Seq<Seq<char>>, b: Seq<Seq<char>>, c: Seq<Seq<char>>)
    requires
        paths_lt(a, b),
        paths_lt(b, c),
    ensures
        paths_lt(a, c),
    decreases a.len() + b.len() + c.len(),
{
    if c.len() == 0 {
    } else if b.len() == 0 {
    } else if a.len() == 0 {
    } else {
        if a[0] == b[0] && b[0] == c[0] {
            lemma_paths_lt_transitive(a.drop_first(), b.drop_first(), c.drop_first());
        } else if a[0] == b[0] {
            assert(chars_lt(b[0], c[0]));
        } else if b[0] == c[0] {
            assert(chars_lt(a[0], b[0]));
        } else {
            lemma_chars_lt_transitive(a[0], b[0], c[0]);
            if a[0] == c[0] {
                lemma_chars_lt_asymmetric(a[0], b[0]);
            }
        }
    }
}

/// Componentwise comparison of two namespace paths.
pub fn paths_lt_exec(a: &Vec<String>, b: &Vec<String>) -> (r: bool)
    ensures
        r == paths_lt(a.deep_view(), b.deep_view()),
    decreases a@.len(),
{
    if b.len() == 0 {
        return false;
    }
    if a.len() == 0 {
        return true;
    }
    if !str_eq(a[0].as_str(), b[0].as_str()) {
        assert(a.deep_view()[0] != b.deep_view()[0]);
        return str_lt(a[0].as_str(), b[0].as_str());
    }
    let a_rest = copy_path_tail(a);
    let b_rest = copy_path_tail(b);
    assert(a_rest.deep_view() =~= a.deep_view().drop_first());
    assert(b_rest.deep_view() =~= b.deep_view().drop_first());
    paths_lt_exec(&a_rest, &b_rest)
}

/// A copy of the path without its first component.
fn copy_path_tail(v: &Vec<String>) -> (r: Vec<String>)
    requires
        v@.len() > 0,
    ensures
        r.deep_view() =~= v.deep_view().drop_first(),
        r@.len() == v@.len() - 1,
{
    let mut out: Vec<String> = Vec::new();
    let n = v.len();
    let mut i: usize = 1;
    while i < n
        invariant
            1 <= i <= n,
            n == v@.len(),
            out@.len() == i - 1,
            forall|j: int| 0 <= j < i - 1 ==> out@[j] == v@[j + 1],
        decreases n - i,
    {
        out.push(v[i].clone());
        i += 1;
    }
    proof {
        assert forall|j: int| 0 <= j < out@.len() implies out.deep_view()[j]
            == v.deep_view().drop_first()[j] by {
            assert(out@[j] == v@[j + 1]);
        }
        assert(out.deep_view() =~= v.deep_view().drop_first());
    }
    out
}

/// Strict order on group identities: by type rank, then id, then namespace.
pub open spec fn group_lt(a: &GroupData, b: &GroupData) -> bool {
    ||| a.group.ty.spec_rank() < b.group.ty.spec_rank()
    ||| (a.group.ty.spec_rank() == b.group.ty.spec_rank() && chars_lt(a.group.id@, b.group.id@))
    ||| (a.group.ty.spec_rank() == b.group.ty.spec_rank() && a.group.id@ == b.group.id@ && paths_lt(
        a.ns.spec_path(),
        b.ns.spec_path(),
    ))
}

/// Two groups have the same identity.
pub open spec fn group_id_eq(a: &GroupData, b: &GroupData) -> bool {
    a.group.ty == b.group.ty && a.group.id@ == b.group.id@ && a.ns.spec_path() == b.ns.spec_path()
}

/// Non-strict order on group identities: the sort order of the work list.
pub open spec fn group_le(a: &GroupData, b: &GroupData) -> bool {
    group_lt(a, b) || group_id_eq(a, b)
}

pub proof fn lemma_group_le_connected(a: &GroupData, b: &GroupData)
    ensures
        group_le(a, b) || group_le(b, a),
{
    if !group_lt(a, b) && !group_lt(b, a) {
        if a.group.ty.spec_rank() == b.group.ty.spec_rank() {
            assert(a.group.ty == b.group.ty);
            if !chars_lt(a.group.id@, b.group.id@) && !chars_lt(b.group.id@, a.group.id@) {
                lemma_chars_lt_connected(a.group.id@, b.group.id@);
                lemma_paths_lt_connected(a.ns.spec_path(), b.ns.spec_path());
            }
        }
    }
}

pub proof fn lemma_group_le_transitive(a: &GroupData, b: &GroupData, c: &GroupData)
    requires
        group_le(a, b),
        group_le(b, c),
    ensures
        group_le(a, c),
{
    if group_id_eq(a, b) || group_id_eq(b, c) {
    } else {
        if a.group.ty.spec_rank() == b.group.ty.spec_rank() && b.group.ty.spec_rank()
            == c.group.ty.spec_rank() {
            if chars_lt(a.group.id@, b.group.id@) && chars_lt(b.group.id@, c.group.id@) {
                lemma_chars_lt_transitive(a.group.id@, b.group.id@, c.group.id@);
            } else if a.group.id@ == b.group.id@ && b.group.id@ == c.group.id@ {
                lemma_paths_lt_transitive(a.ns.spec_path(), b.ns.spec_path(), c.ns.spec_path());
            }
        }
    }
}

/// Comparison of two groups in the work-list order.
pub fn group_le_exec(a: &GroupData, b: &GroupData) -> (r: bool)
    ensures
        r == group_le(a, b),
{
    let ra = a.group.ty.rank();
    let rb = b.group.ty.rank();
    if ra < rb {
        return true;
    }
    if ra > rb {
        return false;
    }
    assert(a.group.ty == b.group.ty);
    if str_lt(a.group.id.as_str(), b.group.id.as_str()) {
        return true;
    }
    if !str_eq(a.group.id.as_str(), b.group.id.as_str()) {
        return false;
    }
    if paths_lt_exec(&a.ns.path, &b.ns.path) {
        return true;
    }
    paths_eq_exec(&a.ns.path, &b.ns.path)
}

/// Componentwise equality of two namespace paths.
pub fn paths_eq_exec(a: &Vec<String>, b: &Vec<String>) -> (r: bool)
    ensures
        r <==> a.deep_view() =~= b.deep_view(),
{
    if a.len() != b.len() {
        return false;
    }
    let n = a.len();
    let mut i: usize = 0;
    while i < n
        invariant
            n == a.len(),
            a.len() == b.len(),
            i <= n,
            forall|j: int| 0 <= j < i ==> a.deep_view()[j] == b.deep_view()[j],
        decreases n - i,
    {
        if !str_eq(a[i].as_str(), b[i].as_str()) {
            assert(a.deep_view()[i as int] != b.deep_view()[i as int]);
            return false;
        }
        i += 1;
    }
    proof {
        assert(a.deep_view() =~= b.deep_view());
    }
    true
}

} // verus!
