//! The job orchestrator: permission checks, the exclusive drive lock, the
//! online-status refresh, the per-snapshot transfer loop, and the worker
//! that drives selection, streaming, catalog writing and the final summary.
use vstd::prelude::*;

use crate::acl::{AccessControl, PRIV_DATASTORE_READ, PRIV_TAPE_WRITE};
use crate::cloud::media_location::MediaLocation;
use crate::datastore::{BackupType, Datastore, GroupData, SnapshotData, SnapshotRef};
use crate::jobs::{GroupFilter, TapeBackupJobSetup};
use crate::pipeline::{AbortSignal, ChunkStream, PeekState};
use crate::pool::{count_full_in_set, in_set, lemma_count_in_set_bounds, MediaPool, MediaStatus,
    Medium};
use crate::pool_writer::{lemma_wf_location_change, set_labels, PoolWriter, SnapKey};
use crate::progress::StoreProgress;
use crate::text::str_eq;
use vstd::string::StringExecFns;

verus! {

/// Outcome of one snapshot's transfer.
#[derive(Clone, Copy, Debug, Eq, PartialEq, Structural)]
pub enum SnapshotBackupResult {
    /// Transferred completely.
    Success,
    /// Failed, counted as a per-job error; the job continues.
    Error,
    /// Vanished before transfer; ignored.
    Ignored,
}

/// Why a job, or a step of it, failed.
#[derive(Clone, Copy, Debug, Eq, PartialEq, Structural)]
pub enum JobError {
    /// The caller lacks one of the three required capabilities.
    Unauthorized,
    /// The drive lock is already held; there is no queueing.
    DriveBusy,
    /// The datastore handed in does not match the setup.
    StoreMismatch,
    /// The pool handed in does not match the setup.
    PoolMismatch,
    /// A group filter text cannot be parsed.
    BadGroupFilter,
    /// The pool has no usable medium left.
    NoUsableMedia,
    /// The chunk reader failed mid-stream.
    ChunkReadError,
    /// A snapshot archive did not fit on two media in a row.
    SnapshotArchiveFailed,
    /// The catalog archive did not fit on two media in a row.
    CatalogArchiveFailed,
    /// The abort signal was raised at a checkpoint.
    Aborted,
    /// Some snapshots failed; the job as a whole is reported failed.
    JobErrors,
}

/// One line of the job's log stream, as structured data.
#[derive(Clone, Debug, PartialEq)]
pub enum LogEvent {
    /// The online-media refresh ran.
    UpdateMediaOnlineStatus,
    /// The changer could not be queried; stale status is accepted.
    ChangerQueryFailed,
    /// Only each group's newest snapshot is considered.
    LatestOnly,
    /// How many groups were kept out of those discovered.
    FoundGroups { kept: u64, total: u64 },
    /// A group had no finished snapshot.
    GroupEmpty { ty: BackupType, id: String },
    /// A snapshot already on the media set was skipped.
    SkipSnapshot { snap: SnapshotRef },
    /// A snapshot's transfer begins.
    SnapshotStart { snap: SnapshotRef },
    /// The snapshot was gone by transfer time.
    SnapshotVanished { snap: SnapshotRef },
    /// The snapshot exists but could not be opened.
    SnapshotOpenFailed { snap: SnapshotRef },
    /// A snapshot's transfer finished.
    SnapshotDone { snap: SnapshotRef },
    /// Progress after a unit of work, in thousandths.
    Progress { permille: u64 },
    /// The catalog archive is being appended.
    CatalogStart,
    /// The catalog did not fit; it is retried on the next medium.
    CatalogRetry,
}

/// Aggregated result of one run.
pub struct TapeBackupJobSummary {
    /// Successfully transferred snapshots, in processing order.
    pub snapshot_list: Vec<SnapshotRef>,
    /// Labels of the media of the active set, if they could be collected.
    pub used_tapes: Option<Vec<String>>,
    /// Elapsed wall-clock seconds, filled by the caller that measures the
    /// run; this engine has no clock.
    pub duration_seconds: u64,
}

impl TapeBackupJobSummary {
    pub fn new() -> (r: TapeBackupJobSummary)
        ensures
            r.snapshot_list@.len() == 0,
            r.used_tapes is None,
            r.duration_seconds == 0,
    {
        TapeBackupJobSummary { snapshot_list: Vec::new(), used_tapes: None, duration_seconds: 0 }
    }
}

/// The advisory drive locks: mutual exclusion by drive name, no queueing.
pub struct DriveLocks {
    pub locked: Vec<String>,
}

impl DriveLocks {
    /// A table with no drive locked.
    pub fn new() -> (r: DriveLocks)
        ensures
            r.locked@.len() == 0,
    {
        DriveLocks { locked: Vec::new() }
    }

    /// The drive is locked.
    pub open spec fn spec_holds(&self, drive: Seq<char>) -> bool {
        exists|k: int| 0 <= k < self.locked@.len() && (#[trigger] self.locked@[k])@ == drive
    }

    fn find(&self, drive: &str) -> (r: Option<usize>)
        ensures
            r matches Some(k) ==> k < self.locked@.len() && self.locked@[k as int]@ == drive@ && (
            forall|j: int| 0 <= j < k ==> (#[trigger] self.locked@[j])@ != drive@),
            r is None ==> !self.spec_holds(drive@),
    {
        let n = self.locked.len();
        let mut k: usize = 0;
        while k < n
            invariant
                n == self.locked@.len(),
                k <= n,
                forall|j: int| 0 <= j < k ==> (#[trigger] self.locked@[j])@ != drive@,
            decreases n - k,
        {
            if str_eq(self.locked[k].as_str(), drive) {
                return Some(k);
            }
            k += 1;
        }
        None
    }

    /// Tries to take the lock; fails immediately when it is held.
    pub fn acquire(&mut self, drive: &str) -> (r: bool)
        ensures
            r == !old(self).spec_holds(drive@),
            r ==> final(self).locked@.len() == old(self).locked@.len() + 1
                && final(self).locked@.subrange(0, old(self).locked@.len() as int) == old(
                self,
            ).locked@ && final(self).locked@.last()@ == drive@,
            !r ==> *final(self) == *old(self),
    {
        match self.find(drive) {
            Some(_) => false,
            None => {
                let ghost before = self.locked@;
                self.locked.push(drive.to_owned());
                proof {
                    assert(self.locked@.subrange(0, before.len() as int) =~= before);
                    assert(self.locked@[before.len() as int]@ == drive@);
                }
                true
            },
        }
    }

    /// Releases the lock; a drive that is not locked is left as it is.
    pub fn release(&mut self, drive: &str)
        ensures
            old(self).spec_holds(drive@) || *final(self) == *old(self),
            old(self).spec_holds(drive@) ==> (exists|k: int|
                0 <= k < old(self).locked@.len() && (#[trigger] old(self).locked@[k])@ == drive@
                    && (forall|j: int| 0 <= j < k ==> (#[trigger] old(self).locked@[j])@ != drive@)
                    && final(self).locked@ == old(self).locked@.remove(k)),
            (old(self).locked@.len() > 0 && old(self).locked@.last()@ == drive@ && (forall|k: int|
                0 <= k < old(self).locked@.len() - 1 ==> (#[trigger] old(self).locked@[k])@
                    != drive@)) ==> final(self).locked@ == old(self).locked@.drop_last(),
    {
        match self.find(drive) {
            Some(k) => {
                let ghost before = self.locked@;
                self.locked.remove(k);
                proof {
                    assert(0 <= k < before.len() && before[k as int]@ == drive@ && (forall|j: int|
                        0 <= j < k ==> (#[trigger] before[j])@ != drive@) && self.locked@
                        == before.remove(k as int));
                    if before.len() > 0 && before.last()@ == drive@ && (forall|j: int|
                        0 <= j < before.len() - 1 ==> (#[trigger] before[j])@ != drive@) {
                        assert(k == before.len() - 1);
                        assert(self.locked@ =~= before.drop_last());
                    }
                }
            },
            None => {},
        }
    }
}

/// Published drive states: which operation currently owns each drive.
pub struct DriveStates {
    pub entries: Vec<(String, String)>,
}

impl DriveStates {
    pub fn new() -> (r: DriveStates)
        ensures
            r.entries@.len() == 0,
    {
        DriveStates { entries: Vec::new() }
    }

    /// The published state of a drive, if any entry exists for it.
    pub open spec fn spec_get(&self, drive: Seq<char>) -> Option<Seq<char>> {
        if exists|k: int| 0 <= k < self.entries@.len() && (#[trigger] self.entries@[k]).0@ == drive {
            let k = choose|k: int|
                0 <= k < self.entries@.len() && (#[trigger] self.entries@[k]).0@ == drive;
            Some(self.entries@[k].1@)
        } else {
            None
        }
    }

    /// No two entries name the same drive.
    pub open spec fn wf(&self) -> bool {
        forall|i: int, j: int|
            0 <= i < j < self.entries@.len() ==> (#[trigger] self.entries@[i]).0@ != (
            #[trigger] self.entries@[j]).0@
    }

    /// Publishes a state for a drive, replacing any previous one.
    pub fn set_state(&mut self, drive: &str, text: &str)
        requires
            old(self).wf(),
        ensures
            final(self).wf(),
            final(self).spec_get(drive@) == Some(text@),
            forall|d: Seq<char>| d != drive@ ==> final(self).spec_get(d) == old(self).spec_get(d),
    {
        let n = self.entries.len();
        let mut k: usize = 0;
        while k < n
            invariant
                n == self.entries@.len(),
                k <= n,
                old(self).wf(),
                *self == *old(self),
                forall|j: int| 0 <= j < k ==> (#[trigger] self.entries@[j]).0@ != drive@,
            decreases n - k,
        {
            if str_eq(self.entries[k].0.as_str(), drive) {
                let e = &mut self.entries[k];
                e.1 = text.to_owned();
                proof {
                    lemma_states_get(old(self), self, k as int, drive@, text@);
                }
                return ;
            }
            k += 1;
        }
        let ghost before = self.entries@;
        self.entries.push((drive.to_owned(), text.to_owned()));
        proof {
            assert(self.entries@.last().0@ == drive@);
            assert forall|j: int| 0 <= j < before.len() implies #[trigger] self.entries@[j]
                == before[j] by {}
            lemma_states_get(old(self), self, before.len() as int, drive@, text@);
        }
    }
}

/// After writing entry `k` for `drive`, lookups read back the new text and
/// other drives are untouched.
proof fn lemma_states_get(
    a: &DriveStates,
    b: &DriveStates,
    k: int,
    drive: Seq<char>,
    text: Seq<char>,
)
    requires
        a.wf(),
        0 <= k < b.entries@.len(),
        (b.entries@.len() == a.entries@.len() && k < a.entries@.len()) || (b.entries@.len()
            == a.entries@.len() + 1 && k == b.entries@.len() - 1),
        forall|j: int|
            0 <= j < b.entries@.len() && j != k ==> #[trigger] b.entries@[j] == a.entries@[j],
        b.entries@[k].0@ == drive,
        b.entries@[k].1@ == text,
        k < a.entries@.len() ==> a.entries@[k].0@ == drive,
        forall|j: int| 0 <= j < a.entries@.len() && j != k ==> (#[trigger] a.entries@[j]).0@ != drive,
    ensures
        b.wf(),
        b.spec_get(drive) == Some(text),
        forall|d: Seq<char>| d != drive ==> b.spec_get(d) == a.spec_get(d),
{
    assert forall|i: int, j: int| 0 <= i < j < b.entries@.len() implies (
    #[trigger] b.entries@[i]).0@ != (#[trigger] b.entries@[j]).0@ by {
        if i != k && j != k {
            assert(b.entries@[i] == a.entries@[i]);
            assert(b.entries@[j] == a.entries@[j]);
        } else if i == k {
            assert(b.entries@[j] == a.entries@[j]);
            assert(a.entries@[j].0@ != drive);
        } else {
            assert(b.entries@[i] == a.entries@[i]);
            assert(a.entries@[i].0@ != drive);
        }
    }
    assert(b.spec_get(drive) == Some(text)) by {
        assert(0 <= k < b.entries@.len() && (#[trigger] b.entries@[k]).0@ == drive);
        let w = choose|w: int| 0 <= w < b.entries@.len() && (#[trigger] b.entries@[w]).0@ == drive;
        if w != k {
            assert((b.entries@[w]).0@ != (b.entries@[k]).0@);
        }
    }
    assert forall|d: Seq<char>| d != drive implies b.spec_get(d) == a.spec_get(d) by {
        if exists|w: int| 0 <= w < b.entries@.len() && (#[trigger] b.entries@[w]).0@ == d {
            let w = choose|w: int| 0 <= w < b.entries@.len() && (#[trigger] b.entries@[w]).0@ == d;
            assert(b.entries@[w].0@ == d && d != drive);
            assert(w != k);
            assert(b.entries@[w] == a.entries@[w]);
            assert(0 <= w < a.entries@.len() && a.entries@[w].0@ == d);
            let wb = choose|wb: int|
                0 <= wb < b.entries@.len() && (#[trigger] b.entries@[wb]).0@ == d;
            let wa = choose|wa: int|
                0 <= wa < a.entries@.len() && (#[trigger] a.entries@[wa]).0@ == d;
            assert(wb != k);
            assert(b.entries@[wb] == a.entries@[wb]);
            if wa != wb {
                assert(a.entries@[wa].0@ == a.entries@[wb].0@);
            }
            assert(b.spec_get(d) == Some(b.entries@[wb].1@));
            assert(a.spec_get(d) == Some(a.entries@[wa].1@));
        } else {
            assert(b.spec_get(d) is None);
            if exists|w: int| 0 <= w < a.entries@.len() && (#[trigger] a.entries@[w]).0@ == d {
                let w = choose|w: int|
                    0 <= w < a.entries@.len() && (#[trigger] a.entries@[w]).0@ == d;
                assert(w != k);
                assert(b.entries@[w] == a.entries@[w]);
                assert(0 <= w < b.entries@.len() && b.entries@[w].0@ == d);
            }
            assert(a.spec_get(d) is None);
        }
    }
}

/// The changer collaborator: which media labels it reports online, and
/// whether the query succeeds at all.
#[derive(Clone, Debug)]
pub struct Changer {
    pub name: String,
    pub online_labels: Vec<String>,
    pub query_ok: bool,
}

/// A label occurs in the changer's report.
pub open spec fn spec_label_online(labels: Seq<String>, label: Seq<char>) -> bool {
    exists|k: int| 0 <= k < labels.len() && (#[trigger] labels[k])@ == label
}

fn label_online(labels: &Vec<String>, label: &str) -> (r: bool)
    ensures
        r == spec_label_online(labels@, label@),
{
    let n = labels.len();
    let mut k: usize = 0;
    while k < n
        invariant
            n == labels@.len(),
            k <= n,
            forall|j: int| 0 <= j < k ==> (#[trigger] labels@[j])@ != label@,
        decreases n - k,
    {
        if str_eq(labels[k].as_str(), label) {
            return true;
        }
        k += 1;
    }
    false
}

/// Best-effort refresh of the media online status: reconciles the pool's
/// inventory against what the changer reports loaded. A failing query is
/// logged and ignored; stale status is an accepted degraded mode.
pub fn update_media_online_status(
    pool: &mut MediaPool,
    changer: &Option<Changer>,
    log: &mut Vec<LogEvent>,
) -> (r: Option<String>)
    requires
        old(pool).wf(),
    ensures
        final(pool).wf(),
        final(pool).name == old(pool).name,
        final(pool).allocation == old(pool).allocation,
        final(pool).retention == old(pool).retention,
        final(pool).current_set == old(pool).current_set,
        final(pool).next_set_id == old(pool).next_set_id,
        final(pool).media@.len() == old(pool).media@.len(),
        changer is None ==> *final(pool) == *old(pool) && r is None,
        (changer matches Some(c) && !c.query_ok) ==> *final(pool) == *old(pool) && r is None,
        changer matches Some(_) && changer->Some_0.query_ok ==> (r matches Some(name) && name@
            == changer->Some_0.name@ && (forall|j: int|
            0 <= j < final(pool).media@.len() ==> #[trigger] final(pool).media@[j] == (Medium {
                location: if spec_label_online(
                    changer->Some_0.online_labels@,
                    old(pool).media@[j].label@,
                ) {
                    MediaLocation::Online(changer->Some_0.name)
                } else {
                    MediaLocation::Offline
                },
                ..old(pool).media@[j]
            }))),
    {
        let c = match changer {
            Some(c) => c,
            None => {
                return None;
            },
        };
        if !c.query_ok {
            log.push(LogEvent::ChangerQueryFailed);
            return None;
        }
        let n = pool.media.len();
        let mut j: usize = 0;
        while j < n
            invariant
                n == pool.media@.len(),
                j <= n,
                old(pool).wf(),
                pool.name == old(pool).name,
                pool.allocation == old(pool).allocation,
                pool.retention == old(pool).retention,
                pool.current_set == old(pool).current_set,
                pool.next_set_id == old(pool).next_set_id,
                pool.media@.len() == old(pool).media@.len(),
                changer matches Some(cc) && cc.query_ok && cc == c,
                forall|m: int|
                    0 <= m < j ==> #[trigger] pool.media@[m] == (Medium {
                        location: if spec_label_online(
                            c.online_labels@,
                            old(pool).media@[m].label@,
                        ) {
                            MediaLocation::Online(c.name)
                        } else {
                            MediaLocation::Offline
                        },
                        ..old(pool).media@[m]
                    }),
                forall|m: int| j <= m < n ==> #[trigger] pool.media@[m] == old(pool).media@[m],
            decreases n - j,
        {
            let online = label_online(&c.online_labels, pool.media[j].label.as_str());
            let m = &mut pool.media[j];
            if online {
                m.location = MediaLocation::Online(c.name.clone());
            } else {
                m.location = MediaLocation::Offline;
            }
            j += 1;
        }
        log.push(LogEvent::UpdateMediaOnlineStatus);
        proof {
            lemma_wf_location_change(old(pool), pool);
        }
        Some(c.name.clone())
    }

/// Checks the three capabilities the job needs before touching hardware:
/// read on the datastore, write on the drive, write on the pool.
pub fn check_backup_permission(
    acl: &AccessControl,
    auth_id: &str,
    store: &str,
    pool: &str,
    drive: &str,
) -> (r: Result<(), JobError>)
    ensures
        r is Ok <==> (acl.spec_has_privs(
            auth_id@,
            seq!["datastore"@, store@],
            PRIV_DATASTORE_READ,
        ) && acl.spec_has_privs(auth_id@, seq!["tape"@, "drive"@, drive@], PRIV_TAPE_WRITE)
            && acl.spec_has_privs(auth_id@, seq!["tape"@, "pool"@, pool@], PRIV_TAPE_WRITE)),
        r matches Err(e) ==> e == JobError::Unauthorized,
{
    let mut store_path: Vec<String> = Vec::new();
    store_path.push(String::from_str("datastore"));
    store_path.push(store.to_owned());
    proof {
        assert(store_path.deep_view() =~= seq!["datastore"@, store@]);
    }
    if !acl.check_privs(auth_id, &store_path, PRIV_DATASTORE_READ) {
        return Err(JobError::Unauthorized);
    }
    let mut drive_path: Vec<String> = Vec::new();
    drive_path.push(String::from_str("tape"));
    drive_path.push(String::from_str("drive"));
    drive_path.push(drive.to_owned());
    proof {
        assert(drive_path.deep_view() =~= seq!["tape"@, "drive"@, drive@]);
    }
    if !acl.check_privs(auth_id, &drive_path, PRIV_TAPE_WRITE) {
        return Err(JobError::Unauthorized);
    }
    let mut pool_path: Vec<String> = Vec::new();
    pool_path.push(String::from_str("tape"));
    pool_path.push(String::from_str("pool"));
    pool_path.push(pool.to_owned());
    proof {
        assert(pool_path.deep_view() =~= seq!["tape"@, "pool"@, pool@]);
    }
    if !acl.check_privs(auth_id, &pool_path, PRIV_TAPE_WRITE) {
        return Err(JobError::Unauthorized);
    }
    Ok(())
}


/// A copy of a chunk list.
fn copy_chunks(v: &Vec<crate::datastore::Chunk>) -> (r: Vec<crate::datastore::Chunk>)
    ensures
        r@ == v@,
{
    let mut out: Vec<crate::datastore::Chunk> = Vec::new();
    let n = v.len();
    let mut i: usize = 0;
    while i < n
        invariant
            n == v@.len(),
            i <= n,
            out@ == v@.take(i as int),
        decreases n - i,
    {
        out.push(v[i]);
        proof {
            assert(out@ =~= v@.take(i + 1));
        }
        i += 1;
    }
    proof {
        assert(v@.take(n as int) =~= v@);
    }
    out
}

/// Transfers one snapshot: a dedicated reader streams its chunks, the main
/// loop appends them to writable media, rotating on end-of-medium with the
/// stream position surviving; afterwards the snapshot archive is written
/// whole, with one retry on a fresh medium. The abort signal is polled
/// before every medium acquisition and after every append.
#[verifier::rlimit(100)]
pub fn backup_snapshot(
    pool_writer: &mut PoolWriter,
    store_name: &str,
    snap: &SnapshotRef,
    data: &SnapshotData,
    abort: &mut AbortSignal,
    now: i64,
    log: &mut Vec<LogEvent>,
) -> (r: Result<SnapshotBackupResult, JobError>)
    requires
        old(pool_writer).wf(),
    ensures
        final(pool_writer).wf(),
        final(pool_writer).drive == old(pool_writer).drive,
        final(pool_writer).committed == old(pool_writer).committed,
        final(pool_writer).pool.name == old(pool_writer).pool.name,
        final(pool_writer).pool.allocation == old(pool_writer).pool.allocation,
        final(pool_writer).pool.retention == old(pool_writer).pool.retention,
        final(pool_writer).spec_set_id() == old(pool_writer).spec_set_id(),
        final(pool_writer).pool.media@.len() == old(pool_writer).pool.media@.len(),
        old(pool_writer).catalog_index@.is_prefix_of(final(pool_writer).catalog_index@),
        r == Ok::<SnapshotBackupResult, JobError>(SnapshotBackupResult::Ignored) <==> (
        !data.readable && data.vanished),
        r == Ok::<SnapshotBackupResult, JobError>(SnapshotBackupResult::Error) <==> (
        !data.readable && !data.vanished),
        !data.readable ==> *final(pool_writer) == *old(pool_writer),
        r == Ok::<SnapshotBackupResult, JobError>(SnapshotBackupResult::Success)
            ==> final(pool_writer).spec_contains_snapshot(store_name@, snap.spec_key()),
        r matches Err(e) ==> (e == JobError::Aborted || e == JobError::ChunkReadError || e
            == JobError::NoUsableMedia || e == JobError::SnapshotArchiveFailed),
        r == Err::<SnapshotBackupResult, JobError>(JobError::Aborted)
            ==> final(pool_writer).catalog_index == old(pool_writer).catalog_index,
        old(log)@.is_prefix_of(final(log)@),
        crate::pool_writer::set_media_grow(
            old(pool_writer).pool.media@,
            final(pool_writer).pool.media@,
            old(pool_writer).spec_set_id(),
        ),
        r == Ok::<SnapshotBackupResult, JobError>(SnapshotBackupResult::Success)
            ==> crate::pool_writer::media_have_snapshot(
            final(pool_writer).pool.media@,
            final(pool_writer).spec_set_id(),
            store_name@,
            snap.spec_key(),
        ) && !(data.read_error_at matches Some(e) && e < data.chunks@.len()),
        r == Err::<SnapshotBackupResult, JobError>(JobError::ChunkReadError) ==> (
        data.read_error_at matches Some(e) && e < data.chunks@.len()),
        r == Err::<SnapshotBackupResult, JobError>(JobError::NoUsableMedia)
            ==> !final(pool_writer).loaded_writable() && (forall|j: int|
            0 <= j < final(pool_writer).pool.media@.len()
                ==> !final(pool_writer).pool.spec_allocatable(j, now)),
        r == Err::<SnapshotBackupResult, JobError>(JobError::Aborted) ==> old(abort).remaining
            is Some && final(abort).spec_fired(),
        forall|k: int|
            old(pool_writer).catalog_index@.len() <= k < final(pool_writer).catalog_index@.len()
                ==> crate::pool_writer::media_have_snapshot(
                final(pool_writer).pool.media@,
                final(pool_writer).spec_set_id(),
                (#[trigger] final(pool_writer).catalog_index@[k]).0@,
                final(pool_writer).catalog_index@[k].1.spec_key(),
            ),
{
    let ghost media0 = pool_writer.pool.media@;
    log.push(LogEvent::SnapshotStart { snap: crate::pool_writer::copy_snapshot_ref(snap) });
    if !data.readable {
        proof {
            crate::pool_writer::lemma_set_media_grow_refl(media0, pool_writer.spec_set_id());
        }
        if data.vanished {
            log.push(LogEvent::SnapshotVanished {
                snap: crate::pool_writer::copy_snapshot_ref(snap),
            });
            return Ok(SnapshotBackupResult::Ignored);
        }
        log.push(LogEvent::SnapshotOpenFailed {
            snap: crate::pool_writer::copy_snapshot_ref(snap),
        });
        return Ok(SnapshotBackupResult::Error);
    }
    let chunks = copy_chunks(&data.chunks);
    let mut stream = ChunkStream::new(chunks, data.read_error_at);
    let ghost sid0 = pool_writer.spec_set_id();
    let ghost avail = stream.spec_available();
    let mut done: bool = false;
    proof {
        lemma_count_in_set_bounds(pool_writer.pool.media@, sid0);
        crate::pool_writer::lemma_set_media_grow_refl(media0, sid0);
    }
    let ghost log_at_loop = log@;
    while !done
        invariant
            log@ == log_at_loop,
            old(log)@.is_prefix_of(log@),
            data.readable,
            pool_writer.wf(),
            stream.wf(),
            stream.chunks@ == data.chunks@,
            stream.error_at == data.read_error_at,
            avail == stream.spec_available(),
            pool_writer.drive == old(pool_writer).drive,
            pool_writer.committed == old(pool_writer).committed,
            pool_writer.pool.name == old(pool_writer).pool.name,
            pool_writer.pool.allocation == old(pool_writer).pool.allocation,
            pool_writer.pool.retention == old(pool_writer).pool.retention,
            pool_writer.spec_set_id() == sid0,
            sid0 == old(pool_writer).spec_set_id(),
            pool_writer.pool.media@.len() == old(pool_writer).pool.media@.len(),
            pool_writer.catalog_index == old(pool_writer).catalog_index,
            0 <= count_full_in_set(pool_writer.pool.media@, sid0)
                <= pool_writer.pool.media@.len(),
            done ==> stream.pos == stream.spec_available() && !stream.spec_has_error(),
            crate::pool_writer::set_media_grow(media0, pool_writer.pool.media@, sid0),
            (abort.remaining is Some) == (old(abort).remaining is Some),
            media0 == old(pool_writer).pool.media@,
            sid0 == old(pool_writer).spec_set_id(),
        decreases avail - stream.pos + (pool_writer.pool.media@.len() - count_full_in_set(
            pool_writer.pool.media@,
            sid0,
        )) + (if done {
            0int
        } else {
            1int
        }),
    {
        if abort.check() {
            return Err(JobError::Aborted);
        }
        match stream.peek() {
            PeekState::Exhausted => {
                done = true;
            },
            PeekState::ReadError => {
                return Err(JobError::ChunkReadError);
            },
            PeekState::Pending => {
                let ghost media_a = pool_writer.pool.media@;
                let uuid = match pool_writer.load_writable_media(now) {
                    Ok(uuid) => uuid,
                    Err(_) => {
                        return Err(JobError::NoUsableMedia);
                    },
                };
                proof {
                    crate::pool_writer::lemma_set_media_grow_trans(
                        media0,
                        media_a,
                        pool_writer.pool.media@,
                        sid0,
                    );
                }
                if abort.check() {
                    return Err(JobError::Aborted);
                }
                let ghost media_b = pool_writer.pool.media@;
                let (leom, _bytes) = pool_writer.append_chunk_archive(&mut stream, store_name);
                proof {
                    lemma_count_in_set_bounds(pool_writer.pool.media@, sid0);
                    crate::pool_writer::lemma_set_media_grow_trans(
                        media0,
                        media_b,
                        pool_writer.pool.media@,
                        sid0,
                    );
                }
                if leom {
                    let ghost before_full = count_full_in_set(pool_writer.pool.media@, sid0);
                    let ghost media_c = pool_writer.pool.media@;
                    pool_writer.set_media_status_full(uuid);
                    proof {
                        lemma_count_in_set_bounds(pool_writer.pool.media@, sid0);
                        crate::pool_writer::lemma_set_media_grow_trans(
                            media0,
                            media_c,
                            pool_writer.pool.media@,
                            sid0,
                        );
                        assert(count_full_in_set(pool_writer.pool.media@, sid0) == before_full
                            + 1);
                    }
                }
            },
        }
    }
    if abort.check() {
        return Err(JobError::Aborted);
    }
    let ghost media_d = pool_writer.pool.media@;
    let uuid = match pool_writer.load_writable_media(now) {
        Ok(uuid) => uuid,
        Err(_) => {
            return Err(JobError::NoUsableMedia);
        },
    };
    proof {
        crate::pool_writer::lemma_set_media_grow_trans(
            media0,
            media_d,
            pool_writer.pool.media@,
            sid0,
        );
    }
    if abort.check() {
        return Err(JobError::Aborted);
    }
    let ghost media_e = pool_writer.pool.media@;
    let (fully, _bytes) = pool_writer.append_snapshot_archive(
        store_name,
        snap,
        data.snapshot_archive_size,
    );
    proof {
        crate::pool_writer::lemma_set_media_grow_trans(
            media0,
            media_e,
            pool_writer.pool.media@,
            sid0,
        );
    }
    if !fully {
        let ghost media_f = pool_writer.pool.media@;
        pool_writer.set_media_status_full(uuid);
        proof {
            crate::pool_writer::lemma_set_media_grow_trans(
                media0,
                media_f,
                pool_writer.pool.media@,
                sid0,
            );
        }
        if abort.check() {
            return Err(JobError::Aborted);
        }
        let ghost media_g = pool_writer.pool.media@;
        match pool_writer.load_writable_media(now) {
            Ok(_) => {},
            Err(_) => {
                return Err(JobError::NoUsableMedia);
            },
        }
        proof {
            crate::pool_writer::lemma_set_media_grow_trans(
                media0,
                media_g,
                pool_writer.pool.media@,
                sid0,
            );
        }
        let ghost media_h = pool_writer.pool.media@;
        let (retry_done, _bytes2) = pool_writer.append_snapshot_archive(
            store_name,
            snap,
            data.snapshot_archive_size,
        );
        proof {
            crate::pool_writer::lemma_set_media_grow_trans(
                media0,
                media_h,
                pool_writer.pool.media@,
                sid0,
            );
        }
        if !retry_done {
            return Err(JobError::SnapshotArchiveFailed);
        }
    }
    log.push(LogEvent::SnapshotDone { snap: crate::pool_writer::copy_snapshot_ref(snap) });
    Ok(SnapshotBackupResult::Success)
}


/// The snapshot at `time` is no older than any finished snapshot of the
/// group.
pub open spec fn spec_snapshot_is_latest(g: GroupData, time: int) -> bool {
    forall|k: int|
        0 <= k < g.snapshots@.len() && (#[trigger] g.snapshots@[k]).finished
            ==> g.snapshots@[k].time <= time
}

/// Identity key of one snapshot of a group.
pub open spec fn spec_key_of(g: GroupData, s: SnapshotData) -> SnapKey {
    (g.ns.spec_path(), g.group.ty, g.group.id@, s.time as int)
}

/// The snapshot at position `sj` of the group at `gi` is selected by the
/// job: its group is in scope and passes the filters, it is finished, and
/// in latest-only mode it is its group's newest.
pub open spec fn spec_selected_at(
    groups: Seq<GroupData>,
    anchor: Seq<Seq<char>>,
    depth: Option<usize>,
    filters: Seq<GroupFilter>,
    latest_only: bool,
    gi: int,
    sj: int,
) -> bool {
    &&& 0 <= gi < groups.len()
    &&& crate::selection::spec_group_selected(groups[gi], anchor, depth, filters)
    &&& 0 <= sj < groups[gi].snapshots@.len()
    &&& groups[gi].snapshots@[sj].finished
    &&& (latest_only ==> spec_snapshot_is_latest(
        groups[gi],
        groups[gi].snapshots@[sj].time as int,
    ))
}

/// No group lists two snapshots with the same timestamp; a snapshot's
/// identity is its namespace, group and timestamp, so a real datastore
/// reports each at most once.
pub open spec fn spec_distinct_times(groups: Seq<GroupData>) -> bool {
    forall|gi: int, a: int, b: int|
        0 <= gi < groups.len() && 0 <= a < b < groups[gi].snapshots@.len() ==> (
        #[trigger] groups[gi].snapshots@[a]).time != (#[trigger] groups[gi].snapshots@[b]).time
}

/// Prefix order on index states is transitive.
proof fn lemma_prefix_trans<T>(a: Seq<T>, b: Seq<T>, c: Seq<T>)
    requires
        a.is_prefix_of(b),
        b.is_prefix_of(c),
    ensures
        a.is_prefix_of(c),
{
    assert forall|t: int| 0 <= t < a.len() implies c.subrange(0, a.len() as int)[t] == a[t] by {
        assert(b.subrange(0, a.len() as int)[t] == a[t]);
        assert(c.subrange(0, b.len() as int)[t] == b[t]);
    }
    assert(c.subrange(0, a.len() as int) =~= a);
}

/// A sound index stays sound: surviving entries keep their archives while
/// the set's media grow, and fresh entries come with theirs.
proof fn lemma_index_sound_preserved(
    index_before: Seq<(String, SnapshotRef)>,
    index_after: Seq<(String, SnapshotRef)>,
    media_before: Seq<Medium>,
    media_after: Seq<Medium>,
    sid: u64,
)
    requires
        forall|k: int|
            0 <= k < index_before.len() ==> crate::pool_writer::media_have_snapshot(
                media_before,
                sid,
                (#[trigger] index_before[k]).0@,
                index_before[k].1.spec_key(),
            ),
        index_before.is_prefix_of(index_after),
        crate::pool_writer::set_media_grow(media_before, media_after, sid),
        forall|k: int|
            index_before.len() <= k < index_after.len()
                ==> crate::pool_writer::media_have_snapshot(
                media_after,
                sid,
                (#[trigger] index_after[k]).0@,
                index_after[k].1.spec_key(),
            ),
    ensures
        forall|k: int|
            0 <= k < index_after.len() ==> crate::pool_writer::media_have_snapshot(
                media_after,
                sid,
                (#[trigger] index_after[k]).0@,
                index_after[k].1.spec_key(),
            ),
{
    assert forall|k: int| 0 <= k < index_after.len() implies
        crate::pool_writer::media_have_snapshot(
        media_after,
        sid,
        (#[trigger] index_after[k]).0@,
        index_after[k].1.spec_key(),
    ) by {
        if k < index_before.len() {
            assert(index_after.subrange(0, index_before.len() as int)[k] == index_after[k]);
            assert(index_after[k] == index_before[k]);
            crate::pool_writer::lemma_media_have_mono(
                media_before,
                media_after,
                sid,
                index_before[k].0@,
                index_before[k].1.spec_key(),
            );
        }
    }
}

/// Completed-group coverage survives while the set's media grow.
proof fn lemma_outer_completeness_mono(
    sorted0: Seq<GroupData>,
    anchor0: Seq<Seq<char>>,
    depth0: Option<usize>,
    filters0: Seq<GroupFilter>,
    latest0: bool,
    bound: int,
    a: Seq<Medium>,
    b: Seq<Medium>,
    sid: u64,
    store: Seq<char>,
)
    requires
        crate::pool_writer::set_media_grow(a, b, sid),
        forall|ki: int, sj: int|
            0 <= ki < bound && #[trigger] spec_selected_at(
                sorted0,
                anchor0,
                depth0,
                filters0,
                latest0,
                ki,
                sj,
            ) && sorted0[ki].snapshots@[sj].readable
                ==> crate::pool_writer::media_have_snapshot(
                a,
                sid,
                store,
                spec_key_of(sorted0[ki], sorted0[ki].snapshots@[sj]),
            ),
    ensures
        forall|ki: int, sj: int|
            0 <= ki < bound && #[trigger] spec_selected_at(
                sorted0,
                anchor0,
                depth0,
                filters0,
                latest0,
                ki,
                sj,
            ) && sorted0[ki].snapshots@[sj].readable
                ==> crate::pool_writer::media_have_snapshot(
                b,
                sid,
                store,
                spec_key_of(sorted0[ki], sorted0[ki].snapshots@[sj]),
            ),
{
    assert forall|ki: int, sj: int|
        0 <= ki < bound && #[trigger] spec_selected_at(
            sorted0,
            anchor0,
            depth0,
            filters0,
            latest0,
            ki,
            sj,
        ) && sorted0[ki].snapshots@[sj].readable implies
        crate::pool_writer::media_have_snapshot(
        b,
        sid,
        store,
        spec_key_of(sorted0[ki], sorted0[ki].snapshots@[sj]),
    ) by {
        crate::pool_writer::lemma_media_have_mono(
            a,
            b,
            sid,
            store,
            spec_key_of(sorted0[ki], sorted0[ki].snapshots@[sj]),
        );
    }
}

/// Handled-snapshot coverage within one group survives while the set's
/// media grow.
proof fn lemma_inner_completeness_mono(
    g_val: GroupData,
    prepared0: Seq<SnapshotData>,
    bound: int,
    a: Seq<Medium>,
    b: Seq<Medium>,
    sid: u64,
    store: Seq<char>,
)
    requires
        crate::pool_writer::set_media_grow(a, b, sid),
        forall|t: int|
            0 <= t < bound && (#[trigger] prepared0[t]).readable
                ==> crate::pool_writer::media_have_snapshot(
                a,
                sid,
                store,
                spec_key_of(g_val, prepared0[t]),
            ),
    ensures
        forall|t: int|
            0 <= t < bound && (#[trigger] prepared0[t]).readable
                ==> crate::pool_writer::media_have_snapshot(
                b,
                sid,
                store,
                spec_key_of(g_val, prepared0[t]),
            ),
{
    assert forall|t: int| 0 <= t < bound && (#[trigger] prepared0[t]).readable implies
        crate::pool_writer::media_have_snapshot(b, sid, store, spec_key_of(g_val, prepared0[t]))
        by {
        crate::pool_writer::lemma_media_have_mono(
            a,
            b,
            sid,
            store,
            spec_key_of(g_val, prepared0[t]),
        );
    }
}

/// All selected, readable snapshots of one fully handled group stand on
/// the set's media: each is among the group's prepared snapshots, whose
/// coverage the per-snapshot loop established.
proof fn lemma_group_completeness(
    groups0: Seq<GroupData>,
    sorted0: Seq<GroupData>,
    anchor0: Seq<Seq<char>>,
    depth0: Option<usize>,
    filters0: Seq<GroupFilter>,
    latest0: bool,
    gki: int,
    g_val: GroupData,
    g_snaps0: Seq<SnapshotData>,
    prepared0: Seq<SnapshotData>,
    media: Seq<Medium>,
    sid: u64,
    store: Seq<char>,
)
    requires
        spec_distinct_times(groups0),
        0 <= gki < sorted0.len(),
        sorted0[gki] == g_val,
        g_val.snapshots@ == g_snaps0,
        groups0.contains(g_val),
        !latest0 ==> prepared0.to_multiset() == crate::selection::finished_multiset(g_snaps0),
        latest0 ==> prepared0.len() == (if crate::selection::finished_multiset(g_snaps0).len()
            == 0 {
            0int
        } else {
            1int
        }),
        latest0 && prepared0.len() == 1 ==> crate::selection::finished_multiset(
            g_snaps0,
        ).contains(prepared0[0]) && (forall|k: int|
            0 <= k < g_snaps0.len() && (#[trigger] g_snaps0[k]).finished ==> g_snaps0[k].time
                <= prepared0[0].time),
        forall|t: int|
            0 <= t < prepared0.len() && (#[trigger] prepared0[t]).readable
                ==> crate::pool_writer::media_have_snapshot(
                media,
                sid,
                store,
                spec_key_of(g_val, prepared0[t]),
            ),
    ensures
        forall|sj: int|
            #[trigger] spec_selected_at(sorted0, anchor0, depth0, filters0, latest0, gki, sj)
                && sorted0[gki].snapshots@[sj].readable
                ==> crate::pool_writer::media_have_snapshot(
                media,
                sid,
                store,
                spec_key_of(sorted0[gki], sorted0[gki].snapshots@[sj]),
            ),
{
    broadcast use vstd::seq_lib::group_to_multiset_ensures;
    broadcast use vstd::multiset::group_multiset_axioms;

    assert forall|sj: int|
        #[trigger] spec_selected_at(sorted0, anchor0, depth0, filters0, latest0, gki, sj)
            && sorted0[gki].snapshots@[sj].readable implies
        crate::pool_writer::media_have_snapshot(
        media,
        sid,
        store,
        spec_key_of(sorted0[gki], sorted0[gki].snapshots@[sj]),
    ) by {
        let v = g_snaps0[sj];
        crate::selection::lemma_finished_multiset_contains(g_snaps0, sj);
        if !latest0 {
            assert(prepared0.to_multiset().contains(v));
            assert(prepared0.contains(v));
            let t = choose|t: int| 0 <= t < prepared0.len() && prepared0[t] == v;
            assert(prepared0[t].readable);
            assert(crate::pool_writer::media_have_snapshot(
                media,
                sid,
                store,
                spec_key_of(g_val, prepared0[t]),
            ));
        } else {
            assert(crate::selection::finished_multiset(g_snaps0).len() > 0);
            assert(prepared0.len() == 1);
            let r0 = prepared0[0];
            crate::selection::lemma_finished_multiset_member(g_snaps0, r0);
            let b = choose|b: int| 0 <= b < g_snaps0.len() && g_snaps0[b] == r0;
            assert(v.time <= r0.time);
            assert(spec_snapshot_is_latest(g_val, v.time as int));
            assert(r0.time <= v.time);
            let gi = choose|gi: int| 0 <= gi < groups0.len() && groups0[gi] == g_val;
            assert(b == sj) by {
                if b < sj {
                    assert((groups0[gi].snapshots@[b]).time != (groups0[gi].snapshots@[sj]).time);
                } else if sj < b {
                    assert((groups0[gi].snapshots@[sj]).time != (groups0[gi].snapshots@[b]).time);
                }
            }
            assert(r0 == v);
            assert(prepared0[0int].readable);
            assert(crate::pool_writer::media_have_snapshot(
                media,
                sid,
                store,
                spec_key_of(g_val, prepared0[0int]),
            ));
        }
    }
}

/// Coverage of the sorted work list transfers to the datastore's own
/// groups: every selected group is a value of the work list.
proof fn lemma_completeness_bridge(
    groups0: Seq<GroupData>,
    sorted0: Seq<GroupData>,
    anchor0: Seq<Seq<char>>,
    depth0: Option<usize>,
    filters0: Seq<GroupFilter>,
    latest0: bool,
    media: Seq<Medium>,
    sid: u64,
    store: Seq<char>,
)
    requires
        sorted0.to_multiset() == crate::selection::selected_multiset(
            groups0,
            anchor0,
            depth0,
            filters0,
        ),
        forall|ki: int, sj: int|
            0 <= ki < sorted0.len() && #[trigger] spec_selected_at(
                sorted0,
                anchor0,
                depth0,
                filters0,
                latest0,
                ki,
                sj,
            ) && sorted0[ki].snapshots@[sj].readable
                ==> crate::pool_writer::media_have_snapshot(
                media,
                sid,
                store,
                spec_key_of(sorted0[ki], sorted0[ki].snapshots@[sj]),
            ),
    ensures
        forall|gi: int, sj: int|
            #[trigger] spec_selected_at(groups0, anchor0, depth0, filters0, latest0, gi, sj)
                && groups0[gi].snapshots@[sj].readable
                ==> crate::pool_writer::media_have_snapshot(
                media,
                sid,
                store,
                spec_key_of(groups0[gi], groups0[gi].snapshots@[sj]),
            ),
{
    broadcast use vstd::seq_lib::group_to_multiset_ensures;
    broadcast use vstd::multiset::group_multiset_axioms;

    assert forall|gi: int, sj: int|
        #[trigger] spec_selected_at(groups0, anchor0, depth0, filters0, latest0, gi, sj)
            && groups0[gi].snapshots@[sj].readable implies
        crate::pool_writer::media_have_snapshot(
        media,
        sid,
        store,
        spec_key_of(groups0[gi], groups0[gi].snapshots@[sj]),
    ) by {
        crate::selection::lemma_selected_multiset_contains(groups0, anchor0, depth0, filters0, gi);
        assert(sorted0.to_multiset().contains(groups0[gi]));
        assert(sorted0.contains(groups0[gi]));
        let ki = choose|ki: int| 0 <= ki < sorted0.len() && sorted0[ki] == groups0[gi];
        assert(spec_selected_at(sorted0, anchor0, depth0, filters0, latest0, ki, sj));
        assert(sorted0[ki].snapshots@[sj].readable);
    }
}

/// Selected-snapshot coverage over the whole datastore survives while the
/// set's media grow.
proof fn lemma_final_completeness_mono(
    groups0: Seq<GroupData>,
    anchor0: Seq<Seq<char>>,
    depth0: Option<usize>,
    filters0: Seq<GroupFilter>,
    latest0: bool,
    a: Seq<Medium>,
    b: Seq<Medium>,
    sid: u64,
    store: Seq<char>,
)
    requires
        crate::pool_writer::set_media_grow(a, b, sid),
        forall|gi: int, sj: int|
            #[trigger] spec_selected_at(groups0, anchor0, depth0, filters0, latest0, gi, sj)
                && groups0[gi].snapshots@[sj].readable
                ==> crate::pool_writer::media_have_snapshot(
                a,
                sid,
                store,
                spec_key_of(groups0[gi], groups0[gi].snapshots@[sj]),
            ),
    ensures
        forall|gi: int, sj: int|
            #[trigger] spec_selected_at(groups0, anchor0, depth0, filters0, latest0, gi, sj)
                && groups0[gi].snapshots@[sj].readable
                ==> crate::pool_writer::media_have_snapshot(
                b,
                sid,
                store,
                spec_key_of(groups0[gi], groups0[gi].snapshots@[sj]),
            ),
{
    assert forall|gi: int, sj: int|
        #[trigger] spec_selected_at(groups0, anchor0, depth0, filters0, latest0, gi, sj)
            && groups0[gi].snapshots@[sj].readable implies
        crate::pool_writer::media_have_snapshot(
        b,
        sid,
        store,
        spec_key_of(groups0[gi], groups0[gi].snapshots@[sj]),
    ) by {
        crate::pool_writer::lemma_media_have_mono(
            a,
            b,
            sid,
            store,
            spec_key_of(groups0[gi], groups0[gi].snapshots@[sj]),
        );
    }
}

/// Some snapshot of the datastore's groups with this identity key is
/// selected by the job: its group is in scope and passes the filters, it
/// is finished, and in latest-only mode it is its group's newest.
pub open spec fn spec_selected_snapshot(
    groups: Seq<GroupData>,
    anchor: Seq<Seq<char>>,
    depth: Option<usize>,
    filters: Seq<GroupFilter>,
    latest_only: bool,
    key: SnapKey,
) -> bool {
    exists|gi: int, sj: int|
        {
            &&& 0 <= gi < groups.len()
            &&& crate::selection::spec_group_selected(#[trigger] groups[gi], anchor, depth, filters)
            &&& 0 <= sj < groups[gi].snapshots@.len()
            &&& (#[trigger] groups[gi].snapshots@[sj]).finished
            &&& (latest_only ==> spec_snapshot_is_latest(
                groups[gi],
                groups[gi].snapshots@[sj].time as int,
            ))
            &&& key == (
                groups[gi].ns.spec_path(),
                groups[gi].group.ty,
                groups[gi].group.id@,
                groups[gi].snapshots@[sj].time as int,
            )
        }
}

/// The anchor namespace of a job setup; the root when unset.
pub open spec fn spec_anchor(setup: &TapeBackupJobSetup) -> Seq<Seq<char>> {
    match setup.ns {
        Some(ns) => ns.spec_path(),
        None => Seq::empty(),
    }
}

/// The filters of a job setup; none when unset.
pub open spec fn spec_filters(setup: &TapeBackupJobSetup) -> Seq<GroupFilter> {
    match setup.group_filter {
        Some(f) => f@,
        None => Seq::empty(),
    }
}

/// The latest-only flag of a job setup; off when unset.
pub open spec fn spec_latest_only(setup: &TapeBackupJobSetup) -> bool {
    setup.latest_only == Some(true)
}

/// The set the run will write: a fresh one when the policy or the caller
/// starts one, else the pool's active set.
pub open spec fn spec_decided_set_id(pool: &MediaPool, force: bool, now: i64) -> u64 {
    if pool.spec_should_start_new_set(force, now) {
        pool.next_set_id
    } else {
        pool.current_set->Some_0.set_id
    }
}

/// Media that agree on set membership and content hold the same archives.
pub proof fn lemma_media_have_same(
    a: Seq<Medium>,
    b: Seq<Medium>,
    sid: u64,
    store: Seq<char>,
    key: SnapKey,
)
    requires
        a.len() == b.len(),
        forall|j: int|
            0 <= j < a.len() ==> (#[trigger] b[j]).media_set == a[j].media_set && b[j].content
                == a[j].content,
    ensures
        crate::pool_writer::media_have_snapshot(a, sid, store, key)
            == crate::pool_writer::media_have_snapshot(b, sid, store, key),
{
    if crate::pool_writer::media_have_snapshot(a, sid, store, key) {
        let (i, j) = choose|i: int, j: int|
            {
                &&& 0 <= i < a.len()
                &&& in_set(#[trigger] a[i], sid)
                &&& 0 <= j < a[i].content@.len()
                &&& (#[trigger] a[i].content@[j] matches
                    crate::pool::MediaContentItem::SnapshotArchive { store: st, snapshot: sn }
                    && st@ == store && sn.spec_key() == key)
            };
        assert(in_set(b[i], sid) && b[i].content == a[i].content);
        assert(crate::pool_writer::media_have_snapshot(b, sid, store, key));
    }
    if crate::pool_writer::media_have_snapshot(b, sid, store, key) {
        let (i, j) = choose|i: int, j: int|
            {
                &&& 0 <= i < b.len()
                &&& in_set(#[trigger] b[i], sid)
                &&& 0 <= j < b[i].content@.len()
                &&& (#[trigger] b[i].content@[j] matches
                    crate::pool::MediaContentItem::SnapshotArchive { store: st, snapshot: sn }
                    && st@ == store && sn.spec_key() == key)
            };
        assert(in_set(a[i], sid) && a[i].content == b[i].content);
        assert(crate::pool_writer::media_have_snapshot(a, sid, store, key));
    }
}

/// A reference naming the snapshot with this group identity and time.
fn make_snapshot_ref(
    ns: &crate::datastore::BackupNamespace,
    group: &crate::datastore::BackupGroup,
    time: i64,
) -> (r: SnapshotRef)
    ensures
        r.spec_key() == (ns.spec_path(), group.ty, group.id@, time as int),
{
    let path = ns.path.clone();
    proof {
        assert(path.deep_view() =~= ns.path.deep_view());
    }
    SnapshotRef {
        ns: crate::datastore::BackupNamespace { path },
        ty: group.ty,
        id: group.id.clone(),
        time,
    }
}

/// The whole job, for a given datastore and pool: refreshes the online
/// status, opens the pool for writing, selects and orders the work,
/// transfers each snapshot not already on the media set, writes the set
/// catalog if anything was written, commits, and finally exports or ejects.
/// The first return value is the writing session with the pool's final
/// state; the second the job's outcome.
#[verifier::loop_isolation(false)]
#[verifier::rlimit(100)]
pub fn backup_worker(
    pool: MediaPool,
    datastore: Datastore,
    setup: &TapeBackupJobSetup,
    force_media_set: bool,
    changer: &Option<Changer>,
    abort: &mut AbortSignal,
    now: i64,
    summary: &mut TapeBackupJobSummary,
    log: &mut Vec<LogEvent>,
) -> (res: (PoolWriter, Result<(), JobError>))
    requires
        pool.wf(),
        pool.next_set_id < u64::MAX,
        old(summary).snapshot_list@.len() == 0,
        old(summary).used_tapes is None,
    ensures
        res.0.wf(),
        res.0.spec_set_id() == spec_decided_set_id(&pool, force_media_set, now),
        res.1 == Ok::<(), JobError>(()) ==> res.0.committed,
        res.1 == Ok::<(), JobError>(()) ==> (final(summary).used_tapes matches Some(l)
            && l.deep_view() == set_labels(res.0.pool.media@, res.0.spec_set_id())),
        forall|k: int|
            0 <= k < final(summary).snapshot_list@.len() ==> spec_selected_snapshot(
                datastore.groups@,
                spec_anchor(setup),
                setup.max_depth,
                spec_filters(setup),
                spec_latest_only(setup),
                (#[trigger] final(summary).snapshot_list@[k]).spec_key(),
            ) && res.0.spec_contains_snapshot(
                datastore.name@,
                final(summary).snapshot_list@[k].spec_key(),
            ),
        (forall|key: SnapKey|
            spec_selected_snapshot(
                datastore.groups@,
                spec_anchor(setup),
                setup.max_depth,
                spec_filters(setup),
                spec_latest_only(setup),
                key,
            ) ==> #[trigger] crate::pool_writer::media_have_snapshot(
                pool.media@,
                spec_decided_set_id(&pool, force_media_set, now),
                datastore.name@,
                key,
            )) ==> (final(summary).snapshot_list@.len() == 0 && res.0.pool.media@.len()
            == pool.media@.len() && (forall|j: int|
            0 <= j < pool.media@.len() ==> (#[trigger] res.0.pool.media@[j]).content
                == pool.media@[j].content && res.0.pool.media@[j].used == pool.media@[j].used
                && res.0.pool.media@[j].status == pool.media@[j].status
                && res.0.pool.media@[j].media_set == pool.media@[j].media_set)),
        res.1 matches Err(e) ==> (e == JobError::NoUsableMedia || e == JobError::ChunkReadError
            || e == JobError::SnapshotArchiveFailed || e == JobError::CatalogArchiveFailed || e
            == JobError::Aborted || e == JobError::JobErrors),
        res.1 == Ok::<(), JobError>(()) && spec_distinct_times(datastore.groups@) ==> (forall|
            gi: int,
            sj: int,
        |
            #[trigger] spec_selected_at(
                datastore.groups@,
                spec_anchor(setup),
                setup.max_depth,
                spec_filters(setup),
                spec_latest_only(setup),
                gi,
                sj,
            ) && datastore.groups@[gi].snapshots@[sj].readable
                ==> crate::pool_writer::media_have_snapshot(
                res.0.pool.media@,
                res.0.spec_set_id(),
                datastore.name@,
                spec_key_of(datastore.groups@[gi], datastore.groups@[gi].snapshots@[sj]),
            )),
        res.1 == Err::<(), JobError>(JobError::JobErrors) ==> (exists|gi: int, sj: int|
            #[trigger] spec_selected_at(
                datastore.groups@,
                spec_anchor(setup),
                setup.max_depth,
                spec_filters(setup),
                spec_latest_only(setup),
                gi,
                sj,
            ) && !datastore.groups@[gi].snapshots@[sj].readable
                && !datastore.groups@[gi].snapshots@[sj].vanished
                && !crate::pool_writer::media_have_snapshot(
                pool.media@,
                spec_decided_set_id(&pool, force_media_set, now),
                datastore.name@,
                spec_key_of(datastore.groups@[gi], datastore.groups@[gi].snapshots@[sj]),
            )),
        res.1 == Ok::<(), JobError>(()) && final(summary).snapshot_list@.len() > 0
            ==> crate::pool_writer::media_have_catalog(res.0.pool.media@, res.0.spec_set_id()),
        final(log)@.contains(
            LogEvent::FoundGroups {
                kept: crate::selection::selected_multiset(
                    datastore.groups@,
                    spec_anchor(setup),
                    setup.max_depth,
                    spec_filters(setup),
                ).len() as u64,
                total: crate::selection::count_scope(
                    datastore.groups@,
                    spec_anchor(setup),
                    setup.max_depth,
                ) as u64,
            },
        ),
{
    let Datastore { name: store_name, groups } = datastore;
    let ghost groups0 = groups@;
    let ghost anchor0 = spec_anchor(setup);
    let ghost depth0 = setup.max_depth;
    let ghost filters0 = spec_filters(setup);
    let ghost latest0 = spec_latest_only(setup);
    let ghost pool0 = pool;
    let ghost sid = spec_decided_set_id(&pool, force_media_set, now);
    let ghost dt = spec_distinct_times(groups0);
    let ghost p1_antecedent = forall|key: SnapKey|
        spec_selected_snapshot(groups0, anchor0, depth0, filters0, latest0, key)
            ==> #[trigger] crate::pool_writer::media_have_snapshot(
            pool0.media@,
            sid,
            store_name@,
            key,
        );
    let mut pool = pool;
    let _changer_name = update_media_online_status(&mut pool, changer, log);
    let ghost refreshed = pool;
    let mut writer = PoolWriter::new(pool, setup.drive.clone(), force_media_set, now);
    let ghost writer0 = writer;
    proof {
        assert(writer.spec_set_id() == sid);
        assert forall|key: SnapKey| #[trigger] crate::pool_writer::media_have_snapshot(
            refreshed.media@,
            sid,
            store_name@,
            key,
        ) == crate::pool_writer::media_have_snapshot(pool0.media@, sid, store_name@, key) by {
            lemma_media_have_same(pool0.media@, refreshed.media@, sid, store_name@, key);
        }
    }
    let root = crate::datastore::BackupNamespace::root();
    let anchor_ref = match &setup.ns {
        Some(ns) => ns,
        None => &root,
    };
    proof {
        assert(anchor_ref.spec_path() =~= anchor0);
    }
    let empty_filters: Vec<GroupFilter> = Vec::new();
    let filters_ref = match &setup.group_filter {
        Some(f) => f,
        None => &empty_filters,
    };
    proof {
        assert(filters_ref@ =~= filters0);
    }
    let total = crate::selection::count_in_scope(&groups, anchor_ref, setup.max_depth);
    let work_unsorted = crate::selection::filter_selected(groups, anchor_ref, setup.max_depth, filters_ref);
    let mut work = crate::selection::sort_groups(work_unsorted);
    let ghost sorted0 = work@;
    proof {
        broadcast use vstd::seq_lib::group_to_multiset_ensures;

        assert(sorted0.to_multiset().len() == sorted0.len());
    }
    log.push(
        LogEvent::FoundGroups { kept: work.len() as u64, total: total as u64 },
    );
    let ghost found_event = LogEvent::FoundGroups {
        kept: crate::selection::selected_multiset(groups0, anchor0, depth0, filters0).len() as u64,
        total: crate::selection::count_scope(groups0, anchor0, depth0) as u64,
    };
    let ghost fe_idx = log@.len() - 1;
    proof {
        assert(log@[fe_idx] == found_event);
    }
    let total_groups64: u64 = work.len() as u64;
    let mut progress = StoreProgress::new(total_groups64);
    let latest_only = match setup.latest_only {
        Some(b) => b,
        None => false,
    };
    if latest_only {
        log.push(LogEvent::LatestOnly);
    }
    let mut errors = false;
    let mut need_catalog = false;
    let mut done_groups64: u64 = 0;
    while work.len() > 0
        invariant
            writer.wf(),
            writer.spec_set_id() == sid,
            writer.drive == writer0.drive,
            !writer.committed,
            writer.pool.name == writer0.pool.name,
            writer.pool.allocation == writer0.pool.allocation,
            writer.pool.retention == writer0.pool.retention,
            writer.pool.media@.len() == writer0.pool.media@.len(),
            work@ == sorted0.skip(sorted0.len() - work@.len()),
            work@.len() <= sorted0.len(),
            sorted0.to_multiset() == crate::selection::selected_multiset(
                groups0,
                anchor0,
                depth0,
                filters0,
            ),
            progress.total_groups == total_groups64,
            0 <= fe_idx < log@.len() && log@[fe_idx] == found_event,
            found_event == (LogEvent::FoundGroups {
                kept: crate::selection::selected_multiset(
                    groups0,
                    anchor0,
                    depth0,
                    filters0,
                ).len() as u64,
                total: crate::selection::count_scope(groups0, anchor0, depth0) as u64,
            }),
            done_groups64 + work@.len() == sorted0.len(),
            total_groups64 == sorted0.len(),
            latest_only == latest0,
            forall|key: SnapKey| #[trigger] crate::pool_writer::media_have_snapshot(
                refreshed.media@,
                sid,
                store_name@,
                key,
            ) == crate::pool_writer::media_have_snapshot(pool0.media@, sid, store_name@, key),
            forall|store: Seq<char>, key: SnapKey| #[trigger] writer0.spec_contains_snapshot(
                store,
                key,
            ) == crate::pool_writer::media_have_snapshot(refreshed.media@, sid, store, key),
            forall|k: int|
                0 <= k < summary.snapshot_list@.len() ==> spec_selected_snapshot(
                    groups0,
                    anchor0,
                    depth0,
                    filters0,
                    latest0,
                    (#[trigger] summary.snapshot_list@[k]).spec_key(),
                ) && writer.spec_contains_snapshot(
                    store_name@,
                    summary.snapshot_list@[k].spec_key(),
                ),
            summary.used_tapes is None,
            p1_antecedent ==> (writer == writer0 && summary.snapshot_list@.len() == 0
                && !need_catalog),
            p1_antecedent == (forall|key: SnapKey|
                spec_selected_snapshot(groups0, anchor0, depth0, filters0, latest0, key)
                    ==> #[trigger] crate::pool_writer::media_have_snapshot(
                    pool0.media@,
                    sid,
                    store_name@,
                    key,
                )),
            writer.index_sound(),
            writer0.catalog_index@.is_prefix_of(writer.catalog_index@),
            summary.snapshot_list@.len() > 0 ==> need_catalog,
            dt ==> (forall|ki: int, sj: int|
                0 <= ki < sorted0.len() - work@.len() && #[trigger] spec_selected_at(
                    sorted0,
                    anchor0,
                    depth0,
                    filters0,
                    latest0,
                    ki,
                    sj,
                ) && sorted0[ki].snapshots@[sj].readable
                    ==> crate::pool_writer::media_have_snapshot(
                    writer.pool.media@,
                    sid,
                    store_name@,
                    spec_key_of(sorted0[ki], sorted0[ki].snapshots@[sj]),
                )),
            errors ==> (exists|gi: int, sj: int|
                #[trigger] spec_selected_at(groups0, anchor0, depth0, filters0, latest0, gi, sj)
                    && !groups0[gi].snapshots@[sj].readable
                    && !groups0[gi].snapshots@[sj].vanished
                    && !crate::pool_writer::media_have_snapshot(
                    pool0.media@,
                    sid,
                    store_name@,
                    spec_key_of(groups0[gi], groups0[gi].snapshots@[sj]),
                )),
        decreases work@.len(),
    {
        let ghost work_before = work@;
        let g = work.remove(0);
        let ghost g_val = g;
        proof {
            broadcast use vstd::seq_lib::group_to_multiset_ensures;
            broadcast use vstd::multiset::group_multiset_axioms;

            assert(g == sorted0[sorted0.len() - work_before.len()]);
            assert(work@ =~= sorted0.skip(sorted0.len() - work@.len()));
            assert(sorted0.contains(g)) by {
                assert(sorted0[sorted0.len() - work_before.len()] == g);
            }
            assert(sorted0.to_multiset().contains(g));
            assert(crate::selection::selected_multiset(groups0, anchor0, depth0, filters0).contains(
                g,
            ));
            crate::selection::lemma_selected_multiset_member(
                groups0,
                anchor0,
                depth0,
                filters0,
                g,
            );
        }
        let GroupData { ns: g_ns, group: g_group, snapshots: g_snaps } = g;
        progress.done_groups = done_groups64;
        progress.done_snapshots = 0;
        progress.group_snapshots = 0;
        let ghost g_snaps0 = g_snaps@;
        let snaps = crate::selection::prepare_snapshots(g_snaps, latest_only);
        if snaps.len() == 0 {
            log.push(
                LogEvent::GroupEmpty { ty: g_group.ty, id: g_group.id },
            );
            proof {
                assert forall|sj: int|
                    !(#[trigger] spec_selected_at(
                        sorted0,
                        anchor0,
                        depth0,
                        filters0,
                        latest0,
                        done_groups64 as int,
                        sj,
                    )) || !sorted0[done_groups64 as int].snapshots@[sj].finished by {
                    if spec_selected_at(
                        sorted0,
                        anchor0,
                        depth0,
                        filters0,
                        latest0,
                        done_groups64 as int,
                        sj,
                    ) {
                        assert(sorted0[done_groups64 as int] == g_val);
                        crate::selection::lemma_finished_multiset_contains(g_snaps0, sj);
                        assert(crate::selection::finished_multiset(g_snaps0).len() > 0);
                        assert(false);
                    }
                }
            }
            done_groups64 = done_groups64 + 1;
            continue ;
        }
        let group_snaps64: u64 = snaps.len() as u64;
        progress.group_snapshots = group_snaps64;
        let ghost prepared0 = snaps@;
        let mut snaps = snaps;
        let mut done_snaps64: u64 = 0;
        while snaps.len() > 0
            invariant
                writer.wf(),
                writer.spec_set_id() == sid,
                writer.drive == writer0.drive,
                !writer.committed,
                writer.pool.name == writer0.pool.name,
                writer.pool.allocation == writer0.pool.allocation,
                writer.pool.retention == writer0.pool.retention,
                writer.pool.media@.len() == writer0.pool.media@.len(),
                snaps@ == prepared0.skip(prepared0.len() - snaps@.len()),
                snaps@.len() <= prepared0.len(),
                done_snaps64 + snaps@.len() == prepared0.len(),
                group_snaps64 == prepared0.len(),
                latest_only == latest0,
                progress.total_groups == total_groups64,
                progress.done_groups == done_groups64,
                progress.group_snapshots == group_snaps64,
                done_groups64 < total_groups64,
                progress.done_snapshots <= done_snaps64,
                !latest0 ==> prepared0.to_multiset() == crate::selection::finished_multiset(
                    g_snaps0,
                ),
                latest0 ==> (forall|k: int|
                    0 <= k < prepared0.len() ==> crate::selection::finished_multiset(
                        g_snaps0,
                    ).contains(#[trigger] prepared0[k]) && (forall|m: int|
                        0 <= m < g_snaps0.len() && (#[trigger] g_snaps0[m]).finished
                            ==> g_snaps0[m].time <= prepared0[k].time)),
                0 <= fe_idx < log@.len() && log@[fe_idx] == found_event,
                found_event == (LogEvent::FoundGroups {
                    kept: crate::selection::selected_multiset(
                        groups0,
                        anchor0,
                        depth0,
                        filters0,
                    ).len() as u64,
                    total: crate::selection::count_scope(groups0, anchor0, depth0) as u64,
                }),
                forall|k: int| 0 <= k < prepared0.len() ==> (#[trigger] prepared0[k]).finished,
                crate::selection::spec_group_selected(g_val, anchor0, depth0, filters0),
                g_val.ns == g_ns,
                g_val.group == g_group,
                g_val.snapshots@ == g_snaps0,
                groups0.contains(g_val),
                forall|key: SnapKey| #[trigger] crate::pool_writer::media_have_snapshot(
                    refreshed.media@,
                    sid,
                    store_name@,
                    key,
                ) == crate::pool_writer::media_have_snapshot(pool0.media@, sid, store_name@, key),
                forall|store: Seq<char>, key: SnapKey| #[trigger] writer0.spec_contains_snapshot(
                    store,
                    key,
                ) == crate::pool_writer::media_have_snapshot(refreshed.media@, sid, store, key),
                forall|k: int|
                    0 <= k < summary.snapshot_list@.len() ==> spec_selected_snapshot(
                        groups0,
                        anchor0,
                        depth0,
                        filters0,
                        latest0,
                        (#[trigger] summary.snapshot_list@[k]).spec_key(),
                    ) && writer.spec_contains_snapshot(
                        store_name@,
                        summary.snapshot_list@[k].spec_key(),
                    ),
                summary.used_tapes is None,
                p1_antecedent ==> (writer == writer0 && summary.snapshot_list@.len() == 0
                    && !need_catalog),
                p1_antecedent == (forall|key: SnapKey|
                    spec_selected_snapshot(groups0, anchor0, depth0, filters0, latest0, key)
                        ==> #[trigger] crate::pool_writer::media_have_snapshot(
                        pool0.media@,
                        sid,
                        store_name@,
                        key,
                    )),
                writer.index_sound(),
                writer0.catalog_index@.is_prefix_of(writer.catalog_index@),
                summary.snapshot_list@.len() > 0 ==> need_catalog,
                g_val == sorted0[done_groups64 as int],
                done_groups64 < sorted0.len(),
                dt ==> (forall|ki: int, sj: int|
                    0 <= ki < done_groups64 && #[trigger] spec_selected_at(
                        sorted0,
                        anchor0,
                        depth0,
                        filters0,
                        latest0,
                        ki,
                        sj,
                    ) && sorted0[ki].snapshots@[sj].readable
                        ==> crate::pool_writer::media_have_snapshot(
                        writer.pool.media@,
                        sid,
                        store_name@,
                        spec_key_of(sorted0[ki], sorted0[ki].snapshots@[sj]),
                    )),
                dt ==> (forall|t: int|
                    0 <= t < done_snaps64 && (#[trigger] prepared0[t]).readable
                        ==> crate::pool_writer::media_have_snapshot(
                        writer.pool.media@,
                        sid,
                        store_name@,
                        spec_key_of(g_val, prepared0[t]),
                    )),
                errors ==> (exists|gi: int, sj: int|
                    #[trigger] spec_selected_at(groups0, anchor0, depth0, filters0, latest0, gi, sj)
                        && !groups0[gi].snapshots@[sj].readable
                        && !groups0[gi].snapshots@[sj].vanished
                        && !crate::pool_writer::media_have_snapshot(
                        pool0.media@,
                        sid,
                        store_name@,
                        spec_key_of(groups0[gi], groups0[gi].snapshots@[sj]),
                    )),
            decreases snaps@.len(),
        {
            let ghost snaps_before = snaps@;
            let s = snaps.remove(0);
            done_snaps64 = done_snaps64 + 1;
            proof {
                broadcast use vstd::seq_lib::group_to_multiset_ensures;
                broadcast use vstd::multiset::group_multiset_axioms;

                assert(s == prepared0[prepared0.len() - snaps_before.len()]);
                assert(snaps@ =~= prepared0.skip(prepared0.len() - snaps@.len()));
            }
            let snap_ref = make_snapshot_ref(&g_ns, &g_group, s.time);
            proof {
                broadcast use vstd::seq_lib::group_to_multiset_ensures;
                broadcast use vstd::multiset::group_multiset_axioms;

                let ghost ki = prepared0.len() - snaps_before.len();
                assert(prepared0[ki] == s && prepared0[ki].finished);
                if !latest0 {
                    assert(prepared0.contains(s)) by {
                        assert(prepared0[ki] == s);
                    }
                    assert(prepared0.to_multiset().contains(s));
                    assert(crate::selection::finished_multiset(g_snaps0).contains(s));
                    crate::selection::lemma_finished_multiset_member(g_snaps0, s);
                } else {
                    assert(crate::selection::finished_multiset(g_snaps0).contains(s));
                    crate::selection::lemma_finished_multiset_member(g_snaps0, s);
                }
                let gi = choose|gi: int| 0 <= gi < groups0.len() && groups0[gi] == g_val;
                let sj = choose|sj: int| 0 <= sj < g_snaps0.len() && g_snaps0[sj] == s;
                assert(spec_selected_snapshot(
                    groups0,
                    anchor0,
                    depth0,
                    filters0,
                    latest0,
                    snap_ref.spec_key(),
                )) by {
                    assert(groups0[gi] == g_val && g_val.snapshots@[sj] == s);
                    if latest0 {
                        assert(spec_snapshot_is_latest(groups0[gi], s.time as int)) by {
                            assert(prepared0[0int] == s || prepared0[ki] == s);
                        }
                    }
                    assert({
                        &&& 0 <= gi < groups0.len()
                        &&& crate::selection::spec_group_selected(
                            groups0[gi],
                            anchor0,
                            depth0,
                            filters0,
                        )
                        &&& 0 <= sj < groups0[gi].snapshots@.len()
                        &&& groups0[gi].snapshots@[sj].finished
                        &&& (latest0 ==> spec_snapshot_is_latest(
                            groups0[gi],
                            groups0[gi].snapshots@[sj].time as int,
                        ))
                        &&& snap_ref.spec_key() == (
                            groups0[gi].ns.spec_path(),
                            groups0[gi].group.ty,
                            groups0[gi].group.id@,
                            groups0[gi].snapshots@[sj].time as int,
                        )
                    });
                }
                assert(exists|gi2: int, sj2: int|
                    #[trigger] spec_selected_at(
                        groups0,
                        anchor0,
                        depth0,
                        filters0,
                        latest0,
                        gi2,
                        sj2,
                    ) && groups0[gi2].snapshots@[sj2] == s && spec_key_of(
                        groups0[gi2],
                        groups0[gi2].snapshots@[sj2],
                    ) == snap_ref.spec_key()) by {
                    assert(spec_selected_at(
                        groups0,
                        anchor0,
                        depth0,
                        filters0,
                        latest0,
                        gi,
                        sj,
                    ) && groups0[gi].snapshots@[sj] == s && spec_key_of(
                        groups0[gi],
                        groups0[gi].snapshots@[sj],
                    ) == snap_ref.spec_key());
                }
            }
            if writer.contains_snapshot(store_name.as_str(), &snap_ref) {
                log.push(
                    LogEvent::SkipSnapshot {
                        snap: crate::pool_writer::copy_snapshot_ref(&snap_ref),
                    },
                );
                proof {
                    let ghost ki = prepared0.len() - snaps_before.len();
                    assert(crate::pool_writer::media_have_snapshot(
                        writer.pool.media@,
                        sid,
                        store_name@,
                        snap_ref.spec_key(),
                    )) by {
                        let k = choose|k: int|
                            0 <= k < writer.catalog_index@.len() && (
                            #[trigger] writer.catalog_index@[k]).0@ == store_name@
                                && writer.catalog_index@[k].1.spec_key() == snap_ref.spec_key();
                        assert(crate::pool_writer::media_have_snapshot(
                            writer.pool.media@,
                            sid,
                            writer.catalog_index@[k].0@,
                            writer.catalog_index@[k].1.spec_key(),
                        ));
                    }
                    assert(spec_key_of(g_val, prepared0[ki]) == snap_ref.spec_key());
                }
                continue ;
            }
            proof {
                if p1_antecedent {
                    assert(crate::pool_writer::media_have_snapshot(
                        pool0.media@,
                        sid,
                        store_name@,
                        snap_ref.spec_key(),
                    ));
                    assert(writer0.spec_contains_snapshot(store_name@, snap_ref.spec_key()));
                    assert(writer.spec_contains_snapshot(store_name@, snap_ref.spec_key()));
                }
                assert(!p1_antecedent);
            }
            need_catalog = true;
            let ghost index_before = writer.catalog_index@;
            let ghost media_before = writer.pool.media@;
            let ghost not_on_set_initially = !crate::pool_writer::media_have_snapshot(
                pool0.media@,
                sid,
                store_name@,
                snap_ref.spec_key(),
            );
            proof {
                assert(not_on_set_initially) by {
                    assert(!crate::pool_writer::index_has(
                        index_before,
                        store_name@,
                        snap_ref.spec_key(),
                    ));
                    if crate::pool_writer::index_has(
                        writer0.catalog_index@,
                        store_name@,
                        snap_ref.spec_key(),
                    ) {
                        assert forall|k: int|
                            0 <= k < writer0.catalog_index@.len() implies #[trigger] index_before[k]
                            == writer0.catalog_index@[k] by {
                            assert(index_before.subrange(0, writer0.catalog_index@.len() as int)[k]
                                == index_before[k]);
                        }
                        crate::pool_writer::lemma_index_has_extend(
                            writer0.catalog_index@,
                            index_before,
                            store_name@,
                            snap_ref.spec_key(),
                        );
                    }
                    assert(!writer0.spec_contains_snapshot(store_name@, snap_ref.spec_key()));
                }
            }
            let ghost log_before = log@;
            let step = backup_snapshot(
                &mut writer,
                store_name.as_str(),
                &snap_ref,
                &s,
                abort,
                now,
                log,
            );
            proof {
                assert(log@.subrange(0, log_before.len() as int) == log_before);
                assert(log@[fe_idx] == log_before[fe_idx]) by {
                    assert(log@.subrange(0, log_before.len() as int)[fe_idx] == log@[fe_idx]);
                }
                lemma_index_sound_preserved(
                    index_before,
                    writer.catalog_index@,
                    media_before,
                    writer.pool.media@,
                    sid,
                );
                lemma_prefix_trans(
                    writer0.catalog_index@,
                    index_before,
                    writer.catalog_index@,
                );
                if dt {
                    lemma_outer_completeness_mono(
                        sorted0,
                        anchor0,
                        depth0,
                        filters0,
                        latest0,
                        done_groups64 as int,
                        media_before,
                        writer.pool.media@,
                        sid,
                        store_name@,
                    );
                    lemma_inner_completeness_mono(
                        g_val,
                        prepared0,
                        done_snaps64 - 1,
                        media_before,
                        writer.pool.media@,
                        sid,
                        store_name@,
                    );
                }
                assert forall|k: int|
                    0 <= k < summary.snapshot_list@.len() implies spec_selected_snapshot(
                    groups0,
                    anchor0,
                    depth0,
                    filters0,
                    latest0,
                    (#[trigger] summary.snapshot_list@[k]).spec_key(),
                ) && writer.spec_contains_snapshot(
                    store_name@,
                    summary.snapshot_list@[k].spec_key(),
                ) by {
                    assert(crate::pool_writer::index_has(
                        index_before,
                        store_name@,
                        summary.snapshot_list@[k].spec_key(),
                    ));
                    crate::pool_writer::lemma_index_has_extend(
                        index_before,
                        writer.catalog_index@,
                        store_name@,
                        summary.snapshot_list@[k].spec_key(),
                    );
                }
            }
            let outcome = match step {
                Ok(o) => o,
                Err(e) => {
                    return (writer, Err(e));
                },
            };
            match outcome {
                SnapshotBackupResult::Success => {
                    summary.snapshot_list.push(
                        crate::pool_writer::copy_snapshot_ref(&snap_ref),
                    );
                    proof {
                        assert(summary.snapshot_list@.last().spec_key() == snap_ref.spec_key());
                        let ghost ki = prepared0.len() - snaps_before.len();
                        assert(spec_key_of(g_val, prepared0[ki]) == snap_ref.spec_key());
                        assert(crate::pool_writer::media_have_snapshot(
                            writer.pool.media@,
                            sid,
                            store_name@,
                            spec_key_of(g_val, prepared0[ki]),
                        ));
                    }
                },
                SnapshotBackupResult::Error => {
                    errors = true;
                    proof {
                        let (gi, sj) = choose|gi: int, sj: int|
                            #[trigger] spec_selected_at(
                                groups0,
                                anchor0,
                                depth0,
                                filters0,
                                latest0,
                                gi,
                                sj,
                            ) && groups0[gi].snapshots@[sj] == s && spec_key_of(
                                groups0[gi],
                                groups0[gi].snapshots@[sj],
                            ) == snap_ref.spec_key();
                        assert(!groups0[gi].snapshots@[sj].readable
                            && !groups0[gi].snapshots@[sj].vanished);
                        assert(!crate::pool_writer::media_have_snapshot(
                            pool0.media@,
                            sid,
                            store_name@,
                            spec_key_of(groups0[gi], groups0[gi].snapshots@[sj]),
                        ));
                    }
                },
                SnapshotBackupResult::Ignored => {},
            }
            progress.done_snapshots = done_snaps64;
            let pm = progress.permille();
            log.push(LogEvent::Progress { permille: pm });
        }
        proof {
            if dt {
                lemma_group_completeness(
                    groups0,
                    sorted0,
                    anchor0,
                    depth0,
                    filters0,
                    latest0,
                    done_groups64 as int,
                    g_val,
                    g_snaps0,
                    prepared0,
                    writer.pool.media@,
                    sid,
                    store_name@,
                );
            }
        }
        done_groups64 = done_groups64 + 1;
    }
    let ghost media_loopend = writer.pool.media@;
    proof {
        if dt {
            lemma_completeness_bridge(
                groups0,
                sorted0,
                anchor0,
                depth0,
                filters0,
                latest0,
                media_loopend,
                sid,
                store_name@,
            );
        }
    }
    writer.commit();
    proof {
        assert(writer.pool.media@ == media_loopend);
        crate::pool_writer::lemma_set_media_grow_refl(media_loopend, sid);
    }
    if need_catalog {
        log.push(LogEvent::CatalogStart);
        let ghost media_cat0 = writer.pool.media@;
        let uuid = match writer.load_writable_media(now) {
            Ok(uuid) => uuid,
            Err(_) => {
                proof {
                    assert(log@.contains(found_event)) by {
                        assert(log@[fe_idx] == found_event);
                    }
                }
                return (writer, Err(JobError::NoUsableMedia));
            },
        };
        proof {
            crate::pool_writer::lemma_set_media_grow_trans(
                media_loopend,
                media_cat0,
                writer.pool.media@,
                sid,
            );
        }
        let ghost media_cat1 = writer.pool.media@;
        let done_c = writer.append_catalog_archive();
        proof {
            crate::pool_writer::lemma_set_media_grow_trans(
                media_loopend,
                media_cat1,
                writer.pool.media@,
                sid,
            );
        }
        if !done_c {
            log.push(LogEvent::CatalogRetry);
            let ghost media_cat2 = writer.pool.media@;
            writer.set_media_status_full(uuid);
            proof {
                crate::pool_writer::lemma_set_media_grow_trans(
                    media_loopend,
                    media_cat2,
                    writer.pool.media@,
                    sid,
                );
            }
            let ghost media_cat3 = writer.pool.media@;
            match writer.load_writable_media(now) {
                Ok(_) => {},
                Err(_) => {
                    proof {
                        assert(log@.contains(found_event)) by {
                            assert(log@[fe_idx] == found_event);
                        }
                    }
                    return (writer, Err(JobError::NoUsableMedia));
                },
            }
            proof {
                crate::pool_writer::lemma_set_media_grow_trans(
                    media_loopend,
                    media_cat3,
                    writer.pool.media@,
                    sid,
                );
            }
            let ghost media_cat4 = writer.pool.media@;
            let done_c2 = writer.append_catalog_archive();
            proof {
                crate::pool_writer::lemma_set_media_grow_trans(
                    media_loopend,
                    media_cat4,
                    writer.pool.media@,
                    sid,
                );
            }
            if !done_c2 {
                proof {
                    assert(log@.contains(found_event)) by {
                        assert(log@[fe_idx] == found_event);
                    }
                }
                return (writer, Err(JobError::CatalogArchiveFailed));
            }
        }
    }
    proof {
        if need_catalog {
            assert(crate::pool_writer::media_have_catalog(writer.pool.media@, sid));
        }
    }
    let ghost media_precat = writer.pool.media@;
    let export = match setup.export_media_set {
        Some(b) => b,
        None => false,
    };
    let eject = match setup.eject_media {
        Some(b) => b,
        None => false,
    };
    if export {
        writer.export_media_set();
        proof {
            crate::pool_writer::lemma_set_media_grow_trans(
                media_loopend,
                media_precat,
                writer.pool.media@,
                sid,
            );
            if need_catalog {
                crate::pool_writer::lemma_media_have_catalog_mono(
                    media_precat,
                    writer.pool.media@,
                    sid,
                );
            }
        }
    } else if eject {
        writer.eject_media();
    }
    proof {
        assert(log@.contains(found_event)) by {
            assert(log@[fe_idx] == found_event);
        }
    }
    if errors {
        return (writer, Err(JobError::JobErrors));
    }
    proof {
        if dt {
            lemma_final_completeness_mono(
                groups0,
                anchor0,
                depth0,
                filters0,
                latest0,
                media_loopend,
                writer.pool.media@,
                sid,
                store_name@,
            );
        }
    }
    let labels = writer.get_used_media_labels();
    summary.used_tapes = Some(labels);
    (writer, Ok(()))
}


/// A request to the notification collaborator: whom to tell, and whether
/// the run succeeded.
pub struct NotificationRequest {
    pub recipient: String,
    pub success: bool,
}

/// Everything one run produces: its correlation id, the writing session
/// with the pool's final state, the summary, the log stream, the worker's
/// outcome, and the notification to deliver.
pub struct BackupJobOutcome {
    /// `store:pool:drive`, distinguishing submissions against the same
    /// hardware triple.
    pub job_id: String,
    pub writer: PoolWriter,
    pub summary: TapeBackupJobSummary,
    pub log: Vec<LogEvent>,
    pub result: Result<(), JobError>,
    pub notification: NotificationRequest,
}

/// Runs a backup job: checks the three capabilities, resolves the handed
/// datastore and pool against the setup, takes the exclusive drive lock
/// (failing immediately if held), publishes the drive state, runs the
/// worker, and always clears the drive state, releases the lock and
/// prepares a notification, whatever the worker's outcome.
pub fn backup(
    setup: TapeBackupJobSetup,
    force_media_set: bool,
    auth_id: &str,
    acl: &AccessControl,
    datastore: Datastore,
    pool: MediaPool,
    changer: &Option<Changer>,
    drive_locks: &mut DriveLocks,
    drive_states: &mut DriveStates,
    abort: &mut AbortSignal,
    now: i64,
) -> (r: Result<BackupJobOutcome, JobError>)
    requires
        pool.wf(),
        pool.next_set_id < u64::MAX,
        old(drive_states).wf(),
    ensures
        final(drive_states).wf(),
        ({
            let authorized = acl.spec_has_privs(
                auth_id@,
                seq!["datastore"@, setup.store@],
                PRIV_DATASTORE_READ,
            ) && acl.spec_has_privs(auth_id@, seq!["tape"@, "drive"@, setup.drive@], PRIV_TAPE_WRITE)
                && acl.spec_has_privs(auth_id@, seq!["tape"@, "pool"@, setup.pool@], PRIV_TAPE_WRITE);
            &&& (!authorized ==> r == Err::<BackupJobOutcome, JobError>(JobError::Unauthorized)
                && *final(drive_locks) == *old(drive_locks)
                && *final(drive_states) == *old(drive_states))
            &&& (authorized && datastore.name@ != setup.store@ ==> r == Err::<
                BackupJobOutcome,
                JobError,
            >(JobError::StoreMismatch) && *final(drive_locks) == *old(drive_locks)
                && *final(drive_states) == *old(drive_states))
            &&& (authorized && datastore.name@ == setup.store@ && pool.name@ != setup.pool@ ==> r
                == Err::<BackupJobOutcome, JobError>(JobError::PoolMismatch) && *final(drive_locks)
                == *old(drive_locks) && *final(drive_states) == *old(drive_states))
            &&& (authorized && datastore.name@ == setup.store@ && pool.name@ == setup.pool@ && old(
                drive_locks,
            ).spec_holds(setup.drive@) ==> r == Err::<BackupJobOutcome, JobError>(
                JobError::DriveBusy,
            ) && *final(drive_locks) == *old(drive_locks)
                && *final(drive_states) == *old(drive_states))
            &&& (authorized && datastore.name@ == setup.store@ && pool.name@ == setup.pool@ && !old(
                drive_locks,
            ).spec_holds(setup.drive@) ==> r is Ok)
        }),
        r matches Ok(o) ==> {
            &&& o.writer.wf()
            &&& o.job_id@ == setup.store@ + ":"@ + setup.pool@ + ":"@ + setup.drive@
            &&& o.notification.recipient@ == (match setup.notify_user {
                Some(u) => u@,
                None => "root@pam"@,
            })
            &&& o.notification.success == (o.result is Ok)
            &&& final(drive_locks).locked@ == old(drive_locks).locked@
            &&& final(drive_states).spec_get(setup.drive@) == Some(""@)
        },
{
    check_backup_permission(
        acl,
        auth_id,
        setup.store.as_str(),
        setup.pool.as_str(),
        setup.drive.as_str(),
    )?;
    if !str_eq(datastore.name.as_str(), setup.store.as_str()) {
        return Err(JobError::StoreMismatch);
    }
    if !str_eq(pool.name.as_str(), setup.pool.as_str()) {
        return Err(JobError::PoolMismatch);
    }
    let ghost locks0 = *drive_locks;
    if !drive_locks.acquire(setup.drive.as_str()) {
        return Err(JobError::DriveBusy);
    }
    let job_id = setup.store.clone().concat(":").concat(setup.pool.as_str()).concat(
        ":",
    ).concat(setup.drive.as_str());
    proof {
        assert(job_id@ =~= setup.store@ + ":"@ + setup.pool@ + ":"@ + setup.drive@);
    }
    drive_states.set_state(setup.drive.as_str(), job_id.as_str());
    let mut summary = TapeBackupJobSummary::new();
    let mut log: Vec<LogEvent> = Vec::new();
    let (writer, result) = backup_worker(
        pool,
        datastore,
        &setup,
        force_media_set,
        changer,
        abort,
        now,
        &mut summary,
        &mut log,
    );
    let recipient = match &setup.notify_user {
        Some(u) => u.clone(),
        None => String::from_str("root@pam"),
    };
    let success = match &result {
        Ok(_) => true,
        Err(_) => false,
    };
    drive_states.set_state(setup.drive.as_str(), "");
    proof {
        assert(drive_locks.locked@.len() == locks0.locked@.len() + 1);
        assert forall|k: int| 0 <= k < drive_locks.locked@.len() - 1 implies (
        #[trigger] drive_locks.locked@[k])@ != setup.drive@ by {
            assert(drive_locks.locked@.subrange(0, locks0.locked@.len() as int)[k]
                == drive_locks.locked@[k]);
            assert(drive_locks.locked@[k] == locks0.locked@[k]);
            if locks0.locked@[k]@ == setup.drive@ {
                assert(locks0.spec_holds(setup.drive@));
            }
        }
    }
    drive_locks.release(setup.drive.as_str());
    proof {
        assert(drive_locks.locked@ =~= locks0.locked@);
    }
    Ok(
        BackupJobOutcome {
            job_id,
            writer,
            summary,
            log,
            result,
            notification: NotificationRequest { recipient, success },
        },
    )
}

} // verus!
