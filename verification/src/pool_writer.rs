//! The pool writer: a session binding one media pool to one drive. It keeps
//! at most one medium loaded, appends chunk, snapshot and catalog archives,
//! rotates media on end-of-medium, and carries the dedup index that makes
//! re-runs idempotent.
use vstd::prelude::*;

use crate::datastore::{BackupNamespace, Chunk, SnapshotRef};
use crate::pool::{count_full_in_set, in_set, lemma_count_update, MediaContentItem, MediaPool,
    MediaStatus, Medium, PoolError};
use crate::text::str_eq;

verus! {

/// Sum of the sizes of the chunks in `[from, to)`.
pub open spec fn chunks_bytes(s: Seq<Chunk>, from: int, to: int) -> int
    decreases to - from,
{
    if from >= to {
        0
    } else {
        chunks_bytes(s, from, to - 1) + s[to - 1].size
    }
}

pub proof fn lemma_chunks_bytes_nonneg(s: Seq<Chunk>, from: int, to: int)
    ensures
        0 <= chunks_bytes(s, from, to),
    decreases to - from,
{
    if from < to {
        lemma_chunks_bytes_nonneg(s, from, to - 1);
    }
}

/// The labels of the media of one set, in inventory order.
pub open spec fn set_labels(s: Seq<Medium>, set_id: u64) -> Seq<Seq<char>>
    decreases s.len(),
{
    if s.len() == 0 {
        Seq::empty()
    } else {
        set_labels(s.drop_last(), set_id) + if in_set(s.last(), set_id) {
            seq![s.last().label@]
        } else {
            Seq::empty()
        }
    }
}

/// Identity key of a snapshot: namespace path, type, id, and time.
pub type SnapKey = (Seq<Seq<char>>, crate::datastore::BackupType, Seq<char>, int);

/// A snapshot archive with this datastore and key stands on some medium of
/// the set.
pub open spec fn media_have_snapshot(
    media: Seq<Medium>,
    sid: u64,
    store: Seq<char>,
    key: SnapKey,
) -> bool {
    exists|i: int, j: int|
        {
            &&& 0 <= i < media.len()
            &&& in_set(#[trigger] media[i], sid)
            &&& 0 <= j < media[i].content@.len()
            &&& (#[trigger] media[i].content@[j] matches MediaContentItem::SnapshotArchive {
                store: st,
                snapshot: sn,
            } && st@ == store && sn.spec_key() == key)
        }
}

/// The index lists a snapshot of a datastore.
pub open spec fn index_has(
    index: Seq<(String, SnapshotRef)>,
    store: Seq<char>,
    key: SnapKey,
) -> bool {
    exists|k: int|
        0 <= k < index.len() && (#[trigger] index[k]).0@ == store && index[k].1.spec_key() == key
}

/// Between two inventory states of one session, the media of the set only
/// accumulate content: membership is kept and each content list keeps its
/// prefix. Media outside the set may change freely (reuse erases them).
pub open spec fn set_media_grow(a: Seq<Medium>, b: Seq<Medium>, sid: u64) -> bool {
    &&& a.len() == b.len()
    &&& forall|j: int|
        0 <= j < a.len() && in_set(#[trigger] a[j], sid) ==> in_set(b[j], sid)
            && b[j].content@.len() >= a[j].content@.len() && b[j].content@.subrange(
            0,
            a[j].content@.len() as int,
        ) == a[j].content@
}

pub proof fn lemma_set_media_grow_refl(a: Seq<Medium>, sid: u64)
    ensures
        set_media_grow(a, a, sid),
{
    assert forall|j: int| 0 <= j < a.len() && in_set(#[trigger] a[j], sid) implies in_set(
        a[j],
        sid,
    ) && a[j].content@.len() >= a[j].content@.len() && a[j].content@.subrange(
        0,
        a[j].content@.len() as int,
    ) == a[j].content@ by {
        assert(a[j].content@.subrange(0, a[j].content@.len() as int) =~= a[j].content@);
    }
}

pub proof fn lemma_set_media_grow_trans(a: Seq<Medium>, b: Seq<Medium>, c: Seq<Medium>, sid: u64)
    requires
        set_media_grow(a, b, sid),
        set_media_grow(b, c, sid),
    ensures
        set_media_grow(a, c, sid),
{
    assert forall|j: int| 0 <= j < a.len() && in_set(#[trigger] a[j], sid) implies in_set(
        c[j],
        sid,
    ) && c[j].content@.len() >= a[j].content@.len() && c[j].content@.subrange(
        0,
        a[j].content@.len() as int,
    ) == a[j].content@ by {
        assert(b[j].content@.subrange(0, a[j].content@.len() as int) == a[j].content@);
        assert(c[j].content@.subrange(0, b[j].content@.len() as int) == b[j].content@);
        assert forall|t: int| 0 <= t < a[j].content@.len() implies c[j].content@.subrange(
            0,
            a[j].content@.len() as int,
        )[t] == a[j].content@[t] by {
            assert(c[j].content@[t] == c[j].content@.subrange(0, b[j].content@.len() as int)[t]);
            assert(b[j].content@[t] == b[j].content@.subrange(0, a[j].content@.len() as int)[t]);
        }
        assert(c[j].content@.subrange(0, a[j].content@.len() as int) =~= a[j].content@);
    }
}

/// A snapshot archive on the set's media stays there while the set's media
/// only grow.
pub proof fn lemma_media_have_mono(
    a: Seq<Medium>,
    b: Seq<Medium>,
    sid: u64,
    store: Seq<char>,
    key: SnapKey,
)
    requires
        media_have_snapshot(a, sid, store, key),
        set_media_grow(a, b, sid),
    ensures
        media_have_snapshot(b, sid, store, key),
{
    let (i, j) = choose|i: int, j: int|
        {
            &&& 0 <= i < a.len()
            &&& in_set(#[trigger] a[i], sid)
            &&& 0 <= j < a[i].content@.len()
            &&& (#[trigger] a[i].content@[j] matches MediaContentItem::SnapshotArchive {
                store: st,
                snapshot: sn,
            } && st@ == store && sn.spec_key() == key)
        };
    assert(in_set(b[i], sid));
    assert(b[i].content@.subrange(0, a[i].content@.len() as int)[j] == b[i].content@[j]);
    assert(b[i].content@[j] == a[i].content@[j]);
    assert(media_have_snapshot(b, sid, store, key));
}

/// A catalog archive stands on some medium of the set.
pub open spec fn media_have_catalog(media: Seq<Medium>, sid: u64) -> bool {
    exists|i: int, j: int|
        {
            &&& 0 <= i < media.len()
            &&& in_set(#[trigger] media[i], sid)
            &&& 0 <= j < media[i].content@.len()
            &&& (#[trigger] media[i].content@[j] matches MediaContentItem::CatalogArchive { .. })
        }
}

/// A catalog archive on the set's media stays there while the set's media
/// only grow.
pub proof fn lemma_media_have_catalog_mono(a: Seq<Medium>, b: Seq<Medium>, sid: u64)
    requires
        media_have_catalog(a, sid),
        set_media_grow(a, b, sid),
    ensures
        media_have_catalog(b, sid),
{
    let (i, j) = choose|i: int, j: int|
        {
            &&& 0 <= i < a.len()
            &&& in_set(#[trigger] a[i], sid)
            &&& 0 <= j < a[i].content@.len()
            &&& (#[trigger] a[i].content@[j] matches MediaContentItem::CatalogArchive { .. })
        };
    assert(in_set(b[i], sid));
    assert(b[i].content@.subrange(0, a[i].content@.len() as int)[j] == b[i].content@[j]);
    assert(b[i].content@[j] == a[i].content@[j]);
    assert(media_have_catalog(b, sid));
}

/// Growth follows when only one medium changed, and that one by appending
/// content.
pub proof fn lemma_grow_from_update(a: Seq<Medium>, b: Seq<Medium>, sid: u64, i: int)
    requires
        a.len() == b.len(),
        0 <= i < a.len(),
        forall|j: int| 0 <= j < a.len() && j != i ==> #[trigger] b[j] == a[j],
        in_set(a[i], sid) ==> in_set(b[i], sid) && b[i].content@.len() >= a[i].content@.len()
            && b[i].content@.subrange(0, a[i].content@.len() as int) == a[i].content@,
    ensures
        set_media_grow(a, b, sid),
{
    assert forall|j: int| 0 <= j < a.len() && in_set(#[trigger] a[j], sid) implies in_set(
        b[j],
        sid,
    ) && b[j].content@.len() >= a[j].content@.len() && b[j].content@.subrange(
        0,
        a[j].content@.len() as int,
    ) == a[j].content@ by {
        if j != i {
            assert(b[j] == a[j]);
            assert(b[j].content@.subrange(0, a[j].content@.len() as int) =~= a[j].content@);
        }
    }
}

/// Growth follows when no medium's membership or content changed at all.
pub proof fn lemma_grow_from_same_content(a: Seq<Medium>, b: Seq<Medium>, sid: u64)
    requires
        a.len() == b.len(),
        forall|j: int|
            0 <= j < a.len() ==> (#[trigger] b[j]).media_set == a[j].media_set && b[j].content
                == a[j].content,
    ensures
        set_media_grow(a, b, sid),
{
    assert forall|j: int| 0 <= j < a.len() && in_set(#[trigger] a[j], sid) implies in_set(
        b[j],
        sid,
    ) && b[j].content@.len() >= a[j].content@.len() && b[j].content@.subrange(
        0,
        a[j].content@.len() as int,
    ) == a[j].content@ by {
        assert(b[j].content@.subrange(0, a[j].content@.len() as int) =~= a[j].content@);
    }
}

/// An index entry survives appending further entries.
pub proof fn lemma_index_has_extend(
    old_index: Seq<(String, SnapshotRef)>,
    new_index: Seq<(String, SnapshotRef)>,
    store: Seq<char>,
    key: SnapKey,
)
    requires
        index_has(old_index, store, key),
        old_index.len() <= new_index.len(),
        forall|k: int| 0 <= k < old_index.len() ==> #[trigger] new_index[k] == old_index[k],
    ensures
        index_has(new_index, store, key),
{
    let k = choose|k: int|
        0 <= k < old_index.len() && (#[trigger] old_index[k]).0@ == store
            && old_index[k].1.spec_key() == key;
    assert(new_index[k] == old_index[k]);
}

/// Collects the snapshot archives present on the media of one set into a
/// dedup index: the index lists exactly what the set's media hold.
fn build_catalog_index(media: &Vec<Medium>, sid: u64) -> (r: Vec<(String, SnapshotRef)>)
    ensures
        forall|store: Seq<char>, key: SnapKey|
            #[trigger] index_has(r@, store, key) == media_have_snapshot(media@, sid, store, key),
{
    let n = media.len();
    let mut index: Vec<(String, SnapshotRef)> = Vec::new();
    let mut i: usize = 0;
    while i < n
        invariant
            n == media@.len(),
            i <= n,
            forall|store: Seq<char>, key: SnapKey|
                #[trigger] index_has(index@, store, key) ==> media_have_snapshot(
                    media@,
                    sid,
                    store,
                    key,
                ),
            forall|a: int, b: int|
                0 <= a < i && in_set(#[trigger] media@[a], sid) && 0 <= b
                    < media@[a].content@.len() ==> ((#[trigger] media@[a].content@[b]) matches
                    MediaContentItem::SnapshotArchive { store: st, snapshot: sn } ==> index_has(
                    index@,
                    st@,
                    sn.spec_key(),
                )),
        decreases n - i,
    {
        let in_current: bool = match &media[i].media_set {
            Some(ms) => ms.set_id == sid,
            None => false,
        };
        if in_current {
            let c = media[i].content.len();
            let mut j: usize = 0;
            while j < c
                invariant
                    n == media@.len(),
                    i < n,
                    c == media@[i as int].content@.len(),
                    j <= c,
                    in_set(media@[i as int], sid),
                    forall|store: Seq<char>, key: SnapKey|
                        #[trigger] index_has(index@, store, key) ==> media_have_snapshot(
                            media@,
                            sid,
                            store,
                            key,
                        ),
                    forall|a: int, b: int|
                        0 <= a < i && in_set(#[trigger] media@[a], sid) && 0 <= b
                            < media@[a].content@.len() ==> ((#[trigger] media@[a].content@[b])
                            matches MediaContentItem::SnapshotArchive { store: st, snapshot: sn }
                            ==> index_has(index@, st@, sn.spec_key())),
                    forall|b: int|
                        0 <= b < j ==> ((#[trigger] media@[i as int].content@[b]) matches
                            MediaContentItem::SnapshotArchive { store: st, snapshot: sn }
                            ==> index_has(index@, st@, sn.spec_key())),
                decreases c - j,
            {
                let ghost old_index = index@;
                match &media[i].content[j] {
                    MediaContentItem::SnapshotArchive { store, snapshot } => {
                        let st = store.clone();
                        let sn = copy_snapshot_ref(snapshot);
                        index.push((st, sn));
                        proof {
                            assert(index@[old_index.len() as int].0@ == store@);
                            assert(index@[old_index.len() as int].1.spec_key()
                                == snapshot.spec_key());
                            assert(index_has(index@, store@, snapshot.spec_key()));
                            assert forall|store2: Seq<char>, key2: SnapKey|
                                #[trigger] index_has(index@, store2, key2) implies
                                media_have_snapshot(media@, sid, store2, key2) by {
                                let k = choose|k: int|
                                    0 <= k < index@.len() && (#[trigger] index@[k]).0@ == store2
                                        && index@[k].1.spec_key() == key2;
                                if k < old_index.len() {
                                    assert(index@[k] == old_index[k]);
                                    assert(index_has(old_index, store2, key2));
                                } else {
                                    assert(media@[i as int].content@[j as int] matches
                                        MediaContentItem::SnapshotArchive {
                                            store: st3,
                                            snapshot: sn3,
                                        } && st3@ == store2 && sn3.spec_key() == key2);
                                    assert(media_have_snapshot(media@, sid, store2, key2));
                                }
                            }
                            assert forall|k2: int|
                                0 <= k2 < old_index.len() implies index@[k2] == old_index[k2] by {}
                        }
                    },
                    _ => {},
                }
                proof {
                    assert forall|b: int|
                        0 <= b <= j implies ((#[trigger] media@[i as int].content@[b]) matches
                        MediaContentItem::SnapshotArchive { store: st, snapshot: sn } ==> index_has(
                        index@,
                        st@,
                        sn.spec_key(),
                    )) by {
                        match media@[i as int].content@[b] {
                            MediaContentItem::SnapshotArchive { store: st, snapshot: sn } => {
                                if b < j {
                                    assert(index_has(old_index, st@, sn.spec_key()));
                                    lemma_index_has_extend(old_index, index@, st@, sn.spec_key());
                                }
                            },
                            _ => {},
                        }
                    }
                    assert forall|a: int, b: int|
                        0 <= a < i && in_set(#[trigger] media@[a], sid) && 0 <= b
                            < media@[a].content@.len() implies ((#[trigger] media@[a].content@[b])
                        matches MediaContentItem::SnapshotArchive { store: st, snapshot: sn }
                        ==> index_has(index@, st@, sn.spec_key())) by {
                        match media@[a].content@[b] {
                            MediaContentItem::SnapshotArchive { store: st, snapshot: sn } => {
                                assert(index_has(old_index, st@, sn.spec_key()));
                                lemma_index_has_extend(old_index, index@, st@, sn.spec_key());
                            },
                            _ => {},
                        }
                    }
                }
                j += 1;
            }
        }
        i += 1;
        proof {
            assert forall|a: int, b: int|
                0 <= a < i && in_set(#[trigger] media@[a], sid) && 0 <= b
                    < media@[a].content@.len() implies ((#[trigger] media@[a].content@[b]) matches
                MediaContentItem::SnapshotArchive { store: st, snapshot: sn } ==> index_has(
                index@,
                st@,
                sn.spec_key(),
            )) by {}
        }
    }
    proof {
        assert forall|store: Seq<char>, key: SnapKey|
            #[trigger] index_has(index@, store, key) == media_have_snapshot(
            media@,
            sid,
            store,
            key,
        ) by {
            if media_have_snapshot(media@, sid, store, key) {
                let (a, b) = choose|a: int, b: int|
                    {
                        &&& 0 <= a < media@.len()
                        &&& in_set(#[trigger] media@[a], sid)
                        &&& 0 <= b < media@[a].content@.len()
                        &&& (#[trigger] media@[a].content@[b] matches
                            MediaContentItem::SnapshotArchive { store: st, snapshot: sn } && st@
                            == store && sn.spec_key() == key)
                    };
                assert(index_has(index@, store, key));
            }
        }
    }
    index
}

/// The chunk at `p` still fits into the remaining capacity.
fn chunk_fits(chunks: &Vec<Chunk>, p: usize, capacity: u64, used: u64) -> (r: bool)
    requires
        p < chunks@.len(),
        used <= capacity,
    ensures
        r == (capacity - used >= chunks@[p as int].size),
{
    capacity - used >= chunks[p].size
}

/// A copy of a snapshot reference, preserving its identity.
pub fn copy_snapshot_ref(s: &SnapshotRef) -> (r: SnapshotRef)
    ensures
        r.spec_key() == s.spec_key(),
{
    let path = s.ns.path.clone();
    proof {
        assert(path.deep_view() =~= s.ns.path.deep_view());
    }
    SnapshotRef { ns: BackupNamespace { path }, ty: s.ty, id: s.id.clone(), time: s.time }
}

/// A stateful session binding one media pool to one drive.
pub struct PoolWriter {
    pub pool: MediaPool,
    pub drive: String,
    /// Index into the pool's inventory of the loaded medium, if any.
    pub loaded: Option<usize>,
    /// Snapshots already present on the active media set, by datastore.
    pub catalog_index: Vec<(String, SnapshotRef)>,
    /// Pool state was persisted.
    pub committed: bool,
}

impl PoolWriter {
    pub open spec fn wf(&self) -> bool {
        &&& self.pool.wf()
        &&& self.pool.current_set is Some
        &&& (self.loaded matches Some(i) ==> i < self.pool.media@.len() && in_set(
            self.pool.media@[i as int],
            self.pool.current_set->Some_0.set_id,
        ))
    }

    /// The loaded medium exists and is writable.
    pub open spec fn loaded_writable(&self) -> bool {
        self.loaded matches Some(i) && i < self.pool.media@.len()
            && self.pool.media@[i as int].status == MediaStatus::Writable
    }

    /// The dedup index lists this snapshot of this datastore.
    pub open spec fn spec_contains_snapshot(&self, store: Seq<char>, key: SnapKey) -> bool {
        index_has(self.catalog_index@, store, key)
    }

    /// The identifier of the active media set.
    pub open spec fn spec_set_id(&self) -> u64 {
        self.pool.current_set->Some_0.set_id
    }

    /// Every dedup-index entry is backed by a snapshot archive on the
    /// active set's media.
    pub open spec fn index_sound(&self) -> bool {
        forall|k: int|
            0 <= k < self.catalog_index@.len() ==> media_have_snapshot(
                self.pool.media@,
                self.spec_set_id(),
                (#[trigger] self.catalog_index@[k]).0@,
                self.catalog_index@[k].1.spec_key(),
            )
    }

    /// Membership test against the index built from the already-written
    /// content of the active media set; it makes re-runs idempotent.
    pub fn contains_snapshot(&self, store: &str, snap: &SnapshotRef) -> (r: bool)
        ensures
            r == self.spec_contains_snapshot(store@, snap.spec_key()),
    {
        let n = self.catalog_index.len();
        let mut k: usize = 0;
        while k < n
            invariant
                n == self.catalog_index@.len(),
                k <= n,
                forall|j: int|
                    0 <= j < k ==> !((#[trigger] self.catalog_index@[j]).0@ == store@
                        && self.catalog_index@[j].1.spec_key() == snap.spec_key()),
            decreases n - k,
        {
            let entry = &self.catalog_index[k];
            if str_eq(entry.0.as_str(), store) && entry.1.same(snap) {
                return true;
            }
            k += 1;
        }
        false
    }

    /// Returns a medium guaranteed writable for subsequent appends: the
    /// loaded one if it still is, else the first medium the pool can
    /// allocate. Fails only when the pool has no usable medium left.
    pub fn load_writable_media(&mut self, now: i64) -> (r: Result<u64, PoolError>)
        requires
            old(self).wf(),
        ensures
            final(self).wf(),
            final(self).drive == old(self).drive,
            final(self).catalog_index == old(self).catalog_index,
            final(self).committed == old(self).committed,
            final(self).pool.name == old(self).pool.name,
            final(self).pool.allocation == old(self).pool.allocation,
            final(self).pool.retention == old(self).pool.retention,
            final(self).spec_set_id() == old(self).spec_set_id(),
            final(self).pool.media@.len() == old(self).pool.media@.len(),
            count_full_in_set(final(self).pool.media@, final(self).spec_set_id())
                == count_full_in_set(old(self).pool.media@, old(self).spec_set_id()),
            old(self).loaded_writable() ==> *final(self) == *old(self) && r == Ok::<u64, PoolError>(
                old(self).pool.media@[old(self).loaded->Some_0 as int].uuid,
            ),
            r matches Ok(uuid) ==> final(self).loaded_writable()
                && final(self).pool.media@[final(self).loaded->Some_0 as int].uuid == uuid,
            r matches Ok(uuid) ==> (forall|j: int|
                0 <= j < old(self).pool.media@.len() && j != final(self).loaded->Some_0 as int
                    ==> final(self).pool.media@[j] == old(self).pool.media@[j]),
            !old(self).loaded_writable() && r is Ok ==> final(self).pool.media@[final(self).loaded->Some_0 as int].used == 0
                && final(self).pool.media@[final(self).loaded->Some_0 as int].content@.len() == 0,
            r is Err ==> *final(self) == *old(self),
            r is Err ==> !old(self).loaded_writable() && (forall|j: int|
                0 <= j < old(self).pool.media@.len() ==> !old(self).pool.spec_allocatable(j, now)),
            set_media_grow(old(self).pool.media@, final(self).pool.media@, old(self).spec_set_id()),
    {
        let ghost media0 = self.pool.media@;
        let ghost sid0 = self.spec_set_id();
        let is_loaded_writable: bool = match self.loaded {
            Some(i) => i < self.pool.media.len() && self.pool.media[i].status
                == MediaStatus::Writable,
            None => false,
        };
        if is_loaded_writable {
            let i = match self.loaded {
                Some(i) => i,
                None => 0,
            };
            proof {
                lemma_set_media_grow_refl(self.pool.media@, sid0);
            }
            return Ok(self.pool.media[i].uuid);
        }
        match self.pool.alloc_writable_medium(now) {
            Ok(i) => {
                self.loaded = Some(i);
                proof {
                    assert(!in_set(media0[i as int], sid0));
                    lemma_grow_from_update(media0, self.pool.media@, sid0, i as int);
                }
                Ok(self.pool.media[i].uuid)
            },
            Err(e) => {
                proof {
                    lemma_set_media_grow_refl(self.pool.media@, sid0);
                }
                Err(e)
            },
        }
    }

    /// Writes chunk records from the stream's position until the stream is
    /// drained or the medium reaches its logical end. Hitting the end is
    /// not an error: the returned flag tells the caller to rotate media and
    /// resume the same stream, whose position survives.
    pub fn append_chunk_archive(
        &mut self,
        stream: &mut crate::pipeline::ChunkStream,
        store: &str,
    ) -> (r: (bool, u64))
        requires
            old(self).wf(),
            old(self).loaded_writable(),
            old(stream).wf(),
        ensures
            final(self).wf(),
            final(stream).wf(),
            final(self).loaded_writable(),
            final(self).drive == old(self).drive,
            final(self).catalog_index == old(self).catalog_index,
            final(self).committed == old(self).committed,
            final(self).loaded == old(self).loaded,
            final(self).pool.name == old(self).pool.name,
            final(self).pool.allocation == old(self).pool.allocation,
            final(self).pool.retention == old(self).pool.retention,
            final(self).pool.current_set == old(self).pool.current_set,
            final(self).pool.media@.len() == old(self).pool.media@.len(),
            count_full_in_set(final(self).pool.media@, final(self).spec_set_id())
                == count_full_in_set(old(self).pool.media@, old(self).spec_set_id()),
            final(stream).chunks == old(stream).chunks,
            final(stream).error_at == old(stream).error_at,
            old(stream).pos <= final(stream).pos <= old(stream).spec_available(),
            forall|j: int|
                0 <= j < old(self).pool.media@.len() && j != old(self).loaded->Some_0 as int
                    ==> final(self).pool.media@[j] == old(self).pool.media@[j],
            ({
                let i = old(self).loaded->Some_0 as int;
                let m0 = old(self).pool.media@[i];
                let m1 = final(self).pool.media@[i];
                let written = old(stream).chunks@.subrange(
                    old(stream).pos as int,
                    final(stream).pos as int,
                );
                &&& m1.label == m0.label
                &&& m1.uuid == m0.uuid
                &&& m1.capacity == m0.capacity
                &&& m1.status == m0.status
                &&& m1.location == m0.location
                &&& m1.media_set == m0.media_set
                &&& m1.set_ctime == m0.set_ctime
                &&& m1.used == m0.used + chunks_bytes(
                    old(stream).chunks@,
                    old(stream).pos as int,
                    final(stream).pos as int,
                )
                &&& (final(stream).pos > old(stream).pos ==> m1.content@.len() == m0.content@.len()
                    + 1 && m1.content@.subrange(0, m0.content@.len() as int) == m0.content@ && (
                m1.content@.last() matches MediaContentItem::ChunkArchive { store: st, chunks: cs }
                    && st@ == store@ && cs@ == written))
                &&& (final(stream).pos == old(stream).pos ==> m1.content == m0.content)
                &&& (final(stream).pos < old(stream).spec_available() ==> m1.used + old(
                    stream,
                ).chunks@[final(stream).pos as int].size > m1.capacity)
                &&& r.0 == (final(stream).pos < old(stream).spec_available())
                &&& r.1 == m1.used - m0.used
            }),
            set_media_grow(old(self).pool.media@, final(self).pool.media@, old(self).spec_set_id()),
    {
        let i = match self.loaded {
            Some(i) => i,
            None => 0,
        };
        let capacity = self.pool.media[i].capacity;
        let mut used = self.pool.media[i].used;
        let ghost used0 = used;
        let mut archive: Vec<Chunk> = Vec::new();
        let mut p = stream.pos;
        let ghost p0 = stream.pos;
        let avail: usize = {
            let n = stream.chunks.len();
            match stream.error_at {
                Some(e) => if e < n {
                    e
                } else {
                    n
                },
                None => n,
            }
        };
        proof {
            lemma_chunks_bytes_nonneg(stream.chunks@, p0 as int, p0 as int);
        }
        while p < avail && chunk_fits(&stream.chunks, p, capacity, used)
            invariant
                avail == old(stream).spec_available(),
                stream.chunks == old(stream).chunks,
                p0 <= p <= avail,
                p0 == old(stream).pos,
                capacity >= used,
                used0 <= used,
                used == used0 + chunks_bytes(stream.chunks@, p0 as int, p as int),
                archive@ == stream.chunks@.subrange(p0 as int, p as int),
                avail <= stream.chunks@.len(),
            decreases avail - p,
        {
            let c = stream.chunks[p];
            archive.push(c);
            used = used + c.size;
            p = p + 1;
            proof {
                assert(archive@ =~= stream.chunks@.subrange(p0 as int, p as int));
            }
        }
        let wrote = p > stream.pos;
        let bytes = used - self.pool.media[i].used;
        let leom = p < avail;
        let ghost old_media = self.pool.media@;
        let ghost sid = self.pool.current_set->Some_0.set_id;
        stream.pos = p;
        if wrote {
            let item = MediaContentItem::ChunkArchive { store: store.to_owned(), chunks: archive };
            let m = &mut self.pool.media[i];
            m.used = used;
            m.content.push(item);
        }
        proof {
            assert(self.pool.media@ =~= old_media.update(i as int, self.pool.media@[i as int]));
            lemma_count_update(old_media, sid, i as int, self.pool.media@[i as int]);
            if wrote {
                assert(self.pool.media@[i as int].content@.subrange(
                    0,
                    old_media[i as int].content@.len() as int,
                ) =~= old_media[i as int].content@);
            } else {
                assert(self.pool.media@[i as int].content@.subrange(
                    0,
                    old_media[i as int].content@.len() as int,
                ) =~= old_media[i as int].content@);
            }
            lemma_grow_from_update(old_media, self.pool.media@, sid, i as int);
        }
        (leom, bytes)
    }

    /// Writes a snapshot's metadata archive whole, or not at all: when it
    /// does not fit the medium is left untouched and the caller retries the
    /// full archive on the next medium. On success the snapshot joins the
    /// dedup index.
    pub fn append_snapshot_archive(
        &mut self,
        store: &str,
        snap: &SnapshotRef,
        size: u64,
    ) -> (r: (bool, u64))
        requires
            old(self).wf(),
            old(self).loaded_writable(),
        ensures
            final(self).wf(),
            final(self).loaded_writable(),
            final(self).drive == old(self).drive,
            final(self).committed == old(self).committed,
            final(self).loaded == old(self).loaded,
            final(self).pool.name == old(self).pool.name,
            final(self).pool.allocation == old(self).pool.allocation,
            final(self).pool.retention == old(self).pool.retention,
            final(self).pool.current_set == old(self).pool.current_set,
            final(self).pool.media@.len() == old(self).pool.media@.len(),
            count_full_in_set(final(self).pool.media@, final(self).spec_set_id())
                == count_full_in_set(old(self).pool.media@, old(self).spec_set_id()),
            forall|j: int|
                0 <= j < old(self).pool.media@.len() && j != old(self).loaded->Some_0 as int
                    ==> final(self).pool.media@[j] == old(self).pool.media@[j],
            ({
                let i = old(self).loaded->Some_0 as int;
                let m0 = old(self).pool.media@[i];
                let m1 = final(self).pool.media@[i];
                let fits = m0.capacity - m0.used >= size;
                &&& r.0 == fits
                &&& r.1 == (if fits {
                    size as int
                } else {
                    0int
                })
                &&& (!fits ==> *final(self) == *old(self))
                &&& (fits ==> {
                    &&& m1 == (Medium {
                        used: (m0.used + size) as u64,
                        content: m1.content,
                        ..m0
                    })
                    &&& m1.content@.len() == m0.content@.len() + 1
                    &&& m1.content@.subrange(0, m0.content@.len() as int) == m0.content@
                    &&& (m1.content@.last() matches MediaContentItem::SnapshotArchive {
                        store: st,
                        snapshot: sn,
                    } && st@ == store@ && sn.spec_key() == snap.spec_key())
                    &&& final(self).catalog_index@.len() == old(self).catalog_index@.len() + 1
                    &&& final(self).catalog_index@.subrange(
                        0,
                        old(self).catalog_index@.len() as int,
                    ) == old(self).catalog_index@
                    &&& final(self).catalog_index@.last().0@ == store@
                    &&& final(self).catalog_index@.last().1.spec_key() == snap.spec_key()
                    &&& final(self).spec_contains_snapshot(store@, snap.spec_key())
                    &&& media_have_snapshot(
                        final(self).pool.media@,
                        final(self).spec_set_id(),
                        store@,
                        snap.spec_key(),
                    )
                })
            }),
            set_media_grow(old(self).pool.media@, final(self).pool.media@, old(self).spec_set_id()),
    {
        let i = match self.loaded {
            Some(i) => i,
            None => 0,
        };
        let capacity = self.pool.media[i].capacity;
        let used = self.pool.media[i].used;
        if capacity - used < size {
            proof {
                lemma_set_media_grow_refl(self.pool.media@, self.spec_set_id());
            }
            return (false, 0);
        }
        let ghost old_media = self.pool.media@;
        let ghost sid = self.pool.current_set->Some_0.set_id;
        let ghost old_index = self.catalog_index@;
        let item = MediaContentItem::SnapshotArchive {
            store: store.to_owned(),
            snapshot: copy_snapshot_ref(snap),
        };
        let m = &mut self.pool.media[i];
        m.used = used + size;
        m.content.push(item);
        self.catalog_index.push((store.to_owned(), copy_snapshot_ref(snap)));
        proof {
            assert(self.pool.media@ =~= old_media.update(i as int, self.pool.media@[i as int]));
            lemma_count_update(old_media, sid, i as int, self.pool.media@[i as int]);
            assert(self.pool.media@[i as int].content@.subrange(
                0,
                old_media[i as int].content@.len() as int,
            ) =~= old_media[i as int].content@);
            assert(self.catalog_index@.subrange(0, old_index.len() as int) =~= old_index);
            assert(self.spec_contains_snapshot(store@, snap.spec_key())) by {
                assert(self.catalog_index@[old_index.len() as int].0@ == store@);
            }
            lemma_grow_from_update(old_media, self.pool.media@, sid, i as int);
            assert(media_have_snapshot(
                self.pool.media@,
                self.spec_set_id(),
                store@,
                snap.spec_key(),
            )) by {
                assert(in_set(self.pool.media@[i as int], sid));
                assert(self.pool.media@[i as int].content@[old_media[i as int].content@.len() as int]
                    matches MediaContentItem::SnapshotArchive { store: st, snapshot: sn } && st@
                    == store@ && sn.spec_key() == snap.spec_key());
            }
        }
        (true, size)
    }

    /// Writes the set catalog whole, or not at all, under the same
    /// retry-on-next-medium contract as a snapshot archive. Its size is the
    /// number of entries it indexes.
    pub fn append_catalog_archive(&mut self) -> (r: bool)
        requires
            old(self).wf(),
            old(self).loaded_writable(),
        ensures
            final(self).wf(),
            final(self).loaded_writable(),
            final(self).drive == old(self).drive,
            final(self).catalog_index == old(self).catalog_index,
            final(self).committed == old(self).committed,
            final(self).loaded == old(self).loaded,
            final(self).pool.name == old(self).pool.name,
            final(self).pool.allocation == old(self).pool.allocation,
            final(self).pool.retention == old(self).pool.retention,
            final(self).pool.current_set == old(self).pool.current_set,
            final(self).pool.media@.len() == old(self).pool.media@.len(),
            count_full_in_set(final(self).pool.media@, final(self).spec_set_id())
                == count_full_in_set(old(self).pool.media@, old(self).spec_set_id()),
            forall|j: int|
                0 <= j < old(self).pool.media@.len() && j != old(self).loaded->Some_0 as int
                    ==> final(self).pool.media@[j] == old(self).pool.media@[j],
            ({
                let i = old(self).loaded->Some_0 as int;
                let m0 = old(self).pool.media@[i];
                let m1 = final(self).pool.media@[i];
                let size = old(self).catalog_index@.len() as u64;
                let fits = m0.capacity - m0.used >= size;
                &&& r == fits
                &&& (!fits ==> *final(self) == *old(self))
                &&& (fits ==> {
                    &&& m1 == (Medium {
                        used: (m0.used + size) as u64,
                        content: m1.content,
                        ..m0
                    })
                    &&& m1.content@.len() == m0.content@.len() + 1
                    &&& m1.content@.subrange(0, m0.content@.len() as int) == m0.content@
                    &&& m1.content@.last() == MediaContentItem::CatalogArchive { entries: size }
                    &&& media_have_catalog(final(self).pool.media@, final(self).spec_set_id())
                })
            }),
            set_media_grow(old(self).pool.media@, final(self).pool.media@, old(self).spec_set_id()),
    {
        let i = match self.loaded {
            Some(i) => i,
            None => 0,
        };
        let capacity = self.pool.media[i].capacity;
        let used = self.pool.media[i].used;
        let entries64: u64 = self.catalog_index.len() as u64;
        if capacity - used < entries64 {
            proof {
                lemma_set_media_grow_refl(self.pool.media@, self.spec_set_id());
            }
            return false;
        }
        let ghost old_media = self.pool.media@;
        let ghost sid = self.pool.current_set->Some_0.set_id;
        let m = &mut self.pool.media[i];
        m.used = used + entries64;
        m.content.push(MediaContentItem::CatalogArchive { entries: entries64 });
        proof {
            assert(self.pool.media@ =~= old_media.update(i as int, self.pool.media@[i as int]));
            lemma_count_update(old_media, sid, i as int, self.pool.media@[i as int]);
            assert(self.pool.media@[i as int].content@.subrange(
                0,
                old_media[i as int].content@.len() as int,
            ) =~= old_media[i as int].content@);
            lemma_grow_from_update(old_media, self.pool.media@, sid, i as int);
            assert(media_have_catalog(self.pool.media@, self.spec_set_id())) by {
                assert(in_set(self.pool.media@[i as int], sid));
                assert(self.pool.media@[i as int].content@[old_media[i as int].content@.len() as int]
                    matches MediaContentItem::CatalogArchive { .. });
            }
        }
        true
    }

    /// Marks the medium with this identifier full; one-way and idempotent.
    pub fn set_media_status_full(&mut self, uuid: u64)
        requires
            old(self).wf(),
        ensures
            final(self).wf(),
            final(self).drive == old(self).drive,
            final(self).catalog_index == old(self).catalog_index,
            final(self).committed == old(self).committed,
            final(self).loaded == old(self).loaded,
            final(self).pool.name == old(self).pool.name,
            final(self).pool.allocation == old(self).pool.allocation,
            final(self).pool.retention == old(self).pool.retention,
            final(self).pool.current_set == old(self).pool.current_set,
            final(self).pool.media@.len() == old(self).pool.media@.len(),
            forall|j: int|
                0 <= j < final(self).pool.media@.len() && (old(self).pool.media@[j].uuid != uuid
                    || old(self).pool.media@[j].status != MediaStatus::Writable)
                    ==> final(self).pool.media@[j] == old(self).pool.media@[j],
            forall|j: int|
                0 <= j < final(self).pool.media@.len() && old(self).pool.media@[j].uuid == uuid
                    && old(self).pool.media@[j].status == MediaStatus::Writable
                    ==> final(self).pool.media@[j] == (Medium {
                    status: MediaStatus::Full,
                    ..old(self).pool.media@[j]
                }),
            (exists|j: int|
                0 <= j < old(self).pool.media@.len() && (#[trigger] old(self).pool.media@[j]).uuid
                    == uuid && old(self).pool.media@[j].status == MediaStatus::Writable && in_set(
                    old(self).pool.media@[j],
                    old(self).spec_set_id(),
                )) ==> count_full_in_set(final(self).pool.media@, final(self).spec_set_id())
                == count_full_in_set(old(self).pool.media@, old(self).spec_set_id()) + 1,
            !(exists|j: int|
                0 <= j < old(self).pool.media@.len() && (#[trigger] old(self).pool.media@[j]).uuid
                    == uuid && old(self).pool.media@[j].status == MediaStatus::Writable)
                ==> count_full_in_set(final(self).pool.media@, final(self).spec_set_id())
                == count_full_in_set(old(self).pool.media@, old(self).spec_set_id()),
            set_media_grow(old(self).pool.media@, final(self).pool.media@, old(self).spec_set_id()),
    {
        let ghost old_media = self.pool.media@;
        let ghost sid = self.pool.current_set->Some_0.set_id;
        self.pool.set_media_status_full(uuid);
        proof {
            lemma_grow_from_same_content(old_media, self.pool.media@, sid);
            if exists|j: int|
                0 <= j < old_media.len() && (#[trigger] old_media[j]).uuid == uuid
                    && old_media[j].status == MediaStatus::Writable {
                let j = choose|j: int|
                    0 <= j < old_media.len() && (#[trigger] old_media[j]).uuid == uuid
                        && old_media[j].status == MediaStatus::Writable;
                assert(self.pool.media@ =~= old_media.update(j, self.pool.media@[j]));
                lemma_count_update(old_media, sid, j, self.pool.media@[j]);
            } else {
                assert(self.pool.media@ =~= old_media);
            }
        }
    }

    /// Persists the pool and media-set state.
    pub fn commit(&mut self)
        requires
            old(self).wf(),
        ensures
            final(self).wf(),
            *final(self) == (PoolWriter { committed: true, ..*old(self) }),
    {
        self.committed = true;
    }

    /// Unloads the loaded medium from the drive.
    pub fn eject_media(&mut self)
        requires
            old(self).wf(),
        ensures
            final(self).wf(),
            *final(self) == (PoolWriter { loaded: None, ..*old(self) }),
    {
        self.loaded = None;
    }

    /// Removes every medium of the active set from the library: each goes
    /// offline and the drive is left empty.
    pub fn export_media_set(&mut self)
        requires
            old(self).wf(),
        ensures
            final(self).wf(),
            final(self).drive == old(self).drive,
            final(self).catalog_index == old(self).catalog_index,
            final(self).committed == old(self).committed,
            final(self).loaded is None,
            final(self).pool.name == old(self).pool.name,
            final(self).pool.allocation == old(self).pool.allocation,
            final(self).pool.retention == old(self).pool.retention,
            final(self).pool.current_set == old(self).pool.current_set,
            final(self).pool.media@.len() == old(self).pool.media@.len(),
            forall|j: int|
                0 <= j < final(self).pool.media@.len() && in_set(
                    old(self).pool.media@[j],
                    old(self).spec_set_id(),
                ) ==> final(self).pool.media@[j] == (Medium {
                    location: crate::cloud::media_location::MediaLocation::Offline,
                    ..old(self).pool.media@[j]
                }),
            forall|j: int|
                0 <= j < final(self).pool.media@.len() && !in_set(
                    old(self).pool.media@[j],
                    old(self).spec_set_id(),
                ) ==> final(self).pool.media@[j] == old(self).pool.media@[j],
            set_media_grow(old(self).pool.media@, final(self).pool.media@, old(self).spec_set_id()),
    {
        let sid = match &self.pool.current_set {
            Some(cs) => cs.set_id,
            None => 0,
        };
        let n = self.pool.media.len();
        let mut i: usize = 0;
        while i < n
            invariant
                n == self.pool.media@.len(),
                i <= n,
                old(self).wf(),
                sid == old(self).spec_set_id(),
                self.drive == old(self).drive,
                self.catalog_index == old(self).catalog_index,
                self.committed == old(self).committed,
                self.loaded == old(self).loaded,
                self.pool.name == old(self).pool.name,
                self.pool.allocation == old(self).pool.allocation,
                self.pool.retention == old(self).pool.retention,
                self.pool.current_set == old(self).pool.current_set,
                self.pool.next_set_id == old(self).pool.next_set_id,
                self.pool.media@.len() == old(self).pool.media@.len(),
                forall|j: int|
                    0 <= j < i && in_set(old(self).pool.media@[j], sid) ==> self.pool.media@[j]
                        == (Medium {
                        location: crate::cloud::media_location::MediaLocation::Offline,
                        ..old(self).pool.media@[j]
                    }),
                forall|j: int|
                    0 <= j < i && !in_set(old(self).pool.media@[j], sid) ==> self.pool.media@[j]
                        == old(self).pool.media@[j],
                forall|j: int| i <= j < n ==> self.pool.media@[j] == old(self).pool.media@[j],
            decreases n - i,
        {
            let in_current: bool = match (&self.pool.media[i].media_set, &self.pool.current_set) {
                (Some(ms), Some(_)) => ms.set_id == sid,
                _ => false,
            };
            if in_current {
                let m = &mut self.pool.media[i];
                m.location = crate::cloud::media_location::MediaLocation::Offline;
            }
            i += 1;
        }
        self.loaded = None;
        proof {
            lemma_wf_location_change(&old(self).pool, &self.pool);
            lemma_grow_from_same_content(
                old(self).pool.media@,
                self.pool.media@,
                old(self).spec_set_id(),
            );
        }
    }

    /// Opens a writing session: starts a fresh media set when the policy or
    /// the caller asks for one, and rebuilds the dedup index from the
    /// archives already written onto the active set's media.
    pub fn new(pool: MediaPool, drive: String, force_media_set: bool, now: i64) -> (w: PoolWriter)
        requires
            pool.wf(),
            pool.next_set_id < u64::MAX,
        ensures
            w.wf(),
            w.drive == drive,
            w.loaded is None,
            !w.committed,
            w.pool.media == pool.media,
            w.pool.name == pool.name,
            w.pool.allocation == pool.allocation,
            w.pool.retention == pool.retention,
            pool.spec_should_start_new_set(force_media_set, now) ==> (w.pool.current_set matches
                Some(cs) && cs.set_id == pool.next_set_id && cs.ctime == now && cs.next_seq == 0),
            !pool.spec_should_start_new_set(force_media_set, now) ==> w.pool.current_set
                == pool.current_set,
            forall|store: Seq<char>, key: SnapKey|
                #[trigger] w.spec_contains_snapshot(store, key) == media_have_snapshot(
                    w.pool.media@,
                    w.spec_set_id(),
                    store,
                    key,
                ),
            w.index_sound(),
    {
        let mut pool = pool;
        pool.start_write_session(now, force_media_set);
        let sid = match &pool.current_set {
            Some(cs) => cs.set_id,
            None => 0,
        };
        let index = build_catalog_index(&pool.media, sid);
        let w = PoolWriter { pool, drive, loaded: None, catalog_index: index, committed: false };
        proof {
            assert forall|store: Seq<char>, key: SnapKey|
                #[trigger] w.spec_contains_snapshot(store, key) == media_have_snapshot(
                w.pool.media@,
                w.spec_set_id(),
                store,
                key,
            ) by {
                assert(w.spec_contains_snapshot(store, key) == index_has(
                    w.catalog_index@,
                    store,
                    key,
                ));
            }
            assert forall|k: int| 0 <= k < w.catalog_index@.len() implies media_have_snapshot(
                w.pool.media@,
                w.spec_set_id(),
                (#[trigger] w.catalog_index@[k]).0@,
                w.catalog_index@[k].1.spec_key(),
            ) by {
                assert(index_has(
                    w.catalog_index@,
                    w.catalog_index@[k].0@,
                    w.catalog_index@[k].1.spec_key(),
                ));
            }
        }
        w
    }

    /// The labels of the media of the active set, in inventory order.
    pub fn get_used_media_labels(&self) -> (r: Vec<String>)
        requires
            self.wf(),
        ensures
            r.deep_view() == set_labels(self.pool.media@, self.spec_set_id()),
    {
        let sid = match &self.pool.current_set {
            Some(cs) => cs.set_id,
            None => 0,
        };
        let n = self.pool.media.len();
        let mut out: Vec<String> = Vec::new();
        let mut i: usize = 0;
        while i < n
            invariant
                n == self.pool.media@.len(),
                i <= n,
                sid == self.spec_set_id(),
                self.pool.current_set is Some,
                out.deep_view() == set_labels(self.pool.media@.take(i as int), sid),
            decreases n - i,
        {
            let ghost prefix = self.pool.media@.take(i as int);
            let in_current: bool = match &self.pool.media[i].media_set {
                Some(ms) => ms.set_id == sid,
                None => false,
            };
            if in_current {
                out.push(self.pool.media[i].label.clone());
            }
            proof {
                let next = self.pool.media@.take(i + 1);
                assert(next.drop_last() =~= prefix);
                assert(next.last() == self.pool.media@[i as int]);
                if in_current {
                    assert(out.deep_view() =~= set_labels(next, sid));
                } else {
                    assert(out.deep_view() =~= set_labels(next, sid));
                }
            }
            i += 1;
        }
        proof {
            assert(self.pool.media@.take(n as int) =~= self.pool.media@);
        }
        out
    }
}

/// Location changes alone preserve pool well-formedness.
pub proof fn lemma_wf_location_change(a: &MediaPool, b: &MediaPool)
    requires
        a.wf(),
        b.media@.len() == a.media@.len(),
        b.current_set == a.current_set,
        b.next_set_id == a.next_set_id,
        forall|j: int|
            0 <= j < b.media@.len() ==> {
                let x = #[trigger] b.media@[j];
                let y = a.media@[j];
                x.uuid == y.uuid && x.media_set == y.media_set && x.used == y.used && x.capacity
                    == y.capacity
            },
    ensures
        b.wf(),
{
    if let Some(cs) = a.current_set {
        crate::pool::lemma_count_in_set_same(a.media@, b.media@, cs.set_id);
    }
}

} // verus!
