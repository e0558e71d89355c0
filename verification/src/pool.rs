//! The media pool: the inventory of media, the active media set, and the
//! allocation and retention rules that decide which medium may be written
//! next.
use vstd::prelude::*;

use crate::cloud::media_location::MediaLocation;
use crate::cloud::media_pool::{MediaSetPolicy, RetentionPolicy};
use crate::datastore::{Chunk, SnapshotRef};

verus! {

/// Status of a medium. Within one session a medium only ever moves from
/// writable to full.
#[derive(Clone, Copy, Debug, Eq, PartialEq, Structural)]
pub enum MediaStatus {
    /// May be written.
    Writable,
    /// Capacity exhausted; never written again in this session.
    Full,
    /// Not yet labelled or assessed.
    Unknown,
}

/// Membership of a medium in a media set: which set, and at which position.
#[derive(Clone, Copy, Debug, Eq, PartialEq, Structural)]
pub struct MediaSetRef {
    pub set_id: u64,
    pub seq_nr: u64,
}

/// One archive written onto a medium.
#[derive(Clone, Debug, PartialEq)]
pub enum MediaContentItem {
    /// A run of chunks of one datastore, in stream order.
    ChunkArchive { store: String, chunks: Vec<Chunk> },
    /// A snapshot's metadata archive, never split across media.
    SnapshotArchive { store: String, snapshot: SnapshotRef },
    /// The set catalog, with the number of entries it indexes.
    CatalogArchive { entries: u64 },
}

/// One physical medium.
#[derive(Clone, Debug, PartialEq)]
pub struct Medium {
    pub label: String,
    pub uuid: u64,
    /// Bytes the medium can hold.
    pub capacity: u64,
    /// Bytes written so far.
    pub used: u64,
    pub status: MediaStatus,
    pub location: MediaLocation,
    /// The set this medium belongs to, if any.
    pub media_set: Option<MediaSetRef>,
    /// Creation time of that set.
    pub set_ctime: i64,
    /// What has been written onto the medium, in order.
    pub content: Vec<MediaContentItem>,
}

/// The active media set of a pool.
#[derive(Clone, Copy, Debug, Eq, PartialEq, Structural)]
pub struct CurrentSet {
    pub set_id: u64,
    /// Creation time of the set.
    pub ctime: i64,
    /// Position the next allocated medium receives.
    pub next_seq: u64,
}

/// Allocation failed: no usable medium is left in the pool.
#[derive(Clone, Copy, Debug, Eq, PartialEq, Structural)]
pub struct PoolError;

/// A named set of media governed by an allocation and a retention policy.
#[derive(Clone, Debug)]
pub struct MediaPool {
    pub name: String,
    pub allocation: MediaSetPolicy,
    pub retention: RetentionPolicy,
    pub media: Vec<Medium>,
    pub current_set: Option<CurrentSet>,
    pub next_set_id: u64,
}

/// The medium belongs to the set with this id.
pub open spec fn in_set(m: Medium, set_id: u64) -> bool {
    m.media_set matches Some(ms) && ms.set_id == set_id
}

/// How many media of the sequence belong to the set.
pub open spec fn count_in_set(s: Seq<Medium>, set_id: u64) -> int
    decreases s.len(),
{
    if s.len() == 0 {
        0
    } else {
        count_in_set(s.drop_last(), set_id) + if in_set(s.last(), set_id) {
            1int
        } else {
            0int
        }
    }
}

/// How many media of the sequence belong to the set and are full.
pub open spec fn count_full_in_set(s: Seq<Medium>, set_id: u64) -> int
    decreases s.len(),
{
    if s.len() == 0 {
        0
    } else {
        count_full_in_set(s.drop_last(), set_id) + if in_set(s.last(), set_id) && s.last().status
            == MediaStatus::Full {
            1int
        } else {
            0int
        }
    }
}

pub proof fn lemma_count_in_set_bounds(s: Seq<Medium>, set_id: u64)
    ensures
        0 <= count_in_set(s, set_id) <= s.len(),
        0 <= count_full_in_set(s, set_id) <= count_in_set(s, set_id),
    decreases s.len(),
{
    if s.len() > 0 {
        lemma_count_in_set_bounds(s.drop_last(), set_id);
    }
}

/// Updating one element changes the counts exactly by the change of its
/// own membership.
pub proof fn lemma_count_update(s: Seq<Medium>, set_id: u64, i: int, m: Medium)
    requires
        0 <= i < s.len(),
    ensures
        count_in_set(s.update(i, m), set_id) == count_in_set(s, set_id) + (if in_set(m, set_id) {
            1int
        } else {
            0int
        }) - (if in_set(s[i], set_id) {
            1int
        } else {
            0int
        }),
        count_full_in_set(s.update(i, m), set_id) == count_full_in_set(s, set_id) + (if in_set(
            m,
            set_id,
        ) && m.status == MediaStatus::Full {
            1int
        } else {
            0int
        }) - (if in_set(s[i], set_id) && s[i].status == MediaStatus::Full {
            1int
        } else {
            0int
        }),
    decreases s.len(),
{
    let t = s.update(i, m);
    if i == s.len() - 1 {
        assert(t.drop_last() =~= s.drop_last());
        assert(t.last() == m);
    } else {
        assert(t.last() == s.last());
        assert(t.drop_last() =~= s.drop_last().update(i, m));
        lemma_count_update(s.drop_last(), set_id, i, m);
    }
}

impl MediaPool {
    /// The pool's invariant: distinct medium identifiers, set positions
    /// consistent with the active set, and write positions within capacity.
    pub open spec fn wf(&self) -> bool {
        &&& forall|i: int, j: int|
            0 <= i < j < self.media@.len() ==> (#[trigger] self.media@[i]).uuid != (
            #[trigger] self.media@[j]).uuid
        &&& forall|i: int|
            0 <= i < self.media@.len() ==> (#[trigger] self.media@[i]).used
                <= self.media@[i].capacity
        &&& (self.current_set matches Some(cs) ==> {
            &&& forall|i: int|
                0 <= i < self.media@.len() && in_set(#[trigger] self.media@[i], cs.set_id)
                    ==> self.media@[i].media_set->Some_0.seq_nr < cs.next_seq
            &&& forall|i: int, j: int|
                0 <= i < j < self.media@.len() && in_set(#[trigger] self.media@[i], cs.set_id)
                    && in_set(#[trigger] self.media@[j], cs.set_id)
                    ==> self.media@[i].media_set->Some_0.seq_nr
                    != self.media@[j].media_set->Some_0.seq_nr
            &&& count_in_set(self.media@, cs.set_id) == cs.next_seq
            &&& cs.set_id < self.next_set_id
        })
        &&& forall|i: int|
            0 <= i < self.media@.len() ==> ((#[trigger] self.media@[i]).media_set matches Some(ms)
                ==> ms.set_id < self.next_set_id)
    }

    /// The retention policy lets a medium of an older set be overwritten
    /// at this time.
    pub open spec fn spec_retention_allows(&self, set_ctime: i64, now: i64) -> bool {
        match self.retention {
            RetentionPolicy::OverwriteAlways => true,
            RetentionPolicy::KeepForever => false,
            RetentionPolicy::ProtectFor(secs) => set_ctime + secs <= now,
        }
    }

    /// The medium at `i` may be allocated to the active set now: it is
    /// online, outside the active set, and either blank or no longer
    /// protected by retention.
    pub open spec fn spec_allocatable(&self, i: int, now: i64) -> bool {
        &&& 0 <= i < self.media@.len()
        &&& self.media@[i].location matches MediaLocation::Online(_)
        &&& (self.current_set matches Some(cs) ==> !in_set(self.media@[i], cs.set_id))
        &&& (self.media@[i].media_set matches Some(_) ==> self.spec_retention_allows(
            self.media@[i].set_ctime,
            now,
        ))
    }

    /// A fresh media set must be started for this run: it is forced, none
    /// is active yet, the policy always starts one, or the allocation
    /// schedule has fired since the active set was created.
    pub open spec fn spec_should_start_new_set(&self, force: bool, now: i64) -> bool {
        ||| force
    ||| self.current_set is None
    ||| self.allocation == MediaSetPolicy::AlwaysCreate
    ||| (self.allocation matches MediaSetPolicy::CreateAt(t) && self.current_set matches Some(cs)
        && cs.ctime < t && t <= now)
    }

    /// Opens the pool for a writing session: starts a fresh media set when
    /// the allocation policy or the caller asks for one.
    pub fn start_write_session(&mut self, now: i64, force: bool)
        requires
            old(self).wf(),
            old(self).next_set_id < u64::MAX,
        ensures
            final(self).wf(),
            final(self).media == old(self).media,
            final(self).name == old(self).name,
            final(self).allocation == old(self).allocation,
            final(self).retention == old(self).retention,
            old(self).spec_should_start_new_set(force, now) ==> (final(self).current_set matches
                Some(cs) && cs.set_id == old(self).next_set_id && cs.ctime == now && cs.next_seq
                == 0 && final(self).next_set_id == old(self).next_set_id + 1),
            !old(self).spec_should_start_new_set(force, now) ==> (final(self).current_set == old(
                self,
            ).current_set && final(self).next_set_id == old(self).next_set_id),
            final(self).current_set is Some,
    {
        let start_new: bool = if force {
            true
        } else {
            match (&self.current_set, &self.allocation) {
                (Option::None, _) => true,
                (_, MediaSetPolicy::AlwaysCreate) => true,
                (Option::Some(cs), MediaSetPolicy::CreateAt(t)) => cs.ctime < *t && *t <= now,
                _ => false,
            }
        };
        if start_new {
            let set_id = self.next_set_id;
            proof {
                assert forall|j: int| 0 <= j < self.media@.len() implies !in_set(
                    #[trigger] self.media@[j],
                    set_id,
                ) by {}
                lemma_count_in_set_empty(self.media@, set_id);
            }
            self.current_set = Some(CurrentSet { set_id, ctime: now, next_seq: 0 });
            self.next_set_id = set_id + 1;
        }
    }

    /// Allocates the first usable medium to the active set: its content is
    /// discarded, it becomes writable, and it takes the set's next position.
    pub fn alloc_writable_medium(&mut self, now: i64) -> (r: Result<usize, PoolError>)
        requires
            old(self).wf(),
            old(self).current_set is Some,
        ensures
            final(self).wf(),
            final(self).name == old(self).name,
            final(self).allocation == old(self).allocation,
            final(self).retention == old(self).retention,
            final(self).next_set_id == old(self).next_set_id,
            r matches Ok(i) ==> {
                &&& old(self).spec_allocatable(i as int, now)
                &&& forall|j: int| 0 <= j < i ==> !old(self).spec_allocatable(j, now)
                &&& final(self).current_set matches Some(cs) && old(self).current_set matches Some(
                    ocs,
                ) && cs == (CurrentSet {
                    set_id: ocs.set_id,
                    ctime: ocs.ctime,
                    next_seq: (ocs.next_seq + 1) as u64,
                })
                &&& final(self).media@.len() == old(self).media@.len()
                &&& forall|j: int|
                    0 <= j < final(self).media@.len() && j != i ==> final(self).media@[j] == old(
                        self,
                    ).media@[j]
                &&& final(self).media@[i as int].label == old(self).media@[i as int].label
                &&& final(self).media@[i as int].uuid == old(self).media@[i as int].uuid
                &&& final(self).media@[i as int].capacity == old(self).media@[i as int].capacity
                &&& final(self).media@[i as int].location == old(self).media@[i as int].location
                &&& final(self).media@[i as int].used == 0
                &&& final(self).media@[i as int].status == MediaStatus::Writable
                &&& final(self).media@[i as int].media_set == Some(
                    MediaSetRef {
                        set_id: old(self).current_set->Some_0.set_id,
                        seq_nr: old(self).current_set->Some_0.next_seq,
                    },
                )
                &&& final(self).media@[i as int].set_ctime == old(self).current_set->Some_0.ctime
                &&& final(self).media@[i as int].content@.len() == 0
                &&& count_full_in_set(final(self).media@, final(self).current_set->Some_0.set_id)
                    == count_full_in_set(old(self).media@, old(self).current_set->Some_0.set_id)
            },
            r is Err ==> *final(self) == *old(self) && (forall|j: int|
                0 <= j < final(self).media@.len() ==> !old(self).spec_allocatable(j, now)),
    {
        match self.find_allocatable(now) {
            Option::None => Err(PoolError),
            Option::Some(i) => {
                let ghost old_media = self.media@;
                let ghost cs = self.current_set->Some_0;
                let set_id = match &self.current_set {
                    Option::Some(c) => c.set_id,
                    Option::None => 0,
                };
                let seq_nr = match &self.current_set {
                    Option::Some(c) => c.next_seq,
                    Option::None => 0,
                };
                let ctime = match &self.current_set {
                    Option::Some(c) => c.ctime,
                    Option::None => 0,
                };
                let n = self.media.len();
                proof {
                    lemma_count_in_set_bounds(self.media@, cs.set_id);
                    lemma_count_in_set_excludes(self.media@, cs.set_id, i as int);
                    assert(seq_nr == cs.next_seq);
                    assert(count_in_set(self.media@, cs.set_id) == cs.next_seq);
                    assert(cs.next_seq <= n - 1);
                    assert(seq_nr < u64::MAX);
                }
                let m = &mut self.media[i];
                m.used = 0;
                m.status = MediaStatus::Writable;
                m.media_set = Some(MediaSetRef { set_id, seq_nr });
                m.set_ctime = ctime;
                m.content = Vec::new();
                self.current_set = Some(CurrentSet { set_id, ctime, next_seq: seq_nr + 1 });
                proof {
                    assert(self.media@ =~= old_media.update(i as int, self.media@[i as int]));
                    lemma_count_update(old_media, cs.set_id, i as int, self.media@[i as int]);
                }
                Ok(i)
            },
        }
    }

    /// The first medium the pool may allocate now, if any.
    pub fn find_allocatable(&self, now: i64) -> (r: Option<usize>)
        requires
            self.current_set is Some,
        ensures
            r matches Some(i) ==> self.spec_allocatable(i as int, now) && (forall|j: int|
                0 <= j < i ==> !self.spec_allocatable(j, now)),
            r is None ==> forall|j: int|
                0 <= j < self.media@.len() ==> !self.spec_allocatable(j, now),
    {
        let n = self.media.len();
        let mut i: usize = 0;
        while i < n
            invariant
                n == self.media@.len(),
                i <= n,
                self.current_set is Some,
                forall|j: int| 0 <= j < i ==> !self.spec_allocatable(j, now),
            decreases n - i,
        {
            let usable: bool = {
                let m = &self.media[i];
                let online = match &m.location {
                    MediaLocation::Online(_) => true,
                    _ => false,
                };
                let outside_set = match (&m.media_set, &self.current_set) {
                    (Option::None, _) => true,
                    (Option::Some(ms), Option::Some(cs)) => ms.set_id != cs.set_id,
                    (Option::Some(_), Option::None) => true,
                };
                let unprotected = match &m.media_set {
                    Option::None => true,
                    Option::Some(_) => self.retention_allows(m.set_ctime, now),
                };
                online && outside_set && unprotected
            };
            if usable {
                return Some(i);
            }
            i += 1;
        }
        None
    }

    /// The retention policy lets a medium of an older set be overwritten.
    pub fn retention_allows(&self, set_ctime: i64, now: i64) -> (r: bool)
        ensures
            r == self.spec_retention_allows(set_ctime, now),
    {
        match &self.retention {
            RetentionPolicy::OverwriteAlways => true,
            RetentionPolicy::KeepForever => false,
            RetentionPolicy::ProtectFor(secs) => {
                let until: i128 = set_ctime as i128 + *secs as i128;
                until <= now as i128
            },
        }
    }

    /// Marks the medium with this identifier full; a medium that is not
    /// writable is left as it is.
    pub fn set_media_status_full(&mut self, uuid: u64)
        requires
            old(self).wf(),
        ensures
            final(self).wf(),
            final(self).name == old(self).name,
            final(self).allocation == old(self).allocation,
            final(self).retention == old(self).retention,
            final(self).current_set == old(self).current_set,
            final(self).next_set_id == old(self).next_set_id,
            final(self).media@.len() == old(self).media@.len(),
            forall|j: int|
                0 <= j < final(self).media@.len() && (old(self).media@[j].uuid != uuid || old(
                    self,
                ).media@[j].status != MediaStatus::Writable) ==> final(self).media@[j] == old(
                    self,
                ).media@[j],
            forall|j: int|
                0 <= j < final(self).media@.len() && old(self).media@[j].uuid == uuid && old(
                    self,
                ).media@[j].status == MediaStatus::Writable ==> final(self).media@[j] == (Medium {
                    status: MediaStatus::Full,
                    ..old(self).media@[j]
                }),
    {
        let n = self.media.len();
        let mut i: usize = 0;
        while i < n
            invariant
                n == self.media@.len(),
                old(self).wf(),
                self.name == old(self).name,
                self.allocation == old(self).allocation,
                self.retention == old(self).retention,
                self.current_set == old(self).current_set,
                self.next_set_id == old(self).next_set_id,
                self.media@.len() == old(self).media@.len(),
                i <= n,
                forall|j: int|
                    0 <= j < self.media@.len() && (old(self).media@[j].uuid != uuid || old(
                        self,
                    ).media@[j].status != MediaStatus::Writable) ==> self.media@[j] == old(
                        self,
                    ).media@[j],
                forall|j: int|
                    0 <= j < i && old(self).media@[j].uuid == uuid && old(self).media@[j].status
                        == MediaStatus::Writable ==> self.media@[j] == (Medium {
                        status: MediaStatus::Full,
                        ..old(self).media@[j]
                    }),
                forall|j: int|
                    i <= j < self.media@.len() ==> self.media@[j] == old(self).media@[j],
            decreases n - i,
        {
            if self.media[i].uuid == uuid && self.media[i].status == MediaStatus::Writable {
                let m = &mut self.media[i];
                m.status = MediaStatus::Full;
            }
            i += 1;
        }
        proof {
            lemma_wf_after_status_change(old(self), self);
        }
    }
}

/// An element outside the set lowers the possible count by one.
pub proof fn lemma_count_in_set_excludes(s: Seq<Medium>, set_id: u64, i: int)
    requires
        0 <= i < s.len(),
        !in_set(s[i], set_id),
    ensures
        count_in_set(s, set_id) <= s.len() - 1,
    decreases s.len(),
{
    lemma_count_in_set_bounds(s, set_id);
    if i == s.len() - 1 {
        lemma_count_in_set_bounds(s.drop_last(), set_id);
    } else {
        assert(s.drop_last()[i] == s[i]);
        lemma_count_in_set_excludes(s.drop_last(), set_id, i);
    }
}

/// A set none of the media belong to has count zero.
pub proof fn lemma_count_in_set_empty(s: Seq<Medium>, set_id: u64)
    requires
        forall|j: int| 0 <= j < s.len() ==> !in_set(#[trigger] s[j], set_id),
    ensures
        count_in_set(s, set_id) == 0,
    decreases s.len(),
{
    if s.len() > 0 {
        assert forall|j: int| 0 <= j < s.drop_last().len() implies !in_set(
            #[trigger] s.drop_last()[j],
            set_id,
        ) by {
            assert(s.drop_last()[j] == s[j]);
        }
        lemma_count_in_set_empty(s.drop_last(), set_id);
        assert(!in_set(s.last(), set_id));
    }
}

/// Statuses alone do not touch identifiers, membership, positions or
/// write positions, so well-formedness carries over.
proof fn lemma_wf_after_status_change(a: &MediaPool, b: &MediaPool)
    requires
        a.wf(),
        b.media@.len() == a.media@.len(),
        b.current_set == a.current_set,
        b.next_set_id == a.next_set_id,
        forall|j: int|
            0 <= j < b.media@.len() ==> {
                let x = #[trigger] b.media@[j];
                let y = a.media@[j];
                x.uuid == y.uuid && x.media_set == y.media_set && x.used == y.used && x.capacity
                    == y.capacity
            },
    ensures
        b.wf(),
{
    if let Some(cs) = a.current_set {
        lemma_count_in_set_same(a.media@, b.media@, cs.set_id);
    }
}

/// Two inventories whose media agree on set membership have the same count.
pub proof fn lemma_count_in_set_same(a: Seq<Medium>, b: Seq<Medium>, set_id: u64)
    requires
        a.len() == b.len(),
        forall|j: int| 0 <= j < a.len() ==> in_set(#[trigger] b[j], set_id) == in_set(a[j], set_id),
    ensures
        count_in_set(b, set_id) == count_in_set(a, set_id),
    decreases a.len(),
{
    if a.len() > 0 {
        assert(a.drop_last().len() == b.drop_last().len());
        assert forall|j: int| 0 <= j < a.drop_last().len() implies in_set(
            #[trigger] b.drop_last()[j],
            set_id,
        ) == in_set(a.drop_last()[j], set_id) by {
            assert(b.drop_last()[j] == b[j]);
            assert(a.drop_last()[j] == a[j]);
        }
        lemma_count_in_set_same(a.drop_last(), b.drop_last(), set_id);
        assert(in_set(b.last(), set_id) == in_set(a.last(), set_id));
    }
}

} // verus!
