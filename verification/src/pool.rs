//! A pool of physical resources with per-frame replication.
//!
//! A pool owns an arena of physical resources and an arena of replica lists.
//! A composite key names either one physical resource or a replica list, of
//! which an index picks one physical resource. A replica list is either
//! owned by the pool (one resource per frame-pipeline slot) or external
//! (resources of a foreign owner, which the pool never releases).

use crate::arena::{generations_left, Arena, SLOT_LIMIT};
use vstd::prelude::*;

verus! {

/// An ordered list of physical resources that one logical resource stands for.
pub struct Replicas {
    pub keys: Vec<u64>,
    pub external: bool,
}

/// Handle to one physical resource or to a replica list.
#[derive(Clone, Copy, Debug, PartialEq, Eq, Hash, Structural)]
pub enum CompositeKey {
    Global(u64),
    PerFrame(u64),
}

/// Whether replica list `l` of `logical` holds the physical key `k`.
pub open spec fn owned_by(logical: Map<u64, Replicas>, l: u64, k: u64) -> bool {
    logical.contains_key(l) && logical[l].keys@.contains(k)
}

/// Whether the physical key `k` belongs to a replica list that the pool owns.
pub open spec fn per_frame_owned(logical: Map<u64, Replicas>, k: u64) -> bool {
    exists|l: u64| #[trigger] owned_by(logical, l, k) && !logical[l].external
}

/// The physical resource that a composite key and an index stand for.
pub open spec fn resolved<V>(
    physical: Map<u64, V>,
    logical: Map<u64, Replicas>,
    key: CompositeKey,
    index: int,
) -> Option<V> {
    match key {
        CompositeKey::Global(k) => if physical.contains_key(k) {
            Some(physical[k])
        } else {
            None
        },
        CompositeKey::PerFrame(l) => if logical.contains_key(l) && 0 <= index
            < logical[l].keys@.len() && physical.contains_key(logical[l].keys@[index]) {
            Some(physical[logical[l].keys@[index]])
        } else {
            None
        },
    }
}

/// Whether a pool has room for `count` more physical resources and one more
/// replica list.
pub open spec fn has_room_for<V>(
    physical: Map<u64, V>,
    logical: Map<u64, Replicas>,
    count: nat,
) -> bool {
    physical.len() + count <= SLOT_LIMIT && logical.len() < SLOT_LIMIT
}

/// How a pool changes when `values` become the replicas of the new list `l`:
/// the list is new and holds one fresh key per value, in order; each key
/// stores its value; nothing else changes.
pub open spec fn list_added<V>(
    physical: Map<u64, V>,
    logical: Map<u64, Replicas>,
    new_physical: Map<u64, V>,
    new_logical: Map<u64, Replicas>,
    l: u64,
    values: Seq<V>,
    external: bool,
) -> bool {
    &&& !logical.contains_key(l)
    &&& new_logical.contains_key(l)
    &&& new_logical == logical.insert(l, new_logical[l])
    &&& new_logical[l].external == external
    &&& new_logical[l].keys@.len() == values.len()
    &&& new_logical[l].keys@.no_duplicates()
    &&& forall|i: int|
        0 <= i < values.len() ==> {
            &&& !physical.contains_key(#[trigger] new_logical[l].keys@[i])
            &&& new_physical.contains_key(new_logical[l].keys@[i])
            &&& new_physical[new_logical[l].keys@[i]] == values[i]
        }
    &&& forall|k: u64| #[trigger]
        physical.contains_key(k) ==> new_physical.contains_key(k) && new_physical[k] == physical[k]
    &&& forall|k: u64| #[trigger]
        new_physical.contains_key(k) ==> physical.contains_key(k) || new_logical[l].keys@.contains(k)
    &&& new_physical.len() == physical.len() + values.len()
    &&& new_logical.len() == logical.len() + 1
}

/// Whether `released` holds a resource under the key `k`.
pub open spec fn has_key<V>(released: Seq<(u64, V)>, k: u64) -> bool {
    exists|j: int| 0 <= j < released.len() && (#[trigger] released[j]).0 == k
}

/// Whether each resource in `released` is the one that `physical` stores
/// under its key, and no key occurs twice.
pub open spec fn taken_from<V>(physical: Map<u64, V>, released: Seq<(u64, V)>) -> bool {
    &&& forall|j: int|
        0 <= j < released.len() ==> (#[trigger] released[j]).1 == physical[released[j].0]
    &&& forall|a: int, b: int|
        0 <= a < released.len() && 0 <= b < released.len() && a != b ==> (#[trigger] released[a]).0
            != (#[trigger] released[b]).0
}

/// How a pool changes when its own replica lists are released: the external
/// lists stay, unchanged; the physical resources of the pool's own lists
/// leave, all others stay, unchanged; `released` holds exactly the resources
/// that left, each once, with its key.
pub open spec fn per_frame_released<V>(
    physical: Map<u64, V>,
    logical: Map<u64, Replicas>,
    new_physical: Map<u64, V>,
    new_logical: Map<u64, Replicas>,
    released: Seq<(u64, V)>,
) -> bool {
    &&& forall|l: u64| #[trigger]
        new_logical.contains_key(l) <==> logical.contains_key(l) && logical[l].external
    &&& forall|l: u64| #[trigger] new_logical.contains_key(l) ==> new_logical[l] == logical[l]
    &&& forall|k: u64| #[trigger]
        new_physical.contains_key(k) <==> physical.contains_key(k) && !per_frame_owned(logical, k)
    &&& forall|k: u64| #[trigger] new_physical.contains_key(k) ==> new_physical[k] == physical[k]
    &&& forall|k: u64| #[trigger] has_key(released, k) <==> per_frame_owned(logical, k)
    &&& taken_from(physical, released)
}

/// Whether a release of the pool's own lists takes `key` out of use: the
/// key of a physical resource that one of these lists holds, or the key of
/// such a list.
pub open spec fn released_by(logical: Map<u64, Replicas>, key: CompositeKey) -> bool {
    match key {
        CompositeKey::Global(k) => per_frame_owned(logical, k),
        CompositeKey::PerFrame(l) => logical.contains_key(l) && !logical[l].external,
    }
}

/// A resource is released at most once: after a release the pool owns no
/// list any more, so that another release hands out nothing.
pub proof fn lemma_released_once<V>(
    physical: Map<u64, V>,
    logical: Map<u64, Replicas>,
    new_physical: Map<u64, V>,
    new_logical: Map<u64, Replicas>,
    released: Seq<(u64, V)>,
    newer_physical: Map<u64, V>,
    newer_logical: Map<u64, Replicas>,
    again: Seq<(u64, V)>,
)
    requires
        per_frame_released(physical, logical, new_physical, new_logical, released),
        per_frame_released(new_physical, new_logical, newer_physical, newer_logical, again),
    ensures
        forall|k: u64| !per_frame_owned(new_logical, k),
        again.len() == 0,
        newer_physical == new_physical,
        newer_logical == new_logical,
{
    assert forall|k: u64| !per_frame_owned(new_logical, k) by {
        if per_frame_owned(new_logical, k) {
            let l = choose|l: u64| #[trigger] owned_by(new_logical, l, k) && !new_logical[l].external;
            assert(new_logical.contains_key(l));
        }
    }
    if again.len() > 0 {
        assert(has_key(again, again[0].0));
    }
    assert(newer_physical =~= new_physical);
    assert(newer_logical =~= new_logical);
}

/// Whether `k` belongs to one of the pool's own lists among `done`.
spec fn swept(logical: Map<u64, Replicas>, done: Seq<u64>, k: u64) -> bool {
    exists|l: u64| done.contains(l) && #[trigger] owned_by(logical, l, k) && !logical[l].external
}

/// The state of a release under way: the lists in `done` are finished, and
/// of the list being worked on the keys in `part`.
spec fn sweep_state<V>(
    physical: Map<u64, V>,
    logical: Map<u64, Replicas>,
    done: Seq<u64>,
    part: Seq<u64>,
    now: Map<u64, V>,
    released: Seq<(u64, V)>,
) -> bool {
    &&& forall|k: u64| #[trigger]
        has_key(released, k) <==> swept(logical, done, k) || part.contains(k)
    &&& forall|k: u64| #[trigger]
        now.contains_key(k) <==> physical.contains_key(k) && !has_key(released, k)
    &&& forall|k: u64| #[trigger] now.contains_key(k) ==> now[k] == physical[k]
    &&& taken_from(physical, released)
}

/// A resource pushed onto `released` adds its key to those held.
proof fn lemma_has_key_push<V>(released: Seq<(u64, V)>, key: u64, value: V)
    ensures
        forall|k: u64| #[trigger]
            has_key(released.push((key, value)), k) <==> has_key(released, k) || k == key,
{
    let grown = released.push((key, value));
    assert forall|k: u64| #[trigger] has_key(grown, k) <==> has_key(released, k) || k == key by {
        if has_key(grown, k) {
            let j = choose|j: int| 0 <= j < grown.len() && (#[trigger] grown[j]).0 == k;
            if j < released.len() {
                assert(released[j].0 == k);
            }
        }
        if has_key(released, k) {
            let j = choose|j: int| 0 <= j < released.len() && (#[trigger] released[j]).0 == k;
            assert(grown[j].0 == k);
        }
        if k == key {
            assert(grown[released.len() as int].0 == k);
        }
    }
}

/// Finishing list `l` adds its keys to what is swept if the pool owns the
/// list, and nothing otherwise.
proof fn lemma_swept_push(logical: Map<u64, Replicas>, done: Seq<u64>, l: u64)
    ensures
        forall|k: u64|
            swept(logical, done.push(l), k) <==> swept(logical, done, k) || (owned_by(
                logical,
                l,
                k,
            ) && !logical[l].external),
{
    assert forall|k: u64|
        swept(logical, done.push(l), k) <==> swept(logical, done, k) || (owned_by(logical, l, k)
            && !logical[l].external) by {
        let wider = done.push(l);
        if swept(logical, wider, k) {
            let o = choose|o: u64|
                wider.contains(o) && #[trigger] owned_by(logical, o, k) && !logical[o].external;
            if o != l {
                let at = choose|at: int| 0 <= at < wider.len() && wider[at] == o;
                assert(done[at] == o);
                assert(done.contains(o));
            }
        }
        if swept(logical, done, k) {
            let o = choose|o: u64|
                done.contains(o) && #[trigger] owned_by(logical, o, k) && !logical[o].external;
            let at = choose|at: int| 0 <= at < done.len() && done[at] == o;
            assert(wider[at] == o);
            assert(wider.contains(o));
        }
        if owned_by(logical, l, k) && !logical[l].external {
            assert(wider[done.len() as int] == l);
            assert(wider.contains(l));
        }
    }
}

/// Pool of physical resources and their replica lists.
pub struct Pool<V> {
    physical: Arena<V>,
    logical: Arena<Replicas>,
}

impl<V> Pool<V> {
    /// The physical resources, by key.
    pub closed spec fn physical(&self) -> Map<u64, V> {
        self.physical@
    }

    /// The replica lists, by key.
    pub closed spec fn logical(&self) -> Map<u64, Replicas> {
        self.logical@
    }

    /// The keys of physical resources that were stored once and are not
    /// handed out again.
    pub closed spec fn retired_physical(&self) -> Set<u64> {
        self.physical.retired()
    }

    /// The keys of replica lists that were stored once and are not handed
    /// out again.
    pub closed spec fn retired_logical(&self) -> Set<u64> {
        self.logical.retired()
    }

    /// Every replica list resolves, and no physical resource is listed twice.
    pub closed spec fn wf(&self) -> bool {
        &&& self.physical.wf()
        &&& self.logical.wf()
        &&& lists_resolve(self.physical@, self.logical@)
    }

    /// A well-formed pool's replica lists resolve and are disjoint, and
    /// none of its retired keys is in use.
    pub proof fn lemma_wf(&self)
        requires
            self.wf(),
        ensures
            lists_resolve(self.physical(), self.logical()),
            self.physical().dom().finite(),
            self.logical().dom().finite(),
            forall|k: u64| self.retired_physical().contains(k) ==> !self.physical().contains_key(k),
            forall|l: u64| self.retired_logical().contains(l) ==> !self.logical().contains_key(l),
    {
        self.physical.lemma_keys();
        self.logical.lemma_keys();
    }

    /// An empty pool.
    pub fn new() -> (pool: Self)
        ensures
            pool.wf(),
            pool.physical() == Map::<u64, V>::empty(),
            pool.logical() == Map::<u64, Replicas>::empty(),
            pool.retired_physical() == Set::<u64>::empty(),
            pool.retired_logical() == Set::<u64>::empty(),
    {
        Pool { physical: Arena::new(), logical: Arena::new() }
    }

    /// The number of physical resources held.
    pub fn physical_len(&self) -> (n: usize)
        requires
            self.wf(),
        ensures
            n == self.physical().len(),
    {
        self.physical.len()
    }

    /// The number of replica lists held.
    pub fn logical_len(&self) -> (n: usize)
        requires
            self.wf(),
        ensures
            n == self.logical().len(),
    {
        self.logical.len()
    }

    /// Whether the pool has room for `count` more physical resources and one
    /// more replica list.
    pub fn has_room(&self, count: usize) -> (room: bool)
        requires
            self.wf(),
        ensures
            room == has_room_for(self.physical(), self.logical(), count as nat),
    {
        let held = self.physical.len();
        held <= SLOT_LIMIT && count <= SLOT_LIMIT - held && self.logical.has_room()
    }

    /// Stores one physical resource, under a key that is none of the
    /// retired ones. Fails, changing nothing, only when the pool has no
    /// room left.
    pub fn insert_global(&mut self, value: V) -> (key: Option<u64>)
        requires
            old(self).wf(),
        ensures
            final(self).wf(),
            final(self).logical() == old(self).logical(),
            final(self).retired_physical() == old(self).retired_physical(),
            final(self).retired_logical() == old(self).retired_logical(),
            match key {
                Some(k) => {
                    &&& old(self).physical().len() < SLOT_LIMIT
                    &&& !old(self).physical().contains_key(k)
                    &&& !old(self).retired_physical().contains(k)
                    &&& final(self).physical() == old(self).physical().insert(k, value)
                    &&& final(self).physical().len() == old(self).physical().len() + 1
                },
                None => {
                    &&& old(self).physical().len() >= SLOT_LIMIT
                    &&& final(self).physical() == old(self).physical()
                },
            },
    {
        if !self.physical.has_room() {
            return None;
        }
        proof {
            self.physical.lemma_keys();
        }
        let key = self.physical.insert(value);
        proof {
            let logical = self.logical@;
            assert forall|l: u64, i: int|
                logical.contains_key(l) && 0 <= i < logical[l].keys@.len() implies (
            #[trigger] self.physical@.contains_key(logical[l].keys@[i])) by {
                assert(old(self).physical@.contains_key(logical[l].keys@[i]));
            }
        }
        Some(key)
    }

    /// Stores `values` as the replicas of a new list, in their order, under
    /// keys of which none is a retired one. Fails, changing nothing, only
    /// when the pool has no room for all of them.
    pub fn insert_replicated(&mut self, values: Vec<V>, external: bool) -> (list: Option<u64>)
        requires
            old(self).wf(),
        ensures
            final(self).wf(),
            final(self).retired_physical() == old(self).retired_physical(),
            final(self).retired_logical() == old(self).retired_logical(),
            match list {
                Some(l) => {
                    &&& !old(self).retired_logical().contains(l)
                    &&& forall|i: int|
                        0 <= i < values@.len() ==> !old(self).retired_physical().contains(
                            #[trigger] final(self).logical()[l].keys@[i],
                        )
                    &&& has_room_for(old(self).physical(), old(self).logical(), values@.len())
                    &&& list_added(
                        old(self).physical(),
                        old(self).logical(),
                        final(self).physical(),
                        final(self).logical(),
                        l,
                        values@,
                        external,
                    )
                },
                None => {
                    &&& !has_room_for(old(self).physical(), old(self).logical(), values@.len())
                    &&& final(self).physical() == old(self).physical()
                    &&& final(self).logical() == old(self).logical()
                },
            },
    {
        let count = values.len();
        let held = self.physical.len();
        if held > SLOT_LIMIT || count > SLOT_LIMIT - held || !self.logical.has_room() {
            return None;
        }
        let mut keys: Vec<u64> = Vec::new();
        let ghost given = values@;
        for value in iter: values
            invariant
                iter.seq() == given,
                self.physical.wf(),
                self.logical == old(self).logical,
                self.physical.retired() == old(self).physical.retired(),
                forall|i: int|
                    0 <= i < keys@.len() ==> !old(self).physical.retired().contains(
                        #[trigger] keys@[i],
                    ),
                held + given.len() <= SLOT_LIMIT,
                self.physical@.len() == held + iter.index(),
                keys@.len() == iter.index(),
                keys@.no_duplicates(),
                forall|i: int|
                    0 <= i < keys@.len() ==> {
                        &&& !old(self).physical@.contains_key(#[trigger] keys@[i])
                        &&& self.physical@.contains_key(keys@[i])
                        &&& self.physical@[keys@[i]] == given[i]
                    },
                forall|k: u64| #[trigger]
                    old(self).physical@.contains_key(k) ==> self.physical@.contains_key(k)
                        && self.physical@[k] == old(self).physical@[k],
                forall|k: u64| #[trigger]
                    self.physical@.contains_key(k) ==> old(self).physical@.contains_key(k)
                        || keys@.contains(k),
        {
            let ghost before = keys@;
            let ghost physical_before = self.physical@;
            proof {
                self.physical.lemma_keys();
            }
            let key = self.physical.insert(value);
            keys.push(key);
            proof {
                assert(!before.contains(key)) by {
                    if before.contains(key) {
                        let at = choose|at: int| 0 <= at < before.len() && before[at] == key;
                        assert(physical_before.contains_key(before[at]));
                    }
                }
                assert forall|i: int| 0 <= i < keys@.len() implies {
                    &&& !old(self).physical@.contains_key(#[trigger] keys@[i])
                    &&& self.physical@.contains_key(keys@[i])
                    &&& self.physical@[keys@[i]] == given[i]
                } by {
                    if i < before.len() {
                        assert(keys@[i] == before[i]);
                        assert(before.contains(before[i]));
                    }
                }
                assert forall|k: u64| #[trigger] self.physical@.contains_key(k) implies old(
                    self,
                ).physical@.contains_key(k) || keys@.contains(k) by {
                    if k == key {
                        assert(keys@[before.len() as int] == key);
                    } else {
                        assert(physical_before.contains_key(k));
                        if before.contains(k) {
                            let at = choose|at: int| 0 <= at < before.len() && before[at] == k;
                            assert(keys@[at] == k);
                        }
                    }
                }
                assert forall|a: int, b: int|
                    0 <= a < keys@.len() && 0 <= b < keys@.len() && a != b implies keys@[a]
                    != keys@[b] by {
                    if a < before.len() {
                        assert(before.contains(before[a]));
                    }
                    if b < before.len() {
                        assert(before.contains(before[b]));
                    }
                }
            }
        }
        let ghost listed = keys@;
        proof {
            self.logical.lemma_keys();
        }
        let list = self.logical.insert(Replicas { keys, external });
        proof {
            let physical = self.physical@;
            let logical = self.logical@;
            let earlier = old(self).logical@;
            assert forall|l: u64, i: int|
                logical.contains_key(l) && 0 <= i < logical[l].keys@.len() implies (
            #[trigger] physical.contains_key(logical[l].keys@[i])) by {
                if l != list {
                    assert(old(self).physical@.contains_key(earlier[l].keys@[i]));
                }
            }
            assert forall|l1: u64, l2: u64, k: u64|
                owned_by(logical, l1, k) && owned_by(logical, l2, k) implies l1 == l2 by {
                if l1 == list && l2 != list {
                    let i = choose|i: int| 0 <= i < listed.len() && listed[i] == k;
                    let j = choose|j: int|
                        0 <= j < earlier[l2].keys@.len() && earlier[l2].keys@[j] == k;
                    assert(old(self).physical@.contains_key(earlier[l2].keys@[j]));
                } else if l2 == list && l1 != list {
                    let i = choose|i: int| 0 <= i < listed.len() && listed[i] == k;
                    let j = choose|j: int|
                        0 <= j < earlier[l1].keys@.len() && earlier[l1].keys@[j] == k;
                    assert(old(self).physical@.contains_key(earlier[l1].keys@[j]));
                } else if l1 != list {
                    assert(owned_by(earlier, l1, k) && owned_by(earlier, l2, k));
                }
            }
        }
        Some(list)
    }

    /// Releases every replica list that the pool owns, with the physical
    /// resources it names, and hands those resources out, each once, with
    /// the key it was stored under. External lists, their resources and the
    /// global resources stay as they are. The keys that are released join
    /// the retired ones, as long as none of the pool's keys carries the
    /// last generation of its slot.
    pub fn release_per_frame(&mut self) -> (released: Vec<(u64, V)>)
        requires
            old(self).wf(),
        ensures
            final(self).wf(),
            per_frame_released(
                old(self).physical(),
                old(self).logical(),
                final(self).physical(),
                final(self).logical(),
                released@,
            ),
            generations_left(old(self).physical().dom()) ==> forall|k: u64| #[trigger]
                final(self).retired_physical().contains(k) <==> old(self).retired_physical().contains(
                    k,
                ) || has_key(released@, k),
            generations_left(old(self).logical().dom()) ==> forall|l: u64| #[trigger]
                final(self).retired_logical().contains(l) <==> old(self).retired_logical().contains(l)
                    || (old(self).logical().contains_key(l) && !old(self).logical()[l].external),
    {
        let ghost physical = self.physical@;
        let ghost logical = self.logical@;
        let ghost gone_physical = self.physical.retired();
        let ghost gone_logical = self.logical.retired();
        let lists = self.logical.keys();
        let mut released: Vec<(u64, V)> = Vec::new();
        let mut n: usize = 0;
        proof {
            assert(lists@.take(0) =~= Seq::<u64>::empty());
            assert forall|k: u64| !swept(logical, Seq::<u64>::empty(), k) by {}
        }
        while n < lists.len()
            invariant
                0 <= n <= lists@.len(),
                lists@.no_duplicates(),
                forall|l: u64| lists@.contains(l) <==> logical.contains_key(l),
                lists_resolve(physical, logical),
                self.physical.wf(),
                self.logical.wf(),
                forall|l: u64| #[trigger]
                    self.logical@.contains_key(l) <==> logical.contains_key(l) && !(lists@.take(
                        n as int,
                    ).contains(l) && !logical[l].external),
                forall|l: u64| #[trigger]
                    self.logical@.contains_key(l) ==> self.logical@[l] == logical[l],
                generations_left(physical.dom()) ==> forall|k: u64| #[trigger]
                    self.physical.retired().contains(k) <==> gone_physical.contains(k) || has_key(
                        released@,
                        k,
                    ),
                generations_left(logical.dom()) ==> forall|l: u64| #[trigger]
                    self.logical.retired().contains(l) <==> gone_logical.contains(l) || (
                    logical.contains_key(l) && !logical[l].external && lists@.take(
                        n as int,
                    ).contains(l)),
                sweep_state(
                    physical,
                    logical,
                    lists@.take(n as int),
                    Seq::empty(),
                    self.physical@,
                    released@,
                ),
            decreases lists@.len() - n,
        {
            let list = lists[n];
            let ghost done = lists@.take(n as int);
            let ghost wider = lists@.take(n as int + 1);
            proof {
                assert(lists@.contains(list));
                assert(!done.contains(list)) by {
                    if done.contains(list) {
                        let at = choose|at: int| 0 <= at < done.len() && done[at] == list;
                        assert(lists@[at] == list);
                    }
                }
                assert(wider =~= done.push(list));
                assert forall|l: u64| wider.contains(l) <==> done.contains(l) || l == list by {
                    if wider.contains(l) {
                        let at = choose|at: int| 0 <= at < wider.len() && wider[at] == l;
                        if at < done.len() {
                            assert(done[at] == l);
                        }
                    }
                    if done.contains(l) {
                        let at = choose|at: int| 0 <= at < done.len() && done[at] == l;
                        assert(wider[at] == l);
                    }
                    assert(wider[done.len() as int] == list);
                }
                lemma_swept_push(logical, done, list);
            }
            let owned = match self.logical.get(list) {
                Some(replicas) => !replicas.external,
                None => false,
            };
            if owned {
                let removed = self.logical.remove(list);
                let replicas = removed.unwrap();
                let ghost logical_now = self.logical@;
                let ghost gone_now = self.logical.retired();
                proof {
                    if generations_left(logical.dom()) {
                        assert(logical.dom().contains(list));
                    }
                }
                let mut m: usize = 0;
                proof {
                    assert(replicas.keys@.take(0) =~= Seq::<u64>::empty());
                }
                while m < replicas.keys.len()
                    invariant
                        0 <= m <= replicas.keys@.len(),
                        replicas == logical[list],
                        logical.contains_key(list),
                        !logical[list].external,
                        !done.contains(list),
                        lists_resolve(physical, logical),
                        self.physical.wf(),
                        self.logical.wf(),
                        self.logical@ == logical_now,
                        self.logical.retired() == gone_now,
                        generations_left(physical.dom()) ==> forall|k: u64| #[trigger]
                            self.physical.retired().contains(k) <==> gone_physical.contains(k)
                                || has_key(released@, k),
                        sweep_state(
                            physical,
                            logical,
                            done,
                            replicas.keys@.take(m as int),
                            self.physical@,
                            released@,
                        ),
                    decreases replicas.keys@.len() - m,
                {
                    let key = replicas.keys[m];
                    let ghost part = replicas.keys@.take(m as int);
                    let ghost grown = replicas.keys@.take(m as int + 1);
                    let ghost before = released@;
                    proof {
                        assert(grown =~= part.push(key));
                        assert forall|k: u64| grown.contains(k) <==> part.contains(k) || k
                            == key by {
                            if grown.contains(k) {
                                let at = choose|at: int| 0 <= at < grown.len() && grown[at] == k;
                                if at < part.len() {
                                    assert(part[at] == k);
                                }
                            }
                            if part.contains(k) {
                                let at = choose|at: int| 0 <= at < part.len() && part[at] == k;
                                assert(grown[at] == k);
                            }
                            assert(grown[part.len() as int] == key);
                        }
                        assert(physical.contains_key(logical[list].keys@[m as int]));
                        assert(owned_by(logical, list, key));
                        assert(!part.contains(key)) by {
                            if part.contains(key) {
                                let at = choose|at: int| 0 <= at < part.len() && part[at] == key;
                                assert(replicas.keys@[at] == key);
                            }
                        }
                        assert(!swept(logical, done, key)) by {
                            if swept(logical, done, key) {
                                let other = choose|l: u64|
                                    done.contains(l) && #[trigger] owned_by(logical, l, key)
                                        && !logical[l].external;
                                assert(other == list);
                            }
                        }
                        assert(!has_key(before, key));
                        assert(self.physical@.contains_key(key));
                        if generations_left(physical.dom()) {
                            assert(physical.dom().contains(key));
                        }
                    }
                    match self.physical.remove(key) {
                        Some(value) => {
                            released.push((key, value));
                            proof {
                                lemma_has_key_push(before, key, value);
                                assert(released@ == before.push((key, value)));
                                assert forall|a: int, b: int|
                                    0 <= a < released@.len() && 0 <= b < released@.len() && a
                                        != b implies (#[trigger] released@[a]).0 != (
                                #[trigger] released@[b]).0 by {
                                    if a < before.len() {
                                        assert(released@[a] == before[a]);
                                        assert(has_key(before, before[a].0));
                                    }
                                    if b < before.len() {
                                        assert(released@[b] == before[b]);
                                        assert(has_key(before, before[b].0));
                                    }
                                }
                                assert forall|j: int| 0 <= j < released@.len() implies (
                                #[trigger] released@[j]).1 == physical[released@[j].0] by {
                                    if j < before.len() {
                                        assert(released@[j] == before[j]);
                                    }
                                }
                            }
                        },
                        None => {
                            assert(false);
                        },
                    }
                    m += 1;
                }
                proof {
                    assert(replicas.keys@.take(m as int) =~= replicas.keys@);
                    assert forall|k: u64| #[trigger]
                        has_key(released@, k) <==> swept(logical, wider, k) || Seq::<u64>::empty(
                        ).contains(k) by {}
                }
            }
            n += 1;
        }
        proof {
            assert(lists@.take(n as int) =~= lists@);
            assert forall|k: u64| swept(logical, lists@, k) <==> per_frame_owned(logical, k) by {
                if per_frame_owned(logical, k) {
                    let l = choose|l: u64| #[trigger]
                        owned_by(logical, l, k) && !logical[l].external;
                    assert(lists@.contains(l));
                }
            }
            let final_logical = self.logical@;
            let final_physical = self.physical@;
            assert forall|k: u64| #[trigger]
                has_key(released@, k) <==> per_frame_owned(logical, k) by {}
            assert forall|l: u64, i: int|
                final_logical.contains_key(l) && 0 <= i < final_logical[l].keys@.len() implies (
            #[trigger] final_physical.contains_key(final_logical[l].keys@[i])) by {
                let k = logical[l].keys@[i];
                assert(physical.contains_key(logical[l].keys@[i]));
                assert(owned_by(logical, l, k));
                if per_frame_owned(logical, k) {
                    let other = choose|o: u64| #[trigger]
                        owned_by(logical, o, k) && !logical[o].external;
                    assert(other == l);
                }
            }
            assert forall|l1: u64, l2: u64, k: u64|
                owned_by(final_logical, l1, k) && owned_by(final_logical, l2, k) implies l1
                == l2 by {
                assert(owned_by(logical, l1, k) && owned_by(logical, l2, k));
            }
        }
        released
    }

    /// The physical resource stored under `key`.
    pub fn get(&self, key: u64) -> (value: Option<&V>)
        requires
            self.wf(),
        ensures
            match value {
                Some(v) => self.physical().contains_key(key) && *v == self.physical()[key],
                None => !self.physical().contains_key(key),
            },
    {
        self.physical.get(key)
    }

    /// The number of replicas behind a replica-list key.
    pub fn replica_count(&self, list: u64) -> (count: Option<usize>)
        requires
            self.wf(),
        ensures
            match count {
                Some(n) => self.logical().contains_key(list) && n == self.logical()[list].keys@.len(),
                None => !self.logical().contains_key(list),
            },
    {
        match self.logical.get(list) {
            Some(replicas) => Some(replicas.keys.len()),
            None => None,
        }
    }

    /// The physical resource that `key` and `index` stand for: the resource
    /// itself for a global key, whatever the index; the replica at `index`
    /// for a replica list. Nothing for a key that is not in use or an index
    /// past the end of the list.
    pub fn resolve(&self, key: CompositeKey, index: usize) -> (value: Option<&V>)
        requires
            self.wf(),
        ensures
            match value {
                Some(v) => resolved(self.physical(), self.logical(), key, index as int) == Some(*v),
                None => resolved(self.physical(), self.logical(), key, index as int) is None,
            },
    {
        match key {
            CompositeKey::Global(k) => self.physical.get(k),
            CompositeKey::PerFrame(l) => match self.logical.get(l) {
                Some(replicas) => {
                    if index < replicas.keys.len() {
                        self.physical.get(replicas.keys[index])
                    } else {
                        None
                    }
                },
                None => None,
            },
        }
    }
}

/// Every entry of every replica list is the key of a physical resource; no
/// list names a resource twice, and no two lists share one.
pub open spec fn lists_resolve<V>(physical: Map<u64, V>, logical: Map<u64, Replicas>) -> bool {
    &&& forall|l: u64, i: int|
        logical.contains_key(l) && 0 <= i < logical[l].keys@.len() ==> #[trigger] physical.contains_key(
            logical[l].keys@[i],
        )
    &&& forall|l: u64| #[trigger] logical.contains_key(l) ==> logical[l].keys@.no_duplicates()
    &&& forall|l1: u64, l2: u64, k: u64|
        owned_by(logical, l1, k) && owned_by(logical, l2, k) ==> l1 == l2
}

} // verus!
