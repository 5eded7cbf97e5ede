//! A generational arena: values found again by keys that a slot map hands out.
//!
//! The slot map of the `slotmap` crate issues the keys and checks their
//! generation; it maps each live key to a position in a dense store that
//! this module owns, so that the stored values are visible to the verifier.

use slotmap::{DefaultKey, Key, KeyData, SlotMap};
use vstd::prelude::*;

verus! {

/// The slot map of the `slotmap` crate that issues the keys, holding under
/// each live key a position of the dense store.
#[verifier::external_body]
pub struct SlotIndex {
    slots: SlotMap<DefaultKey, usize>,
}

/// What a slot map of positions holds: each live key, in its 64-bit form,
/// with the position stored under it.
pub uninterp spec fn slot_contents(slots: SlotIndex) -> Map<u64, usize>;

/// The keys that a slot map has taken back and does not hand out again: of
/// each slot, the keys of the generations that lie behind the slot's own.
/// They stay so until the generation counter of their slot runs over.
pub uninterp spec fn slot_retired(slots: SlotIndex) -> Set<u64>;

/// The number of live keys below which a slot map always accepts another.
pub const SLOT_LIMIT: usize = 0xffff_fffe;

/// Whether a 64-bit value has the shape of a live key: a generation, in the
/// upper half, that is odd.
pub open spec fn is_slot_key(key: u64) -> bool {
    (key >> 32) & 1 == 1
}

/// Whether a key carries the last generation that the counter of a slot
/// can hold: when such a key is taken back, the counter runs over and the
/// slot starts its generations anew.
pub open spec fn is_last_generation(key: u64) -> bool {
    key >> 32 == 0xffff_ffff
}

/// Whether none of `keys` carries the last generation of its slot, so
/// that each of them is retired for good once it is released.
pub open spec fn generations_left(keys: Set<u64>) -> bool {
    forall|k: u64| #[trigger] keys.contains(k) ==> !is_last_generation(k)
}

/// `SlotMap::new`: the new slot map holds no key and has taken none back.
#[verifier::external_body]
fn slots_new() -> (slots: SlotIndex)
    ensures
        slot_contents(slots).dom() == Set::<u64>::empty(),
        slot_retired(slots) == Set::<u64>::empty(),
{
    SlotIndex { slots: SlotMap::new() }
}

/// `SlotMap::len`: the number of live keys.
#[verifier::external_body]
fn slots_len(slots: &SlotIndex) -> (n: usize)
    ensures
        n == slot_contents(*slots).len(),
{
    slots.slots.len()
}

/// `SlotMap::insert`, with the key handed back through `KeyData::as_ffi`:
/// the key is live-shaped, was not live before, and now stores `position`;
/// every other key is as before. The key has the generation after the one
/// that its slot stood at, so it is none of the keys taken back, and those
/// stay as they are. The slot map panics only when it is full, which takes
/// at least `SLOT_LIMIT` live keys.
#[verifier::external_body]
fn slots_insert(slots: &mut SlotIndex, position: usize) -> (key: u64)
    requires
        slot_contents(*old(slots)).dom().finite(),
        slot_contents(*old(slots)).len() < SLOT_LIMIT,
    ensures
        is_slot_key(key),
        !slot_contents(*old(slots)).contains_key(key),
        slot_contents(*final(slots)) == slot_contents(*old(slots)).insert(key, position),
        !slot_retired(*old(slots)).contains(key),
        slot_retired(*final(slots)) == slot_retired(*old(slots)),
{
    slots.slots.insert(position).data().as_ffi()
}

/// `SlotMap::get`, with the key rebuilt through `KeyData::from_ffi`: the
/// position stored under a live key, nothing for any other key.
#[verifier::external_body]
fn slots_get(slots: &SlotIndex, key: u64) -> (position: Option<usize>)
    requires
        is_slot_key(key),
    ensures
        position == (if slot_contents(*slots).contains_key(key) {
            Some(slot_contents(*slots)[key])
        } else {
            None
        }),
{
    slots.slots.get(DefaultKey::from(KeyData::from_ffi(key))).copied()
}

/// `SlotMap::remove`, with the key rebuilt through `KeyData::from_ffi`: a
/// live key stops being live and its position is handed back; any other
/// key changes nothing. The slot of a key that was live moves on by one
/// generation, which puts the key among those taken back, unless the key
/// carried the last generation: then the counter of the slot runs over,
/// and the keys of that slot are no longer held back.
#[verifier::external_body]
fn slots_remove(slots: &mut SlotIndex, key: u64) -> (position: Option<usize>)
    requires
        is_slot_key(key),
    ensures
        position == (if slot_contents(*old(slots)).contains_key(key) {
            Some(slot_contents(*old(slots))[key])
        } else {
            None
        }),
        slot_contents(*final(slots)) == slot_contents(*old(slots)).remove(key),
        position is None ==> slot_retired(*final(slots)) == slot_retired(*old(slots)),
        position is Some && !is_last_generation(key) ==> slot_retired(*final(slots))
            == slot_retired(*old(slots)).insert(key),
        slot_retired(*final(slots)).subset_of(slot_retired(*old(slots)).insert(key)),
{
    slots.slots.remove(DefaultKey::from(KeyData::from_ffi(key)))
}

/// Whether `key` has the shape of a live key.
fn has_key_shape(key: u64) -> (shaped: bool)
    ensures
        shaped == is_slot_key(key),
{
    (key >> 32) & 1 == 1
}

/// One occupied position of the dense store.
pub struct Entry<V> {
    pub key: u64,
    pub value: V,
}

/// Arena of values addressed by generational keys.
pub struct Arena<V> {
    slots: SlotIndex,
    items: Vec<Option<Entry<V>>>,
    free: Vec<usize>,
}

impl<V> View for Arena<V> {
    type V = Map<u64, V>;

    closed spec fn view(&self) -> Map<u64, V> {
        Map::new(
            |key: u64| slot_contents(self.slots).contains_key(key),
            |key: u64| self.items@[slot_contents(self.slots)[key] as int]->Some_0.value,
        )
    }
}

impl<V> Arena<V> {
    /// The keys that were in use once and are not handed out again.
    pub closed spec fn retired(&self) -> Set<u64> {
        slot_retired(self.slots)
    }

    /// The invariant that ties the slot map to the dense store.
    pub closed spec fn wf(&self) -> bool {
        let contents = slot_contents(self.slots);
        &&& contents.dom().finite()
        &&& forall|key: u64| #[trigger]
            slot_retired(self.slots).contains(key) ==> !contents.contains_key(key)
        &&& forall|key: u64| #[trigger]
            contents.contains_key(key) ==> {
                &&& is_slot_key(key)
                &&& contents[key] < self.items@.len()
                &&& self.items@[contents[key] as int] matches Some(entry)
                &&& entry.key == key
            }
        &&& forall|i: int|
            0 <= i < self.items@.len() ==> (#[trigger] self.items@[i] matches Some(entry)
                ==> contents.contains_key(entry.key) && contents[entry.key] == i)
        &&& forall|j: int|
            0 <= j < self.free@.len() ==> {
                &&& (#[trigger] self.free@[j]) < self.items@.len()
                &&& self.items@[self.free@[j] as int] is None
            }
        &&& forall|j: int, k: int|
            0 <= j < k < self.free@.len() ==> self.free@[j] != self.free@[k]
    }

    /// Every key of a well-formed arena has the shape of a live key, and the
    /// arena holds finitely many. No retired key is in use.
    pub proof fn lemma_keys(&self)
        requires
            self.wf(),
        ensures
            self@.dom().finite(),
            forall|key: u64| self@.contains_key(key) ==> is_slot_key(key),
            forall|key: u64| self.retired().contains(key) ==> !self@.contains_key(key),
    {
        assert(self@.dom() =~= slot_contents(self.slots).dom());
    }

    /// An empty arena.
    pub fn new() -> (arena: Self)
        ensures
            arena.wf(),
            arena@ == Map::<u64, V>::empty(),
            arena.retired() == Set::<u64>::empty(),
    {
        let arena = Arena { slots: slots_new(), items: Vec::new(), free: Vec::new() };
        assert(arena@ =~= Map::<u64, V>::empty());
        arena
    }

    /// The number of values held.
    pub fn len(&self) -> (n: usize)
        requires
            self.wf(),
        ensures
            n == self@.len(),
    {
        proof {
            assert(self@.dom() =~= slot_contents(self.slots).dom());
        }
        slots_len(&self.slots)
    }

    /// Whether another value can be stored.
    pub fn has_room(&self) -> (room: bool)
        requires
            self.wf(),
        ensures
            room == (self@.len() < SLOT_LIMIT),
    {
        self.len() < SLOT_LIMIT
    }

    /// Stores `value` under a key that was not in use, and hands the key
    /// out. The key is none of the retired ones.
    pub fn insert(&mut self, value: V) -> (key: u64)
        requires
            old(self).wf(),
            old(self)@.len() < SLOT_LIMIT,
        ensures
            final(self).wf(),
            !old(self)@.contains_key(key),
            final(self)@ == old(self)@.insert(key, value),
            !old(self).retired().contains(key),
            final(self).retired() == old(self).retired(),
    {
        proof {
            assert(self@.dom() =~= slot_contents(self.slots).dom());
        }
        let position = match self.free.pop() {
            Some(position) => position,
            None => {
                self.items.push(None);
                self.items.len() - 1
            },
        };
        let ghost before = slot_contents(self.slots);
        let ghost items_before = self.items@;
        assert(forall|k: u64| #[trigger] before.contains_key(k) ==> before[k] != position);
        let key = slots_insert(&mut self.slots, position);
        self.items.set(position, Some(Entry { key, value }));
        proof {
            let contents = slot_contents(self.slots);
            assert forall|k: u64| #[trigger] contents.contains_key(k) implies {
                &&& is_slot_key(k)
                &&& contents[k] < self.items@.len()
                &&& self.items@[contents[k] as int] matches Some(entry)
                &&& entry.key == k
            } by {
                if k != key {
                    assert(before.contains_key(k));
                }
            }
            assert forall|i: int| 0 <= i < self.items@.len() implies (
            #[trigger] self.items@[i] matches Some(entry) ==> contents.contains_key(entry.key)
                && contents[entry.key] == i) by {
                if i != position {
                    assert(self.items@[i] == items_before[i]);
                }
            }
            assert(final(self)@ =~= old(self)@.insert(key, value));
        }
        key
    }

    /// Whether `key` addresses a value.
    pub fn contains_key(&self, key: u64) -> (found: bool)
        requires
            self.wf(),
        ensures
            found == self@.contains_key(key),
    {
        if !has_key_shape(key) {
            return false;
        }
        slots_get(&self.slots, key).is_some()
    }

    /// The value stored under `key`, if the key is in use.
    pub fn get(&self, key: u64) -> (value: Option<&V>)
        requires
            self.wf(),
        ensures
            match value {
                Some(v) => self@.contains_key(key) && *v == self@[key],
                None => !self@.contains_key(key),
            },
    {
        if !has_key_shape(key) {
            return None;
        }
        match slots_get(&self.slots, key) {
            Some(position) => match &self.items[position] {
                Some(entry) => Some(&entry.value),
                None => None,
            },
            None => None,
        }
    }

    /// Takes the value stored under `key` out of the arena. The key is not
    /// in use afterwards, so a second removal finds nothing, and it is
    /// retired, unless it carried the last generation of its slot.
    pub fn remove(&mut self, key: u64) -> (value: Option<V>)
        requires
            old(self).wf(),
        ensures
            final(self).wf(),
            final(self)@ == old(self)@.remove(key),
            match value {
                Some(v) => old(self)@.contains_key(key) && v == old(self)@[key],
                None => !old(self)@.contains_key(key),
            },
            value is None ==> final(self).retired() == old(self).retired(),
            value is Some && !is_last_generation(key) ==> final(self).retired() == old(
                self,
            ).retired().insert(key),
            final(self).retired().subset_of(old(self).retired().insert(key)),
    {
        if !has_key_shape(key) {
            assert(final(self)@ =~= old(self)@.remove(key));
            return None;
        }
        let ghost before = slot_contents(self.slots);
        match slots_remove(&mut self.slots, key) {
            Some(position) => {
                let mut taken: Option<Entry<V>> = None;
                self.items.set_and_swap(position, &mut taken);
                self.free.push(position);
                proof {
                    let contents = slot_contents(self.slots);
                    assert forall|k: u64| #[trigger] contents.contains_key(k) implies {
                        &&& is_slot_key(k)
                        &&& contents[k] < self.items@.len()
                        &&& self.items@[contents[k] as int] matches Some(entry)
                        &&& entry.key == k
                    } by {
                        assert(before.contains_key(k));
                    }
                    assert forall|j: int, k: int| 0 <= j < k < self.free@.len() implies self.free@[j]
                        != self.free@[k] by {
                        if k == self.free@.len() - 1 {
                            assert(old(self).free@[j] == self.free@[j]);
                        }
                    }
                    assert(final(self)@ =~= old(self)@.remove(key));
                }
                match taken {
                    Some(entry) => Some(entry.value),
                    None => None,
                }
            },
            None => {
                assert(final(self)@ =~= old(self)@.remove(key));
                None
            },
        }
    }

    /// The keys in use, each once.
    pub fn keys(&self) -> (keys: Vec<u64>)
        requires
            self.wf(),
        ensures
            keys@.no_duplicates(),
            forall|key: u64| keys@.contains(key) <==> self@.contains_key(key),
    {
        let mut keys: Vec<u64> = Vec::new();
        let mut i: usize = 0;
        while i < self.items.len()
            invariant
                self.wf(),
                0 <= i <= self.items@.len(),
                keys@.no_duplicates(),
                forall|key: u64|
                    keys@.contains(key) <==> (slot_contents(self.slots).contains_key(key)
                        && slot_contents(self.slots)[key] < i),
            decreases self.items@.len() - i,
        {
            let ghost before = keys@;
            match &self.items[i] {
                Some(entry) => {
                    keys.push(entry.key);
                    proof {
                        let pushed = entry.key;
                        assert(!before.contains(pushed));
                        assert(keys@ == before.push(pushed));
                        assert forall|key: u64| keys@.contains(key) <==> (slot_contents(
                            self.slots,
                        ).contains_key(key) && slot_contents(self.slots)[key] < i + 1) by {
                            if keys@.contains(key) {
                                let at = choose|at: int| 0 <= at < keys@.len() && keys@[at] == key;
                                if at < before.len() {
                                    assert(before[at] == key);
                                    assert(before.contains(key));
                                }
                            }
                            if slot_contents(self.slots).contains_key(key) && slot_contents(
                                self.slots,
                            )[key] < i + 1 {
                                if slot_contents(self.slots)[key] < i {
                                    assert(before.contains(key));
                                    let at = choose|at: int|
                                        0 <= at < before.len() && before[at] == key;
                                    assert(keys@[at] == key);
                                } else {
                                    assert(keys@[before.len() as int] == key);
                                }
                            }
                        }
                        assert forall|a: int, b: int|
                            0 <= a < keys@.len() && 0 <= b < keys@.len() && a != b implies keys@[a]
                            != keys@[b] by {
                            if a == before.len() {
                                assert(before[b] == keys@[b]);
                                assert(before.contains(keys@[b]));
                            } else if b == before.len() {
                                assert(before[a] == keys@[a]);
                                assert(before.contains(keys@[a]));
                            } else {
                                assert(before[a] == keys@[a] && before[b] == keys@[b]);
                            }
                        }
                    }
                },
                None => {
                    proof {
                        assert forall|key: u64| keys@.contains(key) <==> (slot_contents(
                            self.slots,
                        ).contains_key(key) && slot_contents(self.slots)[key] < i + 1) by {
                            if slot_contents(self.slots).contains_key(key) {
                                assert(slot_contents(self.slots)[key] != i);
                            }
                        }
                    }
                },
            }
            i += 1;
        }
        keys
    }

    /// Takes every value out of the arena and hands them out, each once,
    /// with the key it was stored under. The keys are retired, as long as
    /// none of them carries the last generation of its slot.
    pub fn drain(&mut self) -> (drained: Vec<(u64, V)>)
        requires
            old(self).wf(),
        ensures
            final(self).wf(),
            final(self)@ == Map::<u64, V>::empty(),
            forall|key: u64|
                old(self)@.contains_key(key) <==> exists|j: int|
                    0 <= j < drained@.len() && (#[trigger] drained@[j]).0 == key,
            forall|j: int|
                0 <= j < drained@.len() ==> (#[trigger] drained@[j]).1 == old(self)@[drained@[j].0],
            forall|a: int, b: int|
                0 <= a < b < drained@.len() ==> (#[trigger] drained@[a]).0 != (
                #[trigger] drained@[b]).0,
            generations_left(old(self)@.dom()) ==> forall|key: u64| #[trigger]
                final(self).retired().contains(key) <==> old(self).retired().contains(key) || old(
                    self,
                )@.contains_key(key),
    {
        let keys = self.keys();
        let mut drained: Vec<(u64, V)> = Vec::new();
        let mut i: usize = 0;
        while i < keys.len()
            invariant
                0 <= i <= keys@.len(),
                self.wf(),
                keys@.no_duplicates(),
                forall|key: u64| keys@.contains(key) <==> old(self)@.contains_key(key),
                forall|key: u64| #[trigger]
                    self@.contains_key(key) <==> old(self)@.contains_key(key) && !keys@.take(
                        i as int,
                    ).contains(key),
                forall|key: u64| #[trigger]
                    self@.contains_key(key) ==> self@[key] == old(self)@[key],
                generations_left(old(self)@.dom()) ==> forall|key: u64| #[trigger]
                    self.retired().contains(key) <==> old(self).retired().contains(key)
                        || keys@.take(i as int).contains(key),
                drained@.len() == i,
                forall|j: int|
                    0 <= j < i ==> (#[trigger] drained@[j]).0 == keys@[j] && drained@[j].1 == old(
                        self,
                    )@[keys@[j]],
            decreases keys@.len() - i,
        {
            let key = keys[i];
            let ghost part = keys@.take(i as int);
            let ghost before = drained@;
            proof {
                assert(keys@.contains(key));
                if generations_left(old(self)@.dom()) {
                    assert(old(self)@.dom().contains(key));
                }
                assert(!part.contains(key)) by {
                    if part.contains(key) {
                        let at = choose|at: int| 0 <= at < part.len() && part[at] == key;
                        assert(keys@[at] == key);
                    }
                }
                let grown = keys@.take(i as int + 1);
                assert(grown =~= part.push(key));
                assert forall|k: u64| grown.contains(k) <==> part.contains(k) || k == key by {
                    if grown.contains(k) {
                        let at = choose|at: int| 0 <= at < grown.len() && grown[at] == k;
                        if at < part.len() {
                            assert(part[at] == k);
                        }
                    }
                    if part.contains(k) {
                        let at = choose|at: int| 0 <= at < part.len() && part[at] == k;
                        assert(grown[at] == k);
                    }
                    assert(grown[part.len() as int] == key);
                }
            }
            match self.remove(key) {
                Some(value) => {
                    drained.push((key, value));
                    proof {
                        assert forall|j: int| 0 <= j < i + 1 implies (#[trigger] drained@[j]).0
                            == keys@[j] && drained@[j].1 == old(self)@[keys@[j]] by {
                            if j < i {
                                assert(drained@[j] == before[j]);
                            }
                        }
                    }
                },
                None => {
                    assert(false);
                },
            }
            i += 1;
        }
        proof {
            assert(keys@.take(i as int) =~= keys@);
            assert(self@ =~= Map::<u64, V>::empty());
            assert forall|key: u64| old(self)@.contains_key(key) <==> exists|j: int|
                0 <= j < drained@.len() && (#[trigger] drained@[j]).0 == key by {
                if old(self)@.contains_key(key) {
                    assert(keys@.contains(key));
                    let at = choose|at: int| 0 <= at < keys@.len() && keys@[at] == key;
                    assert(drained@[at].0 == key);
                }
                if exists|j: int| 0 <= j < drained@.len() && (#[trigger] drained@[j]).0 == key {
                    let j = choose|j: int| 0 <= j < drained@.len() && (#[trigger] drained@[j]).0 == key;
                    assert(keys@[j] == key);
                    assert(keys@.contains(key));
                }
            }
        }
        drained
    }
}

} // verus!
