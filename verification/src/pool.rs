//! Pools: storage for a fixed number of resources, each under the index of
//! its identifier.
//!
//! A pool is made with all the room it will ever have. Where no slot is free,
//! adding a resource fails and the pool stays as it is.

use crate::error::LimitReachedError;
use vstd::prelude::*;

verus! {

/// An occupied slot: a resource and the index of its identifier.
struct Slot<T> {
    id: u64,
    value: T,
}

/// Whether slot `i` holds the resource `id`.
spec fn holds<T>(slots: Seq<Option<Slot<T>>>, i: int, id: u64) -> bool {
    0 <= i < slots.len() && slots[i] is Some && slots[i].unwrap().id == id
}

/// No two slots hold the same identifier.
spec fn unique<T>(slots: Seq<Option<Slot<T>>>) -> bool {
    forall|i: int, j: int, id: u64| holds(slots, i, id) && holds(slots, j, id) ==> i == j
}

/// The resources in the slots, each under its identifier.
spec fn slot_map<T>(slots: Seq<Option<Slot<T>>>) -> Map<u64, T> {
    Map::new(
        |id: u64| exists|i: int| holds(slots, i, id),
        |id: u64| slots[choose|i: int| holds(slots, i, id)].unwrap().value,
    )
}

/// The number of occupied slots.
spec fn occupied<T>(slots: Seq<Option<Slot<T>>>) -> nat
    decreases slots.len(),
{
    if slots.len() == 0 {
        0
    } else {
        occupied(slots.drop_last()) + if slots.last() is Some {
            1nat
        } else {
            0nat
        }
    }
}

proof fn lemma_value_in_slot<T>(slots: Seq<Option<Slot<T>>>, i: int, id: u64)
    requires
        unique(slots),
        holds(slots, i, id),
    ensures
        slot_map(slots).contains_key(id),
        slot_map(slots)[id] == slots[i].unwrap().value,
{
    let chosen = choose|k: int| holds(slots, k, id);
    assert(holds(slots, chosen, id));
}

proof fn lemma_occupied<T>(slots: Seq<Option<Slot<T>>>)
    requires
        unique(slots),
    ensures
        slot_map(slots).dom().finite(),
        slot_map(slots).dom().len() == occupied(slots),
        occupied(slots) <= slots.len(),
        occupied(slots) == slots.len() <==> forall|i: int| 0 <= i < slots.len() ==> slots[i] is Some,
    decreases slots.len(),
{
    if slots.len() == 0 {
        assert(slot_map(slots).dom() =~= Set::<u64>::empty());
    } else {
        let front = slots.drop_last();
        let last = slots.len() - 1;
        assert forall|i: int, id: u64| holds(front, i, id) implies holds(slots, i, id) by {}
        assert(unique(front)) by {
            assert forall|i: int, j: int, id: u64| holds(front, i, id) && holds(front, j, id)
                implies i == j by {
                assert(holds(slots, i, id) && holds(slots, j, id));
            }
        }
        lemma_occupied(front);
        match slots.last() {
            None => {
                assert forall|id: u64| slot_map(slots).dom().contains(id) implies slot_map(
                    front,
                ).dom().contains(id) by {
                    let i = choose|i: int| holds(slots, i, id);
                    assert(holds(front, i, id));
                }
                assert forall|id: u64| slot_map(front).dom().contains(id) implies slot_map(
                    slots,
                ).dom().contains(id) by {
                    let i = choose|i: int| holds(front, i, id);
                    assert(holds(slots, i, id));
                }
                assert(slot_map(slots).dom() =~= slot_map(front).dom());
                assert(!(slots[last] is Some));
            },
            Some(slot) => {
                assert(holds(slots, last, slot.id));
                assert(!slot_map(front).dom().contains(slot.id)) by {
                    if slot_map(front).dom().contains(slot.id) {
                        let i = choose|i: int| holds(front, i, slot.id);
                        assert(holds(slots, i, slot.id));
                    }
                }
                assert forall|id: u64| slot_map(slots).dom().contains(id) implies slot_map(
                    front,
                ).dom().insert(slot.id).contains(id) by {
                    let i = choose|i: int| holds(slots, i, id);
                    if i != last {
                        assert(holds(front, i, id));
                    }
                }
                assert forall|id: u64| slot_map(front).dom().insert(slot.id).contains(
                    id,
                ) implies slot_map(slots).dom().contains(id) by {
                    if id != slot.id {
                        let i = choose|i: int| holds(front, i, id);
                        assert(holds(slots, i, id));
                    }
                }
                assert(slot_map(slots).dom() =~= slot_map(front).dom().insert(slot.id));
                if forall|i: int| 0 <= i < front.len() ==> front[i] is Some {
                    assert forall|i: int| 0 <= i < slots.len() implies slots[i] is Some by {
                        if i < last {
                            assert(front[i] is Some);
                        }
                    }
                }
                if forall|i: int| 0 <= i < slots.len() ==> slots[i] is Some {
                    assert forall|i: int| 0 <= i < front.len() implies front[i] is Some by {
                        assert(slots[i] is Some);
                    }
                }
            },
        }
    }
}

/// Filling a slot that is free, or that holds `id` already, puts the value
/// under `id` and leaves the others alone.
proof fn lemma_fill_slot<T>(slots: Seq<Option<Slot<T>>>, i: int, id: u64, value: T)
    requires
        unique(slots),
        0 <= i < slots.len(),
        holds(slots, i, id) || (slots[i] is None && !slot_map(slots).contains_key(id)),
    ensures
        unique(slots.update(i, Some(Slot { id, value }))),
        slot_map(slots.update(i, Some(Slot { id, value }))) == slot_map(slots).insert(id, value),
{
    let after = slots.update(i, Some(Slot { id, value }));
    assert(holds(after, i, id));
    assert forall|a: int, b: int, k: u64| holds(after, a, k) && holds(after, b, k) implies a
        == b by {
        if a != i && b != i {
            assert(holds(slots, a, k) && holds(slots, b, k));
        } else if a == i && b != i {
            assert(holds(slots, b, id));
        } else if b == i && a != i {
            assert(holds(slots, a, id));
        }
    }
    assert forall|k: u64| slot_map(after).dom().contains(k) implies slot_map(slots).insert(
        id,
        value,
    ).dom().contains(k) by {
        let a = choose|a: int| holds(after, a, k);
        if a != i {
            assert(holds(slots, a, k));
        }
    }
    assert forall|k: u64| slot_map(slots).insert(id, value).dom().contains(k) implies slot_map(
        after,
    ).dom().contains(k) by {
        if k != id {
            let a = choose|a: int| holds(slots, a, k);
            assert(holds(after, a, k));
        }
    }
    assert forall|k: u64| slot_map(after).dom().contains(k) implies #[trigger] slot_map(after)[k]
        == slot_map(slots).insert(id, value)[k] by {
        let a = choose|a: int| holds(after, a, k);
        lemma_value_in_slot(after, a, k);
        if a != i {
            assert(holds(slots, a, k));
            lemma_value_in_slot(slots, a, k);
        }
    }
    assert(slot_map(after) =~= slot_map(slots).insert(id, value));
}

/// Emptying the slot that holds `id` takes `id` out and leaves the others
/// alone.
proof fn lemma_clear_slot<T>(slots: Seq<Option<Slot<T>>>, i: int, id: u64)
    requires
        unique(slots),
        holds(slots, i, id),
    ensures
        unique(slots.update(i, None)),
        slot_map(slots.update(i, None)) == slot_map(slots).remove(id),
{
    let after = slots.update(i, None);
    assert forall|a: int, k: u64| holds(after, a, k) implies holds(slots, a, k) && a != i by {}
    assert forall|a: int, b: int, k: u64| holds(after, a, k) && holds(after, b, k) implies a
        == b by {
        assert(holds(slots, a, k) && holds(slots, b, k));
    }
    assert forall|k: u64| slot_map(after).dom().contains(k) implies slot_map(slots).remove(
        id,
    ).dom().contains(k) by {
        let a = choose|a: int| holds(after, a, k);
        assert(holds(slots, a, k));
    }
    assert forall|k: u64| slot_map(slots).remove(id).dom().contains(k) implies slot_map(
        after,
    ).dom().contains(k) by {
        let a = choose|a: int| holds(slots, a, k);
        assert(holds(after, a, k));
    }
    assert forall|k: u64| slot_map(after).dom().contains(k) implies #[trigger] slot_map(after)[k]
        == slot_map(slots).remove(id)[k] by {
        let a = choose|a: int| holds(after, a, k);
        lemma_value_in_slot(after, a, k);
        assert(holds(slots, a, k));
        lemma_value_in_slot(slots, a, k);
    }
    assert(slot_map(after) =~= slot_map(slots).remove(id));
}

/// Whether a pool with these contents and this much room takes one more
/// resource: it does while a slot is free.
pub open spec fn accepts<T>(contents: Map<u64, T>, room: nat) -> bool {
    contents.len() < room
}

/// The contents of a pool after a resource was offered to it under `id`. A
/// pool that takes the resource holds it under `id`, in place of the one that
/// it held under `id` before, if there was one.
pub open spec fn after_insert<T>(contents: Map<u64, T>, room: nat, id: u64, value: T) -> Map<
    u64,
    T,
> {
    if accepts(contents, room) {
        contents.insert(id, value)
    } else {
        contents
    }
}

/// The contents of a pool after a run of resources was offered to it, the
/// first one first.
pub open spec fn after_inserts<T>(contents: Map<u64, T>, room: nat, offers: Seq<(u64, T)>) -> Map<
    u64,
    T,
>
    decreases offers.len(),
{
    if offers.len() == 0 {
        contents
    } else {
        after_insert(
            after_inserts(contents, room, offers.drop_last()),
            room,
            offers.last().0,
            offers.last().1,
        )
    }
}

/// An empty pool takes every one of a run of resources with distinct
/// identifiers that is no longer than the pool has room.
pub proof fn lemma_room_is_used<T>(room: nat, offers: Seq<(u64, T)>)
    requires
        offers.len() <= room,
        forall|i: int, j: int| 0 <= i < j < offers.len() ==> offers[i].0 != offers[j].0,
    ensures
        after_inserts(Map::<u64, T>::empty(), room, offers).dom().finite(),
        after_inserts(Map::<u64, T>::empty(), room, offers).len() == offers.len(),
        forall|id: u64|
            after_inserts(Map::<u64, T>::empty(), room, offers).contains_key(id) ==> exists|i: int|
                0 <= i < offers.len() && (#[trigger] offers[i]).0 == id,
        forall|i: int|
            0 <= i < offers.len() ==> after_inserts(
                Map::<u64, T>::empty(),
                room,
                offers,
            ).contains_key((#[trigger] offers[i]).0) && after_inserts(
                Map::<u64, T>::empty(),
                room,
                offers,
            )[offers[i].0] == offers[i].1,
    decreases offers.len(),
{
    if offers.len() > 0 {
        let front = offers.drop_last();
        let last = offers.last();
        let before = after_inserts(Map::<u64, T>::empty(), room, front);
        lemma_room_is_used(room, front);
        if before.contains_key(last.0) {
            let i = choose|i: int| 0 <= i < front.len() && (#[trigger] front[i]).0 == last.0;
            assert(offers[i].0 == offers[offers.len() - 1].0);
        }
        let now = after_inserts(Map::<u64, T>::empty(), room, offers);
        assert(now == before.insert(last.0, last.1));
        assert forall|id: u64| now.contains_key(id) implies exists|i: int|
            0 <= i < offers.len() && (#[trigger] offers[i]).0 == id by {
            if id == last.0 {
                assert(offers[offers.len() - 1].0 == id);
            } else {
                let i = choose|i: int| 0 <= i < front.len() && (#[trigger] front[i]).0 == id;
                assert(offers[i].0 == id);
            }
        }
        assert forall|i: int| 0 <= i < offers.len() implies now.contains_key(
            (#[trigger] offers[i]).0,
        ) && now[offers[i].0] == offers[i].1 by {
            if i < offers.len() - 1 {
                assert(front[i] == offers[i]);
            }
        }
    }
}

/// A pool that was filled to its capacity refuses the next resource, and
/// keeps the ones it holds: after as many resources with distinct identifiers
/// as an empty pool has room, it holds every one of them, it does not accept
/// one more, and offering one more changes nothing.
pub proof fn lemma_full_pool_refuses<T>(room: nat, offers: Seq<(u64, T)>, id: u64, value: T)
    requires
        offers.len() == room,
        forall|i: int, j: int| 0 <= i < j < offers.len() ==> offers[i].0 != offers[j].0,
    ensures
        forall|i: int|
            0 <= i < offers.len() ==> after_inserts(
                Map::<u64, T>::empty(),
                room,
                offers,
            ).contains_key((#[trigger] offers[i]).0) && after_inserts(
                Map::<u64, T>::empty(),
                room,
                offers,
            )[offers[i].0] == offers[i].1,
        !accepts(after_inserts(Map::<u64, T>::empty(), room, offers), room),
        after_insert(after_inserts(Map::<u64, T>::empty(), room, offers), room, id, value)
            == after_inserts(Map::<u64, T>::empty(), room, offers),
{
    lemma_room_is_used(room, offers);
}

/// A resource that changes as time passes, in a way that may depend on
/// something beside it.
pub trait Advance<C>: Sized {
    /// What has to hold of the context for the resource to be advanced.
    spec fn usable(context: &C) -> bool;

    /// The resource after `dt` more microseconds.
    spec fn advanced(self, dt: u64, context: &C) -> Self;

    /// Lets `dt` microseconds pass.
    fn advance(&mut self, dt: u64, context: &C)
        requires
            Self::usable(context),
        ensures
            *final(self) == old(self).advanced(dt, context),
    ;
}

/// A slot after its resource was advanced.
spec fn advanced_slot<C, T: Advance<C>>(slot: Option<Slot<T>>, dt: u64, context: &C) -> Option<
    Slot<T>,
> {
    match slot {
        Some(slot) => Some(Slot { id: slot.id, value: slot.value.advanced(dt, context) }),
        None => None,
    }
}

/// Advancing the resource in every slot advances every resource of the pool.
proof fn lemma_advanced_slots<C, T: Advance<C>>(
    before: Seq<Option<Slot<T>>>,
    after: Seq<Option<Slot<T>>>,
    dt: u64,
    context: &C,
)
    requires
        unique(before),
        after.len() == before.len(),
        forall|i: int| 0 <= i < before.len() ==> after[i] == advanced_slot(before[i], dt, context),
    ensures
        unique(after),
        slot_map(after) == slot_map(before).map_values(|value: T| value.advanced(dt, context)),
{
    assert forall|i: int, id: u64| holds(after, i, id) <==> holds(before, i, id) by {}
    assert forall|a: int, b: int, id: u64| holds(after, a, id) && holds(after, b, id) implies a
        == b by {
        assert(holds(before, a, id) && holds(before, b, id));
    }
    let mapped = slot_map(before).map_values(|value: T| value.advanced(dt, context));
    assert forall|id: u64| slot_map(after).dom().contains(id) implies mapped.dom().contains(
        id,
    ) by {
        let i = choose|i: int| holds(after, i, id);
        assert(holds(before, i, id));
    }
    assert forall|id: u64| mapped.dom().contains(id) implies slot_map(after).dom().contains(
        id,
    ) by {
        let i = choose|i: int| holds(before, i, id);
        assert(holds(after, i, id));
    }
    assert forall|id: u64| slot_map(after).dom().contains(id) implies #[trigger] slot_map(
        after,
    )[id] == mapped[id] by {
        let i = choose|i: int| holds(after, i, id);
        assert(holds(before, i, id));
        lemma_value_in_slot(after, i, id);
        lemma_value_in_slot(before, i, id);
    }
    assert(slot_map(after) =~= mapped);
}

/// Storage for up to a fixed number of resources, found by the index of
/// their identifier.
pub struct Pool<T> {
    slots: Vec<Option<Slot<T>>>,
}

impl<T> View for Pool<T> {
    type V = Map<u64, T>;

    /// The resources in the pool, each under the index of its identifier.
    closed spec fn view(&self) -> Map<u64, T> {
        slot_map(self.slots@)
    }
}

impl<T> Pool<T> {
    /// What holds of every pool that [`Pool::new`] made, whatever was done
    /// with it since: no identifier is held twice.
    pub closed spec fn wf(self) -> bool {
        unique(self.slots@)
    }

    /// The number of resources that the pool has room for.
    pub closed spec fn room(self) -> nat {
        self.slots@.len()
    }

    /// A pool never holds more than it has room for, and only finitely many.
    pub proof fn lemma_bounded(self)
        requires
            self.wf(),
        ensures
            self@.dom().finite(),
            self@.len() <= self.room(),
    {
        lemma_occupied(self.slots@);
    }

    /// An empty pool with room for `capacity` resources.
    pub fn new(capacity: usize) -> (pool: Self)
        ensures
            pool.wf(),
            pool@ == Map::<u64, T>::empty(),
            pool.room() == capacity,
    {
        let mut slots: Vec<Option<Slot<T>>> = Vec::new();
        let mut i: usize = 0;
        while i < capacity
            invariant
                i <= capacity,
                slots@.len() == i,
                forall|k: int| 0 <= k < slots@.len() ==> slots@[k] is None,
            decreases capacity - i,
        {
            slots.push(None);
            i = i + 1;
        }
        assert(slot_map(slots@) =~= Map::<u64, T>::empty());
        Pool { slots }
    }

    /// The number of resources that the pool has room for.
    pub fn capacity(&self) -> (capacity: usize)
        ensures
            capacity == self.room(),
    {
        self.slots.len()
    }

    /// The slot that holds `id`, if there is one.
    fn position(&self, id: u64) -> (found: Option<usize>)
        ensures
            match found {
                Some(i) => holds(self.slots@, i as int, id),
                None => forall|i: int| !holds(self.slots@, i, id),
            },
    {
        let mut i: usize = 0;
        while i < self.slots.len()
            invariant
                i <= self.slots@.len(),
                forall|k: int| 0 <= k < i ==> !holds(self.slots@, k, id),
            decreases self.slots@.len() - i,
        {
            match &self.slots[i] {
                Some(slot) => {
                    if slot.id == id {
                        return Some(i);
                    }
                },
                None => {},
            }
            i = i + 1;
        }
        None
    }

    /// The first free slot, if there is one.
    fn free_slot(&self) -> (found: Option<usize>)
        ensures
            match found {
                Some(i) => i < self.slots@.len() && self.slots@[i as int] is None,
                None => forall|i: int| 0 <= i < self.slots@.len() ==> self.slots@[i] is Some,
            },
    {
        let mut i: usize = 0;
        while i < self.slots.len()
            invariant
                i <= self.slots@.len(),
                forall|k: int| 0 <= k < i ==> self.slots@[k] is Some,
            decreases self.slots@.len() - i,
        {
            if self.slots[i].is_none() {
                return Some(i);
            }
            i = i + 1;
        }
        None
    }

    /// The number of resources in the pool.
    pub fn len(&self) -> (len: usize)
        requires
            self.wf(),
        ensures
            len == self@.len(),
            len <= self.room(),
    {
        proof {
            lemma_occupied(self.slots@);
        }
        let mut count: usize = 0;
        let mut i: usize = 0;
        while i < self.slots.len()
            invariant
                i <= self.slots@.len(),
                count == occupied(self.slots@.take(i as int)),
                count <= i,
            decreases self.slots@.len() - i,
        {
            proof {
                assert(self.slots@.take(i + 1).drop_last() =~= self.slots@.take(i as int));
            }
            if self.slots[i].is_some() {
                count = count + 1;
            }
            i = i + 1;
        }
        proof {
            assert(self.slots@.take(i as int) =~= self.slots@);
        }
        count
    }

    /// Whether the pool holds a resource under `id`.
    pub fn contains(&self, id: u64) -> (found: bool)
        requires
            self.wf(),
        ensures
            found == self@.contains_key(id),
    {
        self.position(id).is_some()
    }

    /// Puts a resource into the pool under `id`.
    ///
    /// Where no slot is free, the call fails and the pool stays as it is.
    /// Else the resource takes the place of the one that the pool holds
    /// under `id`, if there is one, and a free slot if there is none.
    pub fn insert(&mut self, id: u64, value: T) -> (result: Result<(), LimitReachedError>)
        requires
            old(self).wf(),
        ensures
            final(self).wf(),
            final(self).room() == old(self).room(),
            result is Ok <==> accepts(old(self)@, old(self).room()),
            result is Err ==> result == Err::<(), LimitReachedError>(LimitReachedError),
            final(self)@ == after_insert(old(self)@, old(self).room(), id, value),
    {
        proof {
            lemma_occupied(self.slots@);
        }
        match self.free_slot() {
            None => Err(LimitReachedError),
            Some(free) => {
                let slot = match self.position(id) {
                    Some(held) => held,
                    None => free,
                };
                proof {
                    lemma_fill_slot(self.slots@, slot as int, id, value);
                }
                self.slots[slot] = Some(Slot { id, value });
                Ok(())
            },
        }
    }

    /// Takes the resource under `id` out of the pool and returns it. From
    /// then on the pool holds nothing under `id`.
    pub fn remove(&mut self, id: u64) -> (removed: Option<T>)
        requires
            old(self).wf(),
        ensures
            final(self).wf(),
            final(self).room() == old(self).room(),
            final(self)@ == old(self)@.remove(id),
            !final(self)@.contains_key(id),
            removed == if old(self)@.contains_key(id) {
                Some(old(self)@[id])
            } else {
                None
            },
    {
        match self.position(id) {
            Some(i) => {
                proof {
                    lemma_value_in_slot(self.slots@, i as int, id);
                    lemma_clear_slot(self.slots@, i as int, id);
                }
                let mut taken: Option<Slot<T>> = None;
                std::mem::swap(&mut self.slots[i], &mut taken);
                match taken {
                    Some(slot) => Some(slot.value),
                    None => None,
                }
            },
            None => {
                assert(self@.remove(id) =~= self@);
                None
            },
        }
    }

    /// The resource under `id`, if the pool holds one.
    pub fn get(&self, id: u64) -> (found: Option<&T>)
        requires
            self.wf(),
        ensures
            match found {
                Some(value) => self@.contains_key(id) && *value == self@[id],
                None => !self@.contains_key(id),
            },
    {
        match self.position(id) {
            Some(i) => {
                proof {
                    lemma_value_in_slot(self.slots@, i as int, id);
                }
                match &self.slots[i] {
                    Some(slot) => Some(&slot.value),
                    None => None,
                }
            },
            None => None,
        }
    }

    /// The resource under `id`, to be changed in place, if the pool holds one.
    pub fn get_mut(&mut self, id: u64) -> (found: Option<&mut T>)
        requires
            old(self).wf(),
        ensures
            final(self).wf(),
            final(self).room() == old(self).room(),
            match found {
                Some(value) => {
                    &&& old(self)@.contains_key(id)
                    &&& *value == old(self)@[id]
                    &&& final(self)@ == old(self)@.insert(id, *final(value))
                },
                None => !old(self)@.contains_key(id) && final(self)@ == old(self)@,
            },
    {
        match self.position(id) {
            Some(i) => {
                proof {
                    lemma_value_in_slot(self.slots@, i as int, id);
                    assert forall|value: T|
                        unique(#[trigger] self.slots@.update(i as int, Some(Slot { id, value })))
                            && slot_map(self.slots@.update(i as int, Some(Slot { id, value })))
                            == slot_map(self.slots@).insert(id, value) by {
                        lemma_fill_slot(self.slots@, i as int, id, value);
                    }
                }
                match &mut self.slots[i] {
                    Some(slot) => Some(&mut slot.value),
                    None => None,
                }
            },
            None => None,
        }
    }

    /// The identifier of the resource in slot `i`, if that slot is occupied.
    /// The slots are numbered from zero up to the pool's capacity.
    pub closed spec fn id_at(self, i: int) -> Option<u64> {
        if 0 <= i < self.slots@.len() {
            match self.slots@[i] {
                Some(slot) => Some(slot.id),
                None => None,
            }
        } else {
            None
        }
    }

    /// How the slots and the contents go together: every occupied slot holds
    /// a resource of the pool, every resource of the pool sits in a slot, and
    /// no two slots hold the same identifier.
    pub proof fn lemma_slots(self)
        requires
            self.wf(),
        ensures
            forall|i: int|
                (#[trigger] self.id_at(i)) is Some ==> 0 <= i < self.room() && self@.contains_key(
                    self.id_at(i).unwrap(),
                ),
            forall|id: u64|
                self@.contains_key(id) ==> exists|i: int|
                    0 <= i < self.room() && #[trigger] self.id_at(i) == Some(id),
            forall|i: int, j: int|
                (#[trigger] self.id_at(i)) is Some && self.id_at(i) == #[trigger] self.id_at(j)
                    ==> i == j,
    {
        assert forall|i: int| (#[trigger] self.id_at(i)) is Some implies 0 <= i < self.room()
            && self@.contains_key(self.id_at(i).unwrap()) by {
            assert(holds(self.slots@, i, self.id_at(i).unwrap()));
        }
        assert forall|id: u64| self@.contains_key(id) implies exists|i: int|
            0 <= i < self.room() && #[trigger] self.id_at(i) == Some(id) by {
            let i = choose|i: int| holds(self.slots@, i, id);
            assert(self.id_at(i) == Some(id));
        }
        assert forall|i: int, j: int|
            (#[trigger] self.id_at(i)) is Some && self.id_at(i) == #[trigger] self.id_at(
                j,
            ) implies i == j by {
            let id = self.id_at(i).unwrap();
            assert(holds(self.slots@, i, id) && holds(self.slots@, j, id));
        }
    }

    /// The identifier of the resource in slot `i`, if that slot is occupied.
    pub fn key_at(&self, i: usize) -> (id: Option<u64>)
        ensures
            id == self.id_at(i as int),
    {
        if i < self.slots.len() {
            match &self.slots[i] {
                Some(slot) => Some(slot.id),
                None => None,
            }
        } else {
            None
        }
    }

    /// The resource in slot `i`, if that slot is occupied.
    pub fn value_at(&self, i: usize) -> (found: Option<&T>)
        requires
            self.wf(),
        ensures
            match found {
                Some(value) => self.id_at(i as int) is Some && *value == self@[self.id_at(
                    i as int,
                ).unwrap()],
                None => self.id_at(i as int) is None,
            },
    {
        if i < self.slots.len() {
            match &self.slots[i] {
                Some(slot) => {
                    proof {
                        lemma_value_in_slot(self.slots@, i as int, slot.id);
                    }
                    Some(&slot.value)
                },
                None => None,
            }
        } else {
            None
        }
    }

    /// The resource in slot `i`, to be changed in place, if that slot is
    /// occupied. No slot comes to hold another identifier by this.
    pub fn value_at_mut(&mut self, i: usize) -> (found: Option<&mut T>)
        requires
            old(self).wf(),
        ensures
            final(self).wf(),
            final(self).room() == old(self).room(),
            forall|j: int| final(self).id_at(j) == old(self).id_at(j),
            match found {
                Some(value) => {
                    &&& old(self).id_at(i as int) is Some
                    &&& *value == old(self)@[old(self).id_at(i as int).unwrap()]
                    &&& final(self)@ == old(self)@.insert(
                        old(self).id_at(i as int).unwrap(),
                        *final(value),
                    )
                },
                None => old(self).id_at(i as int) is None && final(self)@ == old(self)@,
            },
    {
        match self.key_at(i) {
            Some(id) => {
                proof {
                    assert(holds(self.slots@, i as int, id));
                    lemma_value_in_slot(self.slots@, i as int, id);
                    assert forall|value: T|
                        unique(#[trigger] self.slots@.update(i as int, Some(Slot { id, value })))
                            && slot_map(self.slots@.update(i as int, Some(Slot { id, value })))
                            == slot_map(self.slots@).insert(id, value) by {
                        lemma_fill_slot(self.slots@, i as int, id, value);
                    }
                }
                match &mut self.slots[i] {
                    Some(slot) => Some(&mut slot.value),
                    None => None,
                }
            },
            None => None,
        }
    }

    /// Lets `dt` microseconds pass for every resource of the pool.
    pub fn advance_all<C>(&mut self, dt: u64, context: &C) where T: Advance<C>
        requires
            old(self).wf(),
            T::usable(context),
        ensures
            final(self).wf(),
            final(self).room() == old(self).room(),
            forall|j: int| final(self).id_at(j) == old(self).id_at(j),
            final(self)@ == old(self)@.map_values(|value: T| value.advanced(dt, context)),
    {
        let ghost before = self.slots@;
        let mut i: usize = 0;
        while i < self.slots.len()
            invariant
                T::usable(context),
                i <= self.slots@.len(),
                self.slots@.len() == before.len(),
                forall|j: int|
                    0 <= j < i ==> self.slots@[j] == advanced_slot(before[j], dt, context),
                forall|j: int| i <= j < before.len() ==> self.slots@[j] == before[j],
            decreases self.slots@.len() - i,
        {
            if self.slots[i].is_some() {
                match &mut self.slots[i] {
                    Some(slot) => {
                        slot.value.advance(dt, context);
                    },
                    None => {},
                }
            }
            i = i + 1;
        }
        proof {
            lemma_advanced_slots(before, self.slots@, dt, context);
        }
    }

    /// Takes the resource in slot `i` out of the pool and returns it with its
    /// identifier, if that slot is occupied.
    pub fn remove_at(&mut self, i: usize) -> (removed: Option<(u64, T)>)
        requires
            old(self).wf(),
        ensures
            final(self).wf(),
            final(self).room() == old(self).room(),
            final(self).id_at(i as int) is None,
            forall|j: int| j != i ==> final(self).id_at(j) == old(self).id_at(j),
            match old(self).id_at(i as int) {
                Some(id) => final(self)@ == old(self)@.remove(id) && removed == Some(
                    (id, old(self)@[id]),
                ),
                None => final(self)@ == old(self)@ && removed is None,
            },
    {
        if i < self.slots.len() {
            proof {
                if self.slots@[i as int] is Some {
                    let id = self.slots@[i as int].unwrap().id;
                    lemma_value_in_slot(self.slots@, i as int, id);
                    lemma_clear_slot(self.slots@, i as int, id);
                } else {
                    assert(self.slots@.update(i as int, None) =~= self.slots@);
                }
            }
            let mut taken: Option<Slot<T>> = None;
            std::mem::swap(&mut self.slots[i], &mut taken);
            match taken {
                Some(slot) => Some((slot.id, slot.value)),
                None => None,
            }
        } else {
            None
        }
    }
}

} // verus!
