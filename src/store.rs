use std::collections::hash_map::RandomState;
use std::hash::BuildHasher;
use std::marker::PhantomData;
use vstd::prelude::*;

use crate::error::StoreError;

verus! {

/// One unit of the instance tag: the tag is the most significant byte of a
/// 64-bit stamp, so a store with tag `t` starts counting at `t * TAG_UNIT`.
pub const TAG_UNIT: u64 = 0x0100_0000_0000_0000;

/// The instance tag carried by a stamp: its most significant byte.
pub open spec fn tag_of(stamp: int) -> int {
    stamp / (TAG_UNIT as int)
}

/// The outcome of checking a handle's stamp against the stamp recorded where
/// the handle points.
pub open spec fn validate(stamp: int, recorded: int) -> Result<(), StoreError> {
    if recorded == stamp {
        Ok(())
    } else if tag_of(recorded) != tag_of(stamp) {
        Err(StoreError::WrongStore)
    } else {
        Err(StoreError::StoreMutated)
    }
}

/// A typed capability naming one slot of a [`Store`]: the slot's position and
/// the stamp it was issued with.
#[derive(Debug)]
pub struct Handle<T> {
    index: usize,
    alloc_idx: u64,
    _marker: PhantomData<T>,
}

impl<T> Handle<T> {
    /// The position of the slot this handle names.
    pub closed spec fn slot(self) -> int {
        self.index as int
    }

    /// The allocation stamp this handle was issued with.
    pub closed spec fn stamp(self) -> u64 {
        self.alloc_idx
    }

    fn new(index: usize, alloc_idx: u64) -> (r: Self)
        ensures
            r.slot() == index,
            r.stamp() == alloc_idx,
    {
        Handle { index, alloc_idx, _marker: PhantomData }
    }
}

impl<T> Clone for Handle<T> {
    fn clone(&self) -> (r: Self)
        ensures
            r == *self,
    {
        Handle { index: self.index, alloc_idx: self.alloc_idx, _marker: PhantomData }
    }
}

impl<T> Copy for Handle<T> {
}

impl<T> PartialEq for Handle<T> {
    fn eq(&self, other: &Self) -> (r: bool) {
        self.index == other.index && self.alloc_idx == other.alloc_idx
    }
}

impl<T> Eq for Handle<T> {
}

impl<T> vstd::std_specs::cmp::PartialEqSpecImpl for Handle<T> {
    open spec fn obeys_eq_spec() -> bool {
        true
    }

    open spec fn eq_spec(&self, other: &Self) -> bool {
        self.slot() == other.slot() && self.stamp() == other.stamp()
    }
}

/// One slot of a store: an optional payload and the stamp the slot was
/// created under.
#[derive(Debug, Clone, Copy, Hash, PartialEq, PartialOrd)]
pub struct Slot<T> {
    value: Option<T>,
    alloc_idx: u64,
}

impl<T> Slot<T> {
    /// What the slot holds.
    pub closed spec fn payload(self) -> Option<T> {
        self.value
    }

    /// The stamp the slot was created under; it never changes.
    pub closed spec fn stamp(self) -> u64 {
        self.alloc_idx
    }

    fn new_empty(alloc_idx: u64) -> (r: Self)
        ensures
            r.payload() is None,
            r.stamp() == alloc_idx,
    {
        Slot { value: None, alloc_idx }
    }

    fn new_occupied(val: T, alloc_idx: u64) -> (r: Self)
        ensures
            r.payload() == Some(val),
            r.stamp() == alloc_idx,
    {
        Slot { value: Some(val), alloc_idx }
    }

    /// Removes the payload, leaving the slot empty, and returns it.
    pub fn take(&mut self) -> (r: Option<T>)
        ensures
            r == old(self).payload(),
            final(self).payload() is None,
            final(self).stamp() == old(self).stamp(),
    {
        self.value.take()
    }

    /// Puts `val` in the slot and returns what it held before.
    pub fn swap(&mut self, val: T) -> (r: Option<T>)
        ensures
            r == old(self).payload(),
            final(self).payload() == Some(val),
            final(self).stamp() == old(self).stamp(),
    {
        let mut prev = Some(val);
        std::mem::swap(&mut self.value, &mut prev);
        prev
    }
}

/// A store of values reached through [`Handle`]s.
#[derive(Debug)]
pub struct Store<T> {
    values: Vec<Slot<T>>,
    /// The stamp the next allocation receives; it only grows.
    alloc_idx: u64,
}

impl<T> Store<T> {
    /// The payload of each slot allocated since the last clear, by position.
    pub closed spec fn entries(self) -> Seq<Option<T>> {
        self.values@.map_values(|s: Slot<T>| s.payload())
    }

    /// The stamp that the next allocation receives.
    pub closed spec fn next_stamp(self) -> u64 {
        self.alloc_idx
    }

    /// The stamp of the first slot: the counter's value at the last clear, or
    /// at creation.
    pub open spec fn base(self) -> int {
        self.next_stamp() - self.entries().len()
    }

    /// The store's instance tag.
    pub open spec fn tag(self) -> int {
        tag_of(self.next_stamp() as int)
    }

    /// Another allocation leaves the counter's tag byte unchanged.
    pub open spec fn has_room(self) -> bool {
        (self.next_stamp() as int) % (TAG_UNIT as int) + 1 < TAG_UNIT as int
    }

    /// Slot `i` carries stamp `base() + i`, and every stamp since the last
    /// clear carries the store's tag.
    pub closed spec fn wf(self) -> bool {
        &&& self.values@.len() <= self.alloc_idx
        &&& forall|i: int|
            0 <= i < self.values@.len() ==> #[trigger] self.values@[i].stamp() == self.base() + i
        &&& tag_of(self.base()) == self.tag()
    }

    /// The validation outcome for `h`. Past the end of the slots, the handle
    /// is checked against the next stamp, and is stale even where it matches.
    pub open spec fn status(self, h: Handle<T>) -> Result<(), StoreError> {
        if 0 <= h.slot() < self.entries().len() {
            validate(h.stamp() as int, self.base() + h.slot())
        } else {
            match validate(h.stamp() as int, self.next_stamp() as int) {
                Ok(_) => Err(StoreError::StoreMutated),
                Err(e) => Err(e),
            }
        }
    }

    /// What the slot named by `h` holds, if `h` is valid.
    pub open spec fn payload_at(self, h: Handle<T>) -> Result<Option<T>, StoreError> {
        match self.status(h) {
            Ok(_) => Ok(self.entries()[h.slot()]),
            Err(e) => Err(e),
        }
    }

    /// The value reached through `h`, or why there is none.
    pub open spec fn access(self, h: Handle<T>) -> Result<T, StoreError> {
        match self.payload_at(h) {
            Ok(Some(v)) => Ok(v),
            Ok(None) => Err(StoreError::SlotEmpty),
            Err(e) => Err(e),
        }
    }

    /// `post` is this store with one more slot, holding `payload`, which `h`
    /// names.
    pub open spec fn appended(self, post: Self, payload: Option<T>, h: Handle<T>) -> bool {
        &&& post.entries() == self.entries().push(payload)
        &&& post.next_stamp() == self.next_stamp() + 1
        &&& h.slot() == self.entries().len()
        &&& h.stamp() == self.next_stamp()
    }

    /// `post` is this store with `payload` in the slot `h` names where `h` is
    /// valid, and unchanged where it is not.
    pub open spec fn rewritten(self, post: Self, h: Handle<T>, payload: Option<T>) -> bool {
        &&& post.next_stamp() == self.next_stamp()
        &&& post.entries() == if self.status(h) is Ok {
            self.entries().update(h.slot(), payload)
        } else {
            self.entries()
        }
    }
}


/// Relies on `RandomState::new` from std: it returns hasher keys drawn at
/// random for the process and different from those of the previous call.
/// Nothing is stated of them.
#[verifier::external_body]
fn fresh_random_state() -> (r: RandomState) {
    RandomState::new()
}

/// Relies on `BuildHasher::hash_one` from std, used to draw a byte from keys
/// that were chosen at random. Nothing is stated of the byte.
#[verifier::external_body]
fn hashed_byte(state: &RandomState) -> (r: u8) {
    state.hash_one(0u8) as u8
}

impl<T> Store<T> {
    /// An empty store whose instance tag is drawn at random: the counter
    /// starts with the tag in its top byte and zero below it.
    pub fn new() -> (s: Self)
        ensures
            s.wf(),
            s.entries().len() == 0,
            s.next_stamp() as int % TAG_UNIT as int == 0,
    {
        let state = fresh_random_state();
        Self::with_tag(hashed_byte(&state))
    }

    /// An empty store with instance tag `tag`.
    pub fn with_tag(tag: u8) -> (s: Self)
        ensures
            s.wf(),
            s.entries().len() == 0,
            s.next_stamp() == tag as int * TAG_UNIT as int,
            s.tag() == tag,
    {
        let s = Store { values: Vec::new(), alloc_idx: tag as u64 * TAG_UNIT };
        assert(s.entries().len() == 0);
        s
    }

    /// Discards every slot, which makes every handle issued so far stale. The
    /// counter is kept.
    pub fn clear(&mut self)
        requires
            old(self).wf(),
        ensures
            final(self).wf(),
            final(self).entries().len() == 0,
            final(self).next_stamp() == old(self).next_stamp(),
    {
        self.values.clear();
        assert(self.entries().len() == 0);
    }

    proof fn lemma_step_keeps_tag(n: u64)
        requires
            (n as int) % (TAG_UNIT as int) + 1 < TAG_UNIT as int,
        ensures
            n < u64::MAX,
            tag_of(n + 1) == tag_of(n as int),
    {
        assert(tag_of(n + 1) == tag_of(n as int)) by (nonlinear_arith)
            requires
                (n as int) % (TAG_UNIT as int) + 1 < TAG_UNIT as int,
        ;
    }

    fn push_slot(&mut self, slot: Slot<T>) -> (h: Handle<T>)
        requires
            old(self).wf(),
            old(self).has_room(),
            slot.stamp() == old(self).next_stamp(),
        ensures
            final(self).wf(),
            final(self).tag() == old(self).tag(),
            old(self).appended(*final(self), slot.payload(), h),
    {
        proof { Self::lemma_step_keeps_tag(self.alloc_idx); }
        let handle = Handle::new(self.values.len(), self.alloc_idx);
        self.values.push(slot);
        self.alloc_idx = self.alloc_idx + 1;
        assert(self.entries() =~= old(self).entries().push(slot.payload()));
        handle
    }

    /// Appends a slot holding `value` and returns the handle to it.
    pub fn insert(&mut self, value: T) -> (h: Handle<T>)
        requires
            old(self).wf(),
            old(self).has_room(),
        ensures
            final(self).wf(),
            final(self).tag() == old(self).tag(),
            old(self).appended(*final(self), Some(value), h),
    {
        let slot = Slot::new_occupied(value, self.alloc_idx);
        self.push_slot(slot)
    }

    /// Appends an empty slot and returns the handle to it.
    pub fn allocate(&mut self) -> (h: Handle<T>)
        requires
            old(self).wf(),
            old(self).has_room(),
        ensures
            final(self).wf(),
            final(self).tag() == old(self).tag(),
            old(self).appended(*final(self), None, h),
    {
        let slot = Slot::new_empty(self.alloc_idx);
        self.push_slot(slot)
    }

    proof fn lemma_slot(self, i: int)
        requires
            self.wf(),
            0 <= i < self.values@.len(),
        ensures
            self.entries().len() == self.values@.len(),
            self.entries()[i] == self.values@[i].payload(),
            self.values@[i].stamp() == self.base() + i,
    {
    }

    /// Every stamp recorded since the last clear, and the next one, carry
    /// the store's tag.
    pub proof fn lemma_stamps_share_tag(self)
        requires
            self.wf(),
        ensures
            0 <= self.base() <= self.next_stamp(),
            tag_of(self.base()) == self.tag(),
    {
    }

    fn check_handle(handle: Handle<T>, stored_alloc_idx: u64) -> (r: Result<(), StoreError>)
        ensures
            r == validate(handle.stamp() as int, stored_alloc_idx as int),
    {
        if stored_alloc_idx != handle.alloc_idx {
            if stored_alloc_idx / TAG_UNIT != handle.alloc_idx / TAG_UNIT {
                return Err(StoreError::WrongStore);
            }
            return Err(StoreError::StoreMutated);
        }
        Ok(())
    }

    /// Checks a handle whose slot lies past the end of the store: it is
    /// stale, or from another store.
    fn check_outside(&self, handle: Handle<T>) -> (e: StoreError)
        requires
            self.wf(),
            !(0 <= handle.slot() < self.entries().len()),
        ensures
            self.status(handle) == Err::<(), StoreError>(e),
    {
        match Self::check_handle(handle, self.alloc_idx) {
            Ok(()) => StoreError::StoreMutated,
            Err(e) => e,
        }
    }

    /// The value that `handle` names.
    pub fn get(&self, handle: Handle<T>) -> (r: Result<&T, StoreError>)
        requires
            self.wf(),
        ensures
            match r {
                Ok(v) => self.access(handle) == Ok::<T, StoreError>(*v),
                Err(e) => self.access(handle) == Err::<T, StoreError>(e),
            },
    {
        if handle.index < self.values.len() {
            let slot = &self.values[handle.index];
            proof { self.lemma_slot(handle.slot()); }
            match Self::check_handle(handle, slot.alloc_idx) {
                Err(e) => Err(e),
                Ok(()) => match &slot.value {
                    Some(v) => Ok(v),
                    None => Err(StoreError::SlotEmpty),
                },
            }
        } else {
            Err(self.check_outside(handle))
        }
    }

    /// Puts `value` in the slot that `handle` names and returns what the slot
    /// held before. Where the handle is invalid the store is left unchanged.
    pub fn set(&mut self, handle: Handle<T>, value: T) -> (r: Result<Option<T>, StoreError>)
        requires
            old(self).wf(),
        ensures
            final(self).wf(),
            r == old(self).payload_at(handle),
            old(self).rewritten(*final(self), handle, Some(value)),
    {
        if handle.index < self.values.len() {
            proof { self.lemma_slot(handle.slot()); }
            match Self::check_handle(handle, self.values[handle.index].alloc_idx) {
                Err(e) => Err(e),
                Ok(()) => {
                    let slot = &mut self.values[handle.index];
                    let prev = slot.swap(value);
                    assert(self.entries() =~= old(self).entries().update(handle.slot(), Some(value)));
                    Ok(prev)
                },
            }
        } else {
            Err(self.check_outside(handle))
        }
    }

    /// Removes the value that `handle` names and returns it, leaving the slot
    /// empty. The handle stays valid.
    pub fn take(&mut self, handle: Handle<T>) -> (r: Result<T, StoreError>)
        requires
            old(self).wf(),
        ensures
            final(self).wf(),
            r == old(self).access(handle),
            old(self).rewritten(*final(self), handle, None),
    {
        if handle.index < self.values.len() {
            proof { self.lemma_slot(handle.slot()); }
            match Self::check_handle(handle, self.values[handle.index].alloc_idx) {
                Err(e) => Err(e),
                Ok(()) => {
                    let slot = &mut self.values[handle.index];
                    let prev = slot.take();
                    assert(self.entries() =~= old(self).entries().update(handle.slot(), None));
                    match prev {
                        Some(v) => Ok(v),
                        None => Err(StoreError::SlotEmpty),
                    }
                },
            }
        } else {
            Err(self.check_outside(handle))
        }
    }

    /// A mutable reference to the value that `handle` names. What is written
    /// through it becomes the slot's payload.
    pub fn get_mut(&mut self, handle: Handle<T>) -> (r: Result<&mut T, StoreError>)
        requires
            old(self).wf(),
        ensures
            final(self).wf(),
            final(self).next_stamp() == old(self).next_stamp(),
            match r {
                Ok(v) => {
                    &&& old(self).access(handle) == Ok::<T, StoreError>(*v)
                    &&& final(self).entries() == old(self).entries().update(
                        handle.slot(),
                        Some(*final(v)),
                    )
                },
                Err(e) => {
                    &&& old(self).access(handle) == Err::<T, StoreError>(e)
                    &&& final(self).entries() == old(self).entries()
                },
            },
    {
        if handle.index < self.values.len() {
            proof { self.lemma_slot(handle.slot()); }
            match Self::check_handle(handle, self.values[handle.index].alloc_idx) {
                Err(e) => Err(e),
                Ok(()) => {
                    let slot = &mut self.values[handle.index];
                    match &mut slot.value {
                        Some(v) => Ok(v),
                        None => Err(StoreError::SlotEmpty),
                    }
                },
            }
        } else {
            Err(self.check_outside(handle))
        }
    }

    /// The payload of the slot at `handle`'s position, without checking the
    /// handle's stamp: a stale handle reaches whatever now occupies that
    /// position. The caller guarantees that the position is in range.
    pub fn index(&self, handle: Handle<T>) -> (r: &Option<T>)
        requires
            0 <= handle.slot() < self.entries().len(),
        ensures
            *r == self.entries()[handle.slot()],
    {
        &self.values[handle.index].value
    }

    /// A mutable reference to the payload at `handle`'s position, without
    /// checking the handle's stamp. The caller guarantees that the position
    /// is in range.
    pub fn index_mut(&mut self, handle: Handle<T>) -> (r: &mut Option<T>)
        requires
            old(self).wf(),
            0 <= handle.slot() < old(self).entries().len(),
        ensures
            *r == old(self).entries()[handle.slot()],
            final(self).wf(),
            final(self).next_stamp() == old(self).next_stamp(),
            final(self).entries() == old(self).entries().update(handle.slot(), *final(r)),
    {
        proof { self.lemma_slot(handle.slot()); }
        let slot = &mut self.values[handle.index];
        &mut slot.value
    }

    /// The value at `handle`'s position, without checking the handle's
    /// stamp. The caller guarantees that the position is in range.
    pub fn get_unchecked(&self, handle: Handle<T>) -> (r: Option<&T>)
        requires
            0 <= handle.slot() < self.entries().len(),
        ensures
            match r {
                Some(v) => self.entries()[handle.slot()] == Some(*v),
                None => self.entries()[handle.slot()] is None,
            },
    {
        self.index(handle).as_ref()
    }

    /// A mutable reference to the value at `handle`'s position, without
    /// checking the handle's stamp. The caller guarantees that the position
    /// is in range.
    pub fn get_unchecked_mut(&mut self, handle: Handle<T>) -> (r: Option<&mut T>)
        requires
            old(self).wf(),
            0 <= handle.slot() < old(self).entries().len(),
        ensures
            final(self).wf(),
            final(self).next_stamp() == old(self).next_stamp(),
            match r {
                Some(v) => {
                    &&& old(self).entries()[handle.slot()] == Some(*v)
                    &&& final(self).entries() == old(self).entries().update(
                        handle.slot(),
                        Some(*final(v)),
                    )
                },
                None => {
                    &&& old(self).entries()[handle.slot()] is None
                    &&& final(self).entries() == old(self).entries()
                },
            },
    {
        self.index_mut(handle).as_mut()
    }
}

} // verus!
