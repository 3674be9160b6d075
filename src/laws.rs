use vstd::arithmetic::div_mod::lemma_div_is_ordered;
use vstd::prelude::*;

use crate::error::StoreError;
use crate::store::{tag_of, Handle, Store, TAG_UNIT};

verus! {

/// A stamp lying between two stamps with the same tag has that tag too.
proof fn lemma_tag_between(lo: int, mid: int, hi: int)
    requires
        lo <= mid <= hi,
        tag_of(lo) == tag_of(hi),
    ensures
        tag_of(mid) == tag_of(lo),
{
    lemma_div_is_ordered(lo, mid, TAG_UNIT as int);
    lemma_div_is_ordered(mid, hi, TAG_UNIT as int);
}

/// Getting through the handle that `insert` returned yields the inserted
/// value.
pub proof fn lemma_get_after_insert<T>(s: Store<T>, post: Store<T>, v: T, h: Handle<T>)
    requires
        s.wf(),
        s.appended(post, Some(v), h),
    ensures
        post.access(h) == Ok::<T, StoreError>(v),
{
}

/// Getting through the handle that `allocate` returned reports an empty slot.
pub proof fn lemma_get_after_allocate<T>(s: Store<T>, post: Store<T>, h: Handle<T>)
    requires
        s.wf(),
        s.appended(post, None, h),
    ensures
        post.access(h) == Err::<T, StoreError>(StoreError::SlotEmpty),
{
}

/// After a value is inserted and taken out again, taking or getting through
/// the same handle reports an empty slot, however often it is repeated.
pub proof fn lemma_take_twice<T>(
    s: Store<T>,
    inserted: Store<T>,
    taken: Store<T>,
    taken_again: Store<T>,
    v: T,
    h: Handle<T>,
)
    requires
        s.wf(),
        s.appended(inserted, Some(v), h),
        inserted.rewritten(taken, h, None),
        taken.rewritten(taken_again, h, None),
    ensures
        inserted.access(h) == Ok::<T, StoreError>(v),
        taken.access(h) == Err::<T, StoreError>(StoreError::SlotEmpty),
        taken_again.access(h) == Err::<T, StoreError>(StoreError::SlotEmpty),
{
    assert(taken.entries()[h.slot()] is None);
    assert(taken_again.entries()[h.slot()] is None);
}

/// A handle issued by a store before its last clear is reported
/// `StoreMutated`, whatever has been allocated since: its stamp lies below
/// `base()`, the counter's value at the clear, which later allocations keep.
pub proof fn lemma_stale_after_clear<T>(s: Store<T>, h: Handle<T>)
    requires
        s.wf(),
        tag_of(h.stamp() as int) == s.tag(),
        h.stamp() < s.base(),
    ensures
        s.access(h) == Err::<T, StoreError>(StoreError::StoreMutated),
{
    if 0 <= h.slot() < s.entries().len() {
        lemma_tag_between(h.stamp() as int, s.base() + h.slot(), s.next_stamp() as int);
    }
}

/// A handle whose tag differs from a store's tag is reported `WrongStore` by
/// that store. Two stores have different tags unless their randomly drawn
/// tag bytes coincide.
pub proof fn lemma_foreign_handle<T>(b: Store<T>, h: Handle<T>)
    requires
        b.wf(),
        tag_of(h.stamp() as int) != b.tag(),
    ensures
        b.access(h) == Err::<T, StoreError>(StoreError::WrongStore),
{
    b.lemma_stamps_share_tag();
    if 0 <= h.slot() < b.entries().len() {
        lemma_tag_between(b.base(), b.base() + h.slot(), b.next_stamp() as int);
    }
}

/// `set` on the handle of an inserted value returns that value, and getting
/// afterwards yields the new one.
pub proof fn lemma_set_returns_previous<T>(
    s: Store<T>,
    inserted: Store<T>,
    updated: Store<T>,
    v1: T,
    v2: T,
    h: Handle<T>,
)
    requires
        s.wf(),
        s.appended(inserted, Some(v1), h),
        inserted.rewritten(updated, h, Some(v2)),
    ensures
        inserted.payload_at(h) == Ok::<Option<T>, StoreError>(Some(v1)),
        updated.access(h) == Ok::<T, StoreError>(v2),
{
}

} // verus!
