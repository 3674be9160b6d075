use slot_store::{Store, StoreError};

fn auto_traits<T: Send + Sync + Unpin>(_: T) {}

#[test]
fn test() {
    let mut store = Store::new();
    let handle = store.insert(12);

    // get, index
    assert_eq!(store.get(handle), Ok(&12));
    assert_eq!(store.index(handle), &Some(12));

    // get_mut, index_mut
    assert_eq!(store.get_mut(handle), Ok(&mut 12));

    let mut_ref = store.index_mut(handle);
    assert_eq!(mut_ref, &mut Some(12));

    *mut_ref = Some(14);
    assert_eq!(store.get(handle), Ok(&14));

    // allocate
    let handle = store.allocate();
    assert_eq!(store.get(handle), Err(StoreError::SlotEmpty));

    // take
    let handle = store.insert(10);
    assert_eq!(store.take(handle), Ok(10));
    assert_eq!(store.get(handle), Err(StoreError::SlotEmpty));

    // StoreError::StoreMutated
    store.clear();
    assert_eq!(store.get(handle), Err(StoreError::StoreMutated));

    // StoreError::WrongStore
    let store = Store::new();
    assert_eq!(store.get(handle), Err(StoreError::WrongStore));

    // auto traits
    auto_traits(store);
}

#[test]
fn get_returns_inserted_value() {
    let mut store = Store::with_tag(7);
    let a = store.insert(String::from("alpha"));
    let b = store.insert(String::from("beta"));
    assert_eq!(store.get(a), Ok(&String::from("alpha")));
    assert_eq!(store.get(b), Ok(&String::from("beta")));
}

#[test]
fn get_after_allocate_is_empty() {
    let mut store: Store<u32> = Store::with_tag(0);
    let h = store.allocate();
    assert_eq!(store.get(h), Err(StoreError::SlotEmpty));
    assert_eq!(store.take(h), Err(StoreError::SlotEmpty));
    assert_eq!(store.set(h, 5), Ok(None));
    assert_eq!(store.get(h), Ok(&5));
}

#[test]
fn take_is_idempotent() {
    let mut store = Store::with_tag(1);
    let h = store.insert(3u8);
    assert_eq!(store.take(h), Ok(3));
    assert_eq!(store.take(h), Err(StoreError::SlotEmpty));
    assert_eq!(store.get(h), Err(StoreError::SlotEmpty));
    assert_eq!(store.take(h), Err(StoreError::SlotEmpty));
}

#[test]
fn clear_invalidates_even_reoccupied_positions() {
    let mut store = Store::with_tag(2);
    let old0 = store.insert(100);
    let old1 = store.insert(101);
    store.clear();
    assert_eq!(store.get(old0), Err(StoreError::StoreMutated));
    assert_eq!(store.get(old1), Err(StoreError::StoreMutated));
    let new0 = store.insert(200);
    let new1 = store.insert(201);
    assert_eq!(store.get(old0), Err(StoreError::StoreMutated));
    assert_eq!(store.get(old1), Err(StoreError::StoreMutated));
    assert_eq!(store.take(old0), Err(StoreError::StoreMutated));
    assert_eq!(store.set(old1, 9), Err(StoreError::StoreMutated));
    assert_eq!(store.get(new0), Ok(&200));
    assert_eq!(store.get(new1), Ok(&201));
    assert!(new0 != old0);
}

#[test]
fn handle_from_other_store_is_wrong_store() {
    let mut a = Store::with_tag(10);
    let mut b = Store::with_tag(11);
    let ha = a.insert(1);
    let _hb = b.insert(2);
    // in range of b, and past its end
    assert_eq!(b.get(ha), Err(StoreError::WrongStore));
    let ha2 = a.insert(3);
    assert_eq!(b.get(ha2), Err(StoreError::WrongStore));
    assert_eq!(b.take(ha2), Err(StoreError::WrongStore));
    assert_eq!(b.set(ha, 4), Err(StoreError::WrongStore));
    assert_eq!(b.get(_hb), Ok(&2));
}

#[test]
fn same_tag_stores_cannot_tell_handles_apart() {
    let mut a = Store::with_tag(5);
    let mut b = Store::with_tag(5);
    let ha = a.insert(1);
    let hb = b.insert(2);
    assert!(ha == hb);
    assert_eq!(b.get(ha), Ok(&2));
}

#[test]
fn set_returns_previous_payload() {
    let mut store = Store::with_tag(3);
    let h = store.insert(1);
    assert_eq!(store.set(h, 2), Ok(Some(1)));
    assert_eq!(store.get(h), Ok(&2));
}

#[test]
fn get_mut_writes_through() {
    let mut store = Store::with_tag(4);
    let h = store.insert(vec![1, 2]);
    store.get_mut(h).unwrap().push(3);
    assert_eq!(store.get(h), Ok(&vec![1, 2, 3]));
    let e = store.allocate();
    assert_eq!(store.get_mut(e), Err(StoreError::SlotEmpty));
}

#[test]
fn unchecked_access_ignores_stamps() {
    let mut store = Store::with_tag(6);
    let h = store.insert('x');
    assert_eq!(store.get_unchecked(h), Some(&'x'));
    if let Some(c) = store.get_unchecked_mut(h) {
        *c = 'y';
    }
    assert_eq!(store.get(h), Ok(&'y'));
    store.clear();
    let _n = store.insert('z');
    // a stale handle still reaches the slot at its position
    assert_eq!(store.get_unchecked(h), Some(&'z'));
    assert_eq!(store.index(h), &Some('z'));
    let e = store.allocate();
    assert_eq!(store.get_unchecked(e), None);
    assert_eq!(store.get_unchecked_mut(e), None);
}

#[test]
fn new_store_counts_from_its_tag() {
    let mut store = Store::new();
    let h = store.insert(42u64);
    assert_eq!(store.get(h), Ok(&42));
    assert_eq!(store.take(h), Ok(42));
}

#[test]
fn scenario_from_insert_to_wrong_store() {
    let mut s = Store::with_tag(20);
    let h = s.insert(12);
    assert_eq!(s.get(h), Ok(&12));
    let h2 = s.allocate();
    assert_eq!(s.get(h2), Err(StoreError::SlotEmpty));
    let h3 = s.insert(10);
    assert_eq!(s.take(h3), Ok(10));
    assert_eq!(s.get(h3), Err(StoreError::SlotEmpty));
    s.clear();
    assert_eq!(s.get(h3), Err(StoreError::StoreMutated));
    let s2: Store<i32> = Store::with_tag(21);
    assert_eq!(s2.get(h3), Err(StoreError::WrongStore));
}
