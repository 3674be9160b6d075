use vstd::prelude::*;

verus! {

/// Why a store refused a handle.
#[derive(Debug, Clone, Copy, PartialEq, Eq, Structural)]
pub enum StoreError {
    /// The handle's slot was discarded or replaced since it was issued: the
    /// store was cleared.
    StoreMutated,
    /// The handle was issued by another store.
    WrongStore,
    /// The handle is valid but its slot holds no value.
    SlotEmpty,
}

} // verus!
