//! A generational slot store: values are kept in append-only slots and reached
//! through typed handles whose stamps are checked against the slot they name.

mod error;
mod laws;
mod store;

pub use error::StoreError;
pub use laws::{
    lemma_foreign_handle, lemma_get_after_allocate, lemma_get_after_insert, lemma_set_returns_previous,
    lemma_stale_after_clear, lemma_take_twice,
};
pub use store::{tag_of, validate, Handle, Slot, Store, TAG_UNIT};
