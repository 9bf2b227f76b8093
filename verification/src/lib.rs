//! A two-party, pseudonymous mutual-disclosure record store.
//!
//! Two participants each submit an encrypted payload under a shared tag.
//! The record for a tag holds up to two fixed-size ciphertexts and a fill
//! counter; the first submission fills the first slot, the second fills the
//! second, and from then on the record is frozen: every further submission
//! fails with [`record::ErrorCode::AlreadyMutual`] and changes nothing.
//!
//! [`record`] holds the record type and the one-shot fill rule on a single
//! record; [`store`] holds the tag-keyed store with its lazy-creation
//! semantics; [`laws`] states and proves the protocol's guarantees.

pub mod laws;
pub mod record;
pub mod store;
