//! Synchronisation of locked packages between a remote store and a local
//! package-manager cache: package identity, content digests, the
//! content-addressed blob store, the cache layout and the sync engine's
//! decisions.

pub mod backend;
pub mod digest;
pub mod krate;
pub mod layout;
pub mod names;
pub mod store;
pub mod sync;
