//! Release synchronization and package-state engine: channel descriptors,
//! package listings, reconciliation of fresh listings against the persisted
//! database, and the coordination flags that gate fetches and installs.
pub mod package;
pub mod reconcile;
pub mod coordination;
pub mod channel;
pub mod sync;
pub mod daily;
pub mod codec;
