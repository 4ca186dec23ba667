//! The rules behind a Git implementation, proved: what an answer means, what has to be asked next, and
//! what may be relied on, apart from all input and output.
//!
//! * [`alternate`] finds other object databases to read from.
//! * [`store`] opens an object store, counts what is in it, and decides when a pack can be handed out;
//!   [`machine`] exercises such a store and knows what it has promised.
//! * [`note`] looks notes up in their trees, and [`notes`] knows which references hold them.
//! * [`signature`] knows what to ask a verifier of signatures, and what its answers are worth.
//! * [`merge`] matches the changes of two sides with each other.
//! * [`screen`], [`keys`], [`changes`], [`frame`] and [`session`] are an interactive commit graph.
//! * [`classify`] and [`delta`] are errors, [`oid`] and [`bytes`] are what everything else is made of.
//!
//! Whatever reads, writes, waits or draws is left to a program around this library, which is told what
//! to do and tells what came of it. Calls into other crates are all in [`foreign`].

pub mod alternate;
pub mod bytes;
pub mod changes;
pub mod classify;
pub mod delta;
pub mod foreign;
pub mod frame;
pub mod keys;
pub mod laws;
pub mod machine;
pub mod merge;
pub mod note;
pub mod notes;
pub mod oid;
pub mod screen;
pub mod session;
pub mod signature;
pub mod store;
