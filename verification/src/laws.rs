//! What holds of the library in terms of what goes in and what comes out.
//!
//! The contracts of the functions are written over models. The laws here say what those models amount
//! to: which input leads to which result, and how results relate to each other.

pub mod alternate;
pub mod bytes;
pub mod changes;
pub mod classify;
pub mod exercise;
pub mod frame;
pub mod machine;
pub mod merge;
pub mod notes;
pub mod session;
pub mod signature;
pub mod store;
pub mod terminal;
