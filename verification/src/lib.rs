//! The decision logic of an interactive process-memory scanner: locating the
//! stack and heap of a process from its map listing, searching a region for a
//! machine word, narrowing the candidates over successive searches, and
//! overwriting the single survivor while the target is held under trace.
//!
//! Nothing here touches the operating system. The caller reads files, copies
//! memory and issues trace requests; this crate says which request comes next
//! and what each answer means.

pub mod counter;
pub mod display;
pub mod filter;
pub mod maps;
pub mod number;
pub mod pass;
pub mod region;
pub mod scan;
pub mod session;
pub mod text;
pub mod trace;
pub mod word;
