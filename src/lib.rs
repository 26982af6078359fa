//! A personal knowledge base: notes (`Zettel`) linked into a directed acyclic graph that is
//! held, together with a metadata index and a cache of loaded notes, by a `Kasten`.
//!
//! The library keeps the link graph consistent (no duplicate identifiers, no dangling parents,
//! edges only from existing notes to a new one) and decides what must be persisted; reading and
//! writing files is left to the caller.
pub mod errors;
pub mod graph;
pub mod identity;
pub mod kasten;
pub mod zettel;


pub use kasten::Kasten;
pub use zettel::Zettel;
