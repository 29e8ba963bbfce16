//! A self-describing dynamic value: integers of several widths and of
//! arbitrary precision, floats, text, byte strings, opaque identifiers,
//! options, numeric vectors, arrays, records, maps and sets.
//!
//! The library coerces values to native integers, estimates their encoded
//! size, renders them as canonical bytes, as JSON and for display, compares
//! and hashes them structurally, pages large two-level collections of values
//! ("workspaces") into size-bounded pages and rebuilds them, and maps values
//! between their working form and their persisted form.

pub mod number;
pub mod types;
pub mod value;
pub mod size;
pub mod blob;
pub mod copy;
pub mod workspace;
pub mod render;
pub mod equality;
pub mod hash;
pub mod stable;
pub mod unstable;
pub mod duality;
pub mod requests;
pub mod conversion;
pub mod persisted_text;

pub use number::{Int, Nat};
pub use value::{CandyShared, ToCandyValue};
