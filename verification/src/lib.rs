//! A small stateful byte scanner for pre-validating untrusted input.
//!
//! A caller builds a [`forbidden::ForbiddenSet`] from a list of byte values,
//! wraps it in a [`scanner::Scanner`], and feeds the scanner byte chunks in
//! order.  A chunk is judged "suspicious" when it contains a forbidden byte,
//! or when two marker bytes (ASCII dash) stand next to each other — also when
//! the pair straddles the boundary between two chunks, which the scanner
//! detects by carrying the last byte it saw from one call to the next.

pub mod bounded;
pub mod forbidden;
pub mod laws;
pub mod model;
pub mod scanner;

pub use model::MARKER;
