//! An operational model of a dynamic aliasing discipline for references
//! derived from a single root object.
//!
//! The crate tracks, for one memory location, which reference currently has
//! the right to access it and under which permission regime. Two machines are
//! provided:
//!
//! - [`machine`]: a minimal precursor in which a single indivisible token
//!   moves along parent/child edges of the reference hierarchy;
//! - [`machine2`]: the full model, in which the token can be fragmented into
//!   fungible units, a global permission register gates reads and writes, and
//!   an access validator decides whether a given reference may perform a
//!   given access.

pub mod machine;
pub mod machine2;
