//! An ABI-boundary bindings generator.
//!
//! The crate takes a language-agnostic model of exposed types and methods
//! (built by a separate front end) and computes the marshalling decisions
//! that both sides of a foreign-function boundary must agree on: how slices
//! and strings expand to `(data, len)` parameter pairs, how fallible and
//! optional results become tagged-union wrapper types, how callbacks become
//! function-pointer/context pairs, and how opaque handles are destroyed.
//! From those decisions it renders producer-side shim source, consumer-side
//! C declarations, and an optional API table exposed through one entrypoint.

pub mod model;
pub mod text;
pub mod fmt;
pub mod lowering;
pub mod marshal;
pub mod registry;
pub mod runtime;
pub mod headers;
pub mod cgen;
pub mod bridge;
pub mod attrs;
