//! Rust side of the Rust <-> D bridge: the values that Rust hands across the
//! boundary (a greeting string and an opaque handle), each computed with a
//! proved contract and run under the unwind guard of `cxx`.

pub use cxx;

pub mod ffi;
pub mod build_plan;
