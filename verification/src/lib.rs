//! Plain-value core of a small DPDK wrapper: memory rings and memory zones.
//!
//! DPDK keeps the state of a ring or a memory zone in a C header in shared
//! memory. This crate models what is read from those headers as plain values,
//! computes what is handed to the DPDK calls that create them, decides the
//! outcome of a creation, and renders the headers for debugging.

pub mod cstr;
pub mod error;
pub mod ffi;
pub mod memring;
pub mod memzone;
pub mod rtering;
pub mod socket;
pub mod text;
