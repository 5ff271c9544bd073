//! Reassembly of one file from an ordered list of remotely hosted chunks:
//! metadata probing, cache-aware chunk acquisition, advisory hash checks and
//! in-order assembly. The network and the file system stay with the caller;
//! this crate decides what to do with what they return.

pub mod digest;
pub mod check;
pub mod probe;
pub mod acquire;
pub mod assemble;
pub mod phase;
