//! The logic of a finite compute benchmark worker: it takes a request for samples of a workload,
//! works out the state and the transactions that each case describes, holds what their execution
//! did against what it should do, and answers every sample with one record.
//!
//! Files, command line and interpreter are not here. A program that has them asks a
//! [`session::Session`] what to do and tells it what was done.

pub mod digest;
pub mod execute;
pub mod hex;
pub mod inspector;
pub mod json;
pub mod notation;
pub mod order;
pub mod outcomes;
pub mod prepare;
pub mod primitives;
pub mod protocol;
pub mod record;
pub mod request;
pub mod session;
pub mod sorted_map;
pub mod state;
pub mod text;
pub mod workload;
