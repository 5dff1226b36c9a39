//! Client-side runtime for an out-of-process object kernel.
//!
//! The kernel is a long-lived child process that owns a graph of live
//! objects; the host drives it through a line-delimited JSON protocol over
//! its standard input and output. This crate holds the verified core of the
//! client: the JSON wire codec, the request/response data model, the
//! process-session state machine, and the client facade that narrows
//! generic responses into operation-specific results. The unverified shell
//! that owns the actual child process feeds lines in and out of this core.

pub mod api;
pub mod client;
pub mod conversion;
pub mod json;
pub mod object;
pub mod runtime;
