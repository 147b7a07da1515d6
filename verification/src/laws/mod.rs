//! What the operations of this crate do, told by their arguments and results: what a result has to
//! satisfy, and how the results of several calls are related.
//!
//! A call is spoken of by `call_ensures`, with the arguments and the result. A parameter that a call
//! changes stands for the value before it under `old`, and for the value after it under `final`.
pub mod client;
pub mod clock;
pub mod codec;
pub mod error;
pub mod kcp_run;
pub mod kcp_stream;
pub mod maintain;
pub mod network;
pub mod protocol;
pub mod punch;
pub mod tunnel;
