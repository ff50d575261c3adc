//! Verification of deployed contract bytecode against compiled sources.
//!
//! The crate holds the decisions of a bytecode verification engine and
//! leaves the waiting to its caller. Network, process and storage work is
//! done outside and comes in as plain values; what to do next goes out the
//! same way.
//!
//! - [`hex`]: hex text and raw bytes.
//! - [`matcher`]: full and partial matches between two bytecodes.
//! - [`version`], [`catalog`], [`pragma`]: compiler versions, the list of
//!   the known ones, and the range of versions that a source declares.
//! - [`cache`], [`gate`]: the binaries held locally, and the law of the
//!   permits that bound how many compilers run at once.
//! - [`adapter`], [`artifact`]: what a compiler run ends in, and the choice
//!   of the contract that matches.
//! - [`pipeline`], [`engine`]: the run over the candidate versions.
//! - [`request`], [`outcome`], [`service`]: requests, results and what the
//!   caller is told.
//! - [`deploy`]: the job that starts a deployment.

pub mod adapter;
pub mod artifact;
pub mod cache;
pub mod catalog;
pub mod deploy;
pub mod engine;
pub mod gate;
pub mod hex;
pub mod matcher;
pub mod outcome;
pub mod pipeline;
pub mod pragma;
pub mod request;
pub mod service;
pub mod version;
