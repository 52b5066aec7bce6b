//! Server side of the SSH File Transfer Protocol, version 3.
//!
//! The crate holds what a server decides and computes, and performs no input
//! or output of its own:
//!
//! - [`stream::packet`] is the wire codec: packets are read from bytes and
//!   written to bytes, and what is written reads back as itself.
//! - [`reassembly`] cuts packets out of transport reads, which end anywhere.
//! - [`server`] is the dispatcher of one session. It answers a request at
//!   once, or names one operation for the backend and takes the outcome
//!   back; it keeps the files and directories that the session holds open.
//! - [`backend`] and [`filesystem`] hold the operations that a backend is
//!   asked for and the lexical rule that keeps every path under its root.
//!
//! Whoever drives a session reads bytes, hands them to
//! [`reassembly::parse_packet`], hands each frame to
//! [`server::Server::process_frame`], performs the operations that come back
//! and hands their outcomes to [`server::Server::resume`], and writes the
//! bytes of each response.

pub mod backend;
pub mod common;
pub mod error;
pub mod file;
pub mod filesystem;
pub mod number;
pub mod reassembly;
pub mod server;
pub mod stream;
pub mod util;
