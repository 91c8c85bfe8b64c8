//! Lifecycle, scheduling and host ABI rules for a service that runs
//! user-provided WebAssembly modules once per upstream notification.
//!
//! The crate holds the decisions of that service as verified code:
//!
//! - [`db`]: the registry of modules and their lifecycle state, with the
//!   laws of the registry in [`db_laws`] and its persisted form in
//!   [`journal`];
//! - [`scheduler`]: which tasks a notification produces;
//! - [`runtime`]: the queue of tasks and the workers that take them;
//! - [`abi`]: how one invocation walks through the `alloc` + `process`
//!   ABI, [`engine`] and [`cache`]: how modules are compiled and kept,
//!   [`guest`]: what a module does on its side of the ABI;
//! - [`server`]: what the control API does to the registry;
//! - [`args`] and [`manifest`]: what the command line client runs and
//!   sends.
//!
//! Threads, sockets, files and the sandbox itself are left to the caller.

pub mod abi;
pub mod args;
pub mod cache;
pub mod db;
pub mod db_laws;
pub mod engine;
pub mod guest;
pub mod journal;
pub mod manifest;
pub mod notification;
pub mod runtime;
pub mod scheduler;
pub mod server;
pub mod state;
