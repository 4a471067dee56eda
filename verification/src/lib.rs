//! A small peer-to-peer package manager: the layout of the package store, the
//! bookkeeping of the network event loop and the decisions of the workers,
//! each stated over plain values and proved.
//!
//! Reading and writing files, the network itself and the command line belong
//! to the program around this library; it hands the library plain values and
//! carries out what the library decides.

pub mod config;
pub mod database;
pub mod errors;
pub mod network;
pub mod package;
pub mod path;
pub mod pending;
pub mod pkgman;
pub mod worker;

pub use errors::{CafError, CafErrorView, ErrorSource, WrapError, WrapErrorInResult};
