//! Management of NetworkManager-style connection profiles for wired bonds,
//! wireless access points and wireless stations.
//!
//! The crate models a desired connection as a [`connection::ConnectionProfile`],
//! searches snapshots of the backend's stored and active connections for
//! semantic matches under type-specific equivalence rules, and drives
//! idempotent create / delete / status transitions as explicit state machines
//! whose backend requests are carried out by the caller.

pub mod access_point;
pub mod bond;
pub mod cli;
pub mod connection;
pub mod util;
pub mod error;
pub mod ip4;
pub mod model;
pub mod station;
