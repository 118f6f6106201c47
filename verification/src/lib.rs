//! Node-side agent of a cluster testbed: the controller protocol, the
//! reconciliation rules for accounts and mounts, and the decisions of the
//! workers that carry them out.

pub mod account;
pub mod applet;
pub mod config;
pub mod error;
pub mod geni;
pub mod mount;
pub mod system;
pub mod text;
pub mod tmcc;
