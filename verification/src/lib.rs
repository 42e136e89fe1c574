//! Resolution of the configuration file location for a clash manager, and a
//! small typed configuration record with verified load/save serialization.

pub mod config;
pub mod resolve;
