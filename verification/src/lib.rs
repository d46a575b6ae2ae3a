//! Enumeration of visible on-screen application windows.
//!
//! The platform's window registry hands back one property record per window.
//! This crate models such a record as a list of typed key/value properties,
//! extracts the fields of interest with the documented defaults, and filters
//! the records down to ordinary, visible application windows, preserving the
//! order in which the registry returned them. The platform query itself is
//! performed by the surrounding program, which feeds the decoded records in.

pub mod active_windows;
pub mod props;
