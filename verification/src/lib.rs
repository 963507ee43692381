//! Core of a small human-resources records system: employee and user
//! records with role-based permissions, a single-operator session, and an
//! append-only audit trail.
//!
//! The library holds the data model and all of the rules (permission
//! derivation, authorization gates, key uniqueness, filtering, audit
//! consistency) as verified code; persistence and file handling live
//! outside, handing plain values in and out.

pub mod models;
pub mod text;
pub mod credential;
pub mod session;
pub mod db;
pub mod seq_util;
pub mod gate;
pub mod json;
pub mod grouping;
pub mod employees;
pub mod stats;
pub mod info;
pub mod auth;
pub mod audit;
pub mod images;
