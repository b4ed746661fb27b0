//! Self-update manifests for a desktop application: a release record is
//! reshaped into a platform-keyed manifest, kept in an expiring cache, and
//! disclosed to a client only when its installed version differs.

pub mod builder;
pub mod cache;
pub mod gate;
pub mod manifest;
pub mod text;
