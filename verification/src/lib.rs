//! Core logic of a rotation-schedule display: a freshness/backoff engine that
//! keeps a cached schedule snapshot up to date, a structure builder that
//! normalizes upstream records into schedule groups, a layout engine that
//! assigns deterministic positions to the rendered objects, and a codec that
//! persists the snapshot as a byte blob.
#![verifier::loop_isolation(false)]

pub mod assets;
pub mod backoff;
pub mod control;
pub mod blob;
pub mod codec;
pub mod layout;
pub mod timefmt;
pub mod rm_structure;
pub mod rm_write;
pub mod text;
pub mod schedule_data;
pub mod splatfest_data;
