//! Peer transport and discovery for a local-network collaborative note editor.
//!
//! The crate validates and normalizes join targets, keeps the registry of live
//! peer connections, models the per-connection transport loops, and exposes the
//! command surface that the surrounding process drives.

pub mod address;
pub mod contracts;
pub mod discovery;
pub mod facade;
mod ident;
pub mod notes;
pub mod registry;
pub mod strutil;
pub mod transport;
