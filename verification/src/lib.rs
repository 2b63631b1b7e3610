//! A bridge between a configuration-template build engine and a
//! dynamically typed host.
//!
//! The [`registry`] owns the native builder instances behind small integer
//! handles. [`render`] holds the two steps around the engine's call: the plan,
//! which resolves the handle and makes the engine's arguments from the source
//! paths, and the presentation of what the engine returned. The call itself
//! reads files and is left to the caller. [`intake`] takes over what the
//! engine resolved, [`marshal`] encodes it in the host's value model, and
//! [`python`] builds the objects of the Python host from it.

pub mod engine;
pub mod error;
pub mod handle;
pub mod host;
pub mod intake;
pub mod marshal;
pub mod python;
pub mod registry;
pub mod render;
pub mod value;
