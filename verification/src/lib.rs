//! Resolves, per build target, the environment a cross-compilation
//! toolchain needs — candidate-based variable resolution with merge
//! semantics, target selection and symbolic-link planning — emits the
//! build tool's configuration from the outcome, and plans the deployment
//! of the built artifact to a remote device.

pub mod action;
pub mod candidates;
pub mod catalog;
pub mod defaults;
pub mod deploy;
pub mod emit;
pub mod envmap;
pub mod envstr;
pub mod links;
pub mod parse;
pub mod profile;
pub mod strutil;
