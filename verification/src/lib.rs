//! Zig guest bindings for WebAssembly interface types.
//!
//! Given a resolved interface schema, the crate emits the exported Zig entry
//! points that marshal values across the canonical ABI boundary: for each
//! function that a world exports, an entry point that lifts the wire
//! parameters, calls the implementation and lowers the result, and, where
//! the result leaves memory behind, a post-return entry point that frees
//! it.
//!
//! [`world::generate`] runs the generator; [`laws`], [`collision`],
//! [`pairing`] and [`shapes`] state what holds of every run.

pub mod bindgen;
pub mod binding;
pub mod buffer;
pub mod case;
pub mod collision;
pub mod config;
pub mod error;
pub mod interface;
pub mod laws;
pub mod names;
pub mod pairing;
pub mod schema;
pub mod scopes;
pub mod shapes;
pub mod signature;
pub mod stub;
pub mod text;
pub mod types;
pub mod world;

pub use config::{ExportKey, Opts, Ownership};
