//! Build-time aggregator-file generation and a compile-time export registry.
//!
//! The aggregator half infers a module hierarchy from a scanned directory
//! tree and produces, for every qualifying directory, the text of a `mod.rs`
//! file that declares and re-exports its child modules.  The registry half
//! records annotated declarations under a composite key, rejects colliding
//! registrations at expansion time, and enumerates the recorded descriptors
//! at run time.

pub mod aggregate;
pub mod registry;
pub mod tree;

pub use aggregate::build;
pub use aggregate::generate_mod_files;
pub use aggregate::is_hidden;
pub use registry::register_export;
