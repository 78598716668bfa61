//! A bridge to an externally built proof-generation module.
//!
//! The library covers the two halves of that job. At build time a pipeline
//! acquires the foreign source tree, locates its build entry point, resolves
//! its dependencies, compiles it into a static archive and emits the link
//! directives the host build needs; every decision those steps make is
//! computed and proved here, while the subprocess and filesystem work is left
//! to the surrounding program. At run time an invocation bridge encodes a
//! structured request as a null-free JSON text, interprets the foreign
//! module's reply, and accounts for the single release call the foreign
//! buffer is owed.

pub mod acquire;
pub mod bridge;
pub mod builder;
pub mod context;
pub mod hexout;
pub mod json;
pub mod linkage;
pub mod locator;
pub mod request;
pub mod resolver;
