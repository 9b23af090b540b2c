//! Module-compilation support for an ECMAScript bundler: classifies each
//! static import of a module (internal, external, unresolvable), decides the
//! chunking policy of an import reference, synthesizes the runtime-support
//! statements spliced into a rewritten program, and computes which imported
//! bindings of an async module must be awaited.

pub mod async_module;
pub mod esm;
pub mod index_set;
pub mod magic_identifier;
pub mod program;
pub mod resolve;
pub mod text;
