//! A schema-driven interface compiler core: the semantic verifier that
//! decides whether a schema is sound, the code-generation contract that turns
//! a sound schema into bindings, and the wire codecs those bindings rely on.

pub mod schema;
pub mod diagnostics;
pub mod semantic;
pub mod text;
pub mod generator;
pub mod wire;
pub mod models;
pub mod compiler;
