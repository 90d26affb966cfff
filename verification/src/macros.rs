//! The decisions behind the procedural macros: what the `#[server]` macro
//! reads from an impl block and its attributes, what it checks, and how the
//! handler it generates lists and dispatches; and what `#[derive(FlattenTool)]`
//! reads from a struct. The macros read Rust syntax through the model in
//! [`syntax`].

pub mod syntax;
pub mod attrs;
pub mod server;
pub mod flatten;
