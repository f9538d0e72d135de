//! A compile-time template engine: template text goes in, the source of a
//! rendering routine for a context record comes out.
//!
//! The way from text to code, leaves first:
//!
//! - [`config`] knows the template directories and resolves the name of a
//!   partial against the file that includes it; [`loader`] gathers the
//!   templates that a root template reaches, and refuses circles.
//! - [`parser`] turns template text into a node tree ([`node`]), by the
//!   grammar that [`syntax`] defines on bytes ([`bytes`]). Whether a fragment
//!   is an expression or a statement of the host language is for the host
//!   parser to say ([`host`]).
//! - [`bind`] puts the syntax tree of each fragment ([`ast`]) in the place of
//!   its text.
//! - [`analysis`] decides which loops need a counter.
//! - [`generator`] walks the tree and writes the rendering code into a
//!   [`buffer`]. A fragment is lowered to instructions ([`lower`]) that the
//!   scope [`machine`] carries out: it copies tokens, rewrites bare names into
//!   fields of the record or of the context, and keeps the scopes.
//! - [`derive`] sets the implementations around the rendering code, from the
//!   template metadata of the record ([`input`]); [`pipeline`] goes the whole
//!   way.
//! - [`markup`] is what the generated code calls to escape a value.
//!
//! [`laws`] and [`balance`] hold what is proved of all templates.
pub mod analysis;
pub mod ast;
pub mod balance;
pub mod bind;
pub mod buffer;
pub mod bytes;
pub mod config;
pub mod derive;
pub mod generator;
pub mod host;
pub mod input;
pub mod laws;
pub mod loader;
pub mod lower;
pub mod machine;
pub mod markup;
pub mod node;
pub mod parser;
pub mod pipeline;
pub mod syntax;
pub mod text;
