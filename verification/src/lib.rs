//! A minimal string-template engine. A template is literal text with
//! placeholders of the form `{{ dotted.path }}` in it; compiling it against a
//! context, a tree of named values, replaces every placeholder by the text of
//! the value that its path leads to, and by nothing where it leads to none.
//!
//! - [`template`] scans a template into literals and variable paths.
//! - [`keypath`] decodes a variable path into the keys to look up.
//! - [`context`] holds the tree of values and walks a key path in it.
//! - [`engine`] puts the three together in [`compile`].
//! - [`text`] and [`delimit`] hold the vocabulary on sequences of characters
//!   that the others are stated in, and [`primitives`] the string routines
//!   that are taken on trust.

pub mod context;
pub mod delimit;
pub mod engine;
pub mod keypath;
pub mod primitives;
pub mod template;
pub mod text;

pub use context::Context;
pub use engine::{compile, CompileError};
pub use keypath::key_parser;
pub use template::{parser, TaggedTemplate};
