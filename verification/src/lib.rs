//! A tree-walking evaluator for the Linger scripting language, together with
//! its tokenizer.
//!
//! Every executable function is verified against a mathematical model:
//!
//! - `tokenizer`: from source text to tokens, verified against a recursive
//!   description of the token stream;
//! - `ast`: the statements and expressions that the evaluator consumes;
//! - `environment`: the bindings in sight, with declaration, assignment and
//!   the ending of a scope;
//! - `interpreter`: values and the evaluator, verified against
//! - `semantics`: what every expression evaluates to and what every
//!   statement does;
//! - `laws`: what holds of every evaluation, proved from the semantics: how
//!   blocks scope declarations, what closures see, when operands are
//!   skipped, how loops are left, that fuel only bounds;
//! - `number`: what can be read off the bits of a number;
//! - `host`: the arithmetic and the text of numbers, which the caller
//!   supplies;
//! - `error`: the errors and the lines that report them;
//! - `text`: decimal digits.
//!
//! Three things are taken on trust: that the `regex` crate matches the same
//! text in the same way every time, and what `String::push` and
//! `str::split_once` do. Rounding arithmetic is not part of the library: the
//! evaluator is proved for every host whose functions are deterministic.

pub mod number;
pub mod text;
pub mod host;
pub mod tokenizer;
pub mod ast;
pub mod environment;
pub mod interpreter;
pub mod error;
pub mod semantics;
pub mod laws;
