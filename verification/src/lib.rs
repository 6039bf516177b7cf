//! Demangling of Rust symbol names, with machine-checked contracts.
//!
//! Two mangling schemes are understood: the legacy scheme (`_ZN…E`) and the
//! structured v0 scheme (`_R…`). Every function in this crate is verified
//! against a mathematical description of the text it produces.
//!
//! [`demangle`] looks at a string and gives a [`Demangle`], which renders
//! the name in a verbose or a terse style; a string that is no mangled name
//! is rendered as itself. [`try_demangle`] fails on such a string instead.
//!
//! The modules, from the outside in:
//! - [`symbol`]: prefixes, suffixes and the two entry points;
//! - [`legacy`]: the legacy scheme;
//! - [`grammar`]: what a v0 name means, as mathematical functions;
//! - [`walk`]: the code that walks a v0 name as [`grammar`] says;
//! - [`printer`], [`cursor`], [`literal`], [`punycode`], [`digits`],
//!   [`sink`]: state, tokens, constants, identifiers, numerals and the
//!   size-limited text;
//! - [`crosscheck`], [`corpus`]: holding renderings against those of the
//!   `rustc-demangle` crate, name by name and record by record.

pub mod corpus;
pub mod crosscheck;
pub mod cursor;
pub mod digits;
pub mod grammar;
pub mod legacy;
pub mod literal;
pub mod printer;
pub mod punycode;
pub mod sink;
pub mod symbol;
pub mod walk;

pub use crate::symbol::{demangle, demangle_with_flags, try_demangle, Demangle, NotMangled};
