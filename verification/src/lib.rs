//! A minimal command-line argument parser.
//!
//! A [`schema::Schema`] declares which single-letter flags exist and what kind
//! of value each one takes. The tokenizer in [`token::parser`] walks the raw
//! arguments and produces a typed token stream; [`collection::Collection`]
//! turns that stream into a store that answers typed lookups by flag name.
//! [`app::App`] is a small program built on the three.
//!
//! Functions that fail on malformed input come in pairs: one that asks, as a
//! precondition, for input that cannot fail, and one that takes any input and
//! returns the failure as a value. [`guarantees`] holds what is proved of
//! every parse beyond the contracts of the single functions.
pub mod app;
pub mod collection;
pub mod guarantees;
pub mod schema;
pub mod token;
