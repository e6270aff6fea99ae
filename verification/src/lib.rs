//! Translates whitespace-separated tokens into symbolic keycode identifiers.
//!
//! The crate owns a fixed symbol table mapping canonical token text (letters,
//! digits, a set of punctuation characters, modifier names and a few special
//! names) to identifiers such as `KC_A` or `KC_LSFT`. Input text is split into
//! whitespace-delimited tokens; each token is case-folded and looked up in the
//! table; resolved identifiers are collected in encounter order, unresolved
//! tokens are reported back to the caller; the resolved sequence can be
//! rendered as a C array initializer.

pub mod chars;
pub mod table;
pub mod render;
pub mod resolve;
pub mod tokenize;
