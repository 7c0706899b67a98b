//! A parser-combinator core: recursive-descent parsers over an arbitrary
//! token stream, built by composing small parsing values.
//!
//! The heart of the library is the [`parsec::Parsec`] trait: a parser is a
//! value with a `parse` method that reads tokens from a [`parsec::State`]
//! cursor and either succeeds with a result or fails with a positioned
//! [`parsec::ParsecError`].  Every parser also carries a specification-level
//! relation, [`parsec::Parsec::parses`], which says exactly how a run may
//! move the cursor and what it may return; `parse` is verified against that
//! relation for every primitive and every combinator.

pub mod functional;
pub mod parsec;
