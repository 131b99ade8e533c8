//! The pattern sub-language of Rust: its syntax tree, a parser from token
//! trees, and a printer back to token trees.
//!
//! Patterns are what stands on the left of `let`, in function parameters
//! and in match arms: `_`, `ref mut x @ 1..=9`, `Some((a, b))`,
//! `Point { x, .. }`, `[first, .., last]`, `A | B`.
//!
//! # The parts
//!
//! * [`token`] holds the token trees that the parser reads and the printer
//!   writes, and the ways of looking ahead in them; [`lex`] gets them from
//!   source text.
//! * [`ast`] holds the syntax tree. [`eq`] and [`pat_eq`] compare trees.
//! * [`grammar`] says, as mathematical functions on token sequences, what
//!   each rule of the syntax recognises; [`parsing`] and [`path`] are the
//!   parser, function for function. [`index`] reads and writes the decimal
//!   indices of positional fields, and [`error`] says why and where a parse
//!   failed.
//! * [`layout`] says which tokens spell a tree; [`printing`] is the printer.
//!
//! # What is proved
//!
//! Every parsing function returns exactly what [`grammar`] says, and every
//! printing function appends exactly what [`layout`] says. On top of that:
//!
//! * [`canon`] describes the trees that the parser can yield.
//!   [`roundtrip::lemma_print_then_parse`] shows that printing such a tree
//!   and parsing the tokens gives the tree back,
//!   [`yields::lemma_parse_yields_canon`] that the parser yields no others,
//!   and [`yields::lemma_round_trip`] puts the two together.
//! * [`laws`] holds the invariant of the tree, which every tree that
//!   comes out of the parser meets, and the relation between the two ways
//!   of writing a struct field.

pub mod ast;
pub mod canon;
pub mod eq;
pub mod error;
pub mod grammar;
pub mod index;
pub mod laws;
pub mod layout;
pub mod lex;
pub mod parsing;
pub mod pat_eq;
pub mod path;
pub mod printing;
pub mod roundtrip;
pub mod token;
pub mod yields;
