//! Parser for DIMACS satisfiability problem files.
//!
//! A DIMACS file describes either a conjunctive-normal-form problem (a list
//! of clauses over literals) or a generalized SAT problem (a formula tree
//! over literals, built from negation, conjunction, disjunction, equivalence
//! and exclusive-or, with optional extension keywords).
//!
//! The crate is organized as a pipeline: a byte lexer produces tokens tagged
//! with their line/column position, a filtering lexer removes comments, and a
//! recursive-descent parser with one token of lookahead builds the typed
//! instance. Every stage carries a contract relating it to a mathematical
//! model of the input, so the returned instance (or error position) is proved
//! to be the one the grammar prescribes.

pub mod errors;
pub mod items;
pub mod lexer;
pub mod parser;
