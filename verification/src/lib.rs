//! A UTF-8 spell checker for the Hunspell-style dictionary format:
//! an `.aff` affix-definition file plus a `.dic` word list.
//!
//! The crate classifies the letter case of a word, compiles and evaluates
//! the edge-anchored conditions of affix rules, parses the two dictionary
//! files, tokenizes text into word and non-word runs, and decides whether
//! a surface form can be reduced to a dictionary root by stripping a
//! bounded number of prefixes and suffixes whose flags permit the chain.

pub mod affix;
pub mod caseclass;
pub mod check;
pub mod cli;
pub mod condition;
pub mod dict;
pub mod dicline;
pub mod finalize;
pub mod lang;
pub mod parsestate;
pub mod reader;
pub mod store;
pub mod text;
pub mod tokenize;
