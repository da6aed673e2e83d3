//! A memorable password generator: a small templating language that composes
//! randomized passwords from dictionary words, letters, digits, symbols,
//! literal character sets and named reusable sub-templates.
//!
//! A template string is parsed into an expression tree by [`parser::parse`];
//! the tree is then evaluated against a dictionary and a sequence of random
//! draws to produce one password per call.
pub mod config;
pub mod consts;
pub mod eval;
pub mod laws;
pub mod parser;
pub mod password_maker;
pub mod rng;
pub mod text;
pub mod types;

