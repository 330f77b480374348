//! Lexical rewriting of a typed JavaScript dialect and of ES-module syntax
//! into plain CommonJS-style JavaScript, with every step proved against a
//! specification over character sequences.

pub mod annotations;
pub mod blocks;
pub mod cli;
pub mod env_parser;
pub mod error_report;
pub mod loader;
pub mod module_syntax;
pub mod password;
pub mod pattern;
pub mod text;
pub mod typescript;
pub mod uuid;
