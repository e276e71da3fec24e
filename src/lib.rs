//! Helpers for writing derive macros: a parser for the declaration a derive is
//! attached to, and builders for the code it generates.
pub mod attributes;
pub mod body;
pub mod cursor;
pub mod error;
pub mod function;
pub mod generator;
pub mod generics;
pub mod render;
pub mod round_trip;
pub mod parse;
pub mod scopes;
pub mod stream_builder;
pub mod token;
pub mod utils;
