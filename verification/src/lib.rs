//! Scanning and diagnostic-reporting core for a small experimental language.
//!
//! The library decodes source bytes into text, splits the text into typed
//! tokens annotated with source offsets, and renders an offset range as a
//! multi-line, caret-annotated error excerpt.  Offsets throughout are indices
//! into the decoded character sequence of the source buffer.

pub mod chars;
pub mod strutil;
pub mod file;
pub mod umbra;
pub mod paint;
pub mod decode;
pub mod error;
pub mod lexmodel;
pub mod lexer;
pub mod position;
pub mod token;
pub mod cmdline;
pub mod data;
pub mod parser;
pub mod laws;
