//! Streaming decoder for tab-delimited examination-qualifier listings.
//!
//! Each input line describes one examinee: surname, first name, an optional
//! middle name, a 7-digit application id, a 3-digit seat number, a time,
//! a 1-2 digit room assignment, a 4-digit test center code, and the test
//! center's name and address. The decoder turns each line into a typed
//! record or a classified, line-numbered error, lazily, one line per pull.

pub mod casing;
pub mod errors;
pub mod fields;
pub mod lines;
pub mod parser;
pub mod text;
pub mod types;
