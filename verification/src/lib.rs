//! A flat-file backed dictionary: word entries (headword, part of speech,
//! definition) are parsed from a line-oriented record format, looked up by
//! case-insensitive headword, filtered by character frequency, and written
//! back out in the same format.

pub mod category;
pub mod errors;
pub mod format;
pub mod laws;
pub mod query;
pub mod text;
pub mod word;
