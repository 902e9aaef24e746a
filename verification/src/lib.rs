//! Parsing of AWS-style credentials files.
//!
//! A credentials file is an INI-like text file: bracketed profile headers,
//! `key = value` lines, comments and blank lines.  This crate verifies the
//! whole parsing state machine: line classification, accumulation of one
//! profile's fields into a draft, and commitment of complete drafts into the
//! final profile map.  The sibling config-file format, which shares the
//! structural skeleton, is parsed as well.  Reading a file itself is left to
//! the caller, who hands the parsers the sequence of lines.

pub mod config;
pub mod draft;
pub mod laws;
pub mod line;
pub mod parser;
pub mod profile_map;
pub mod record;
pub mod str_map;
