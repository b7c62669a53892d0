//! Translation of Sigma detection rules into Sentinel-style queries.
//!
//! A Sigma rule is a YAML document naming a log source and a set of
//! field/value selections; this library validates such a document into a
//! typed rule, resolves the rule's log-source selector against a catalog
//! of known sources, and builds the textual query for each resolved
//! source.

use vstd::prelude::*;

pub mod sentinel;
pub mod sigma;
pub mod translate;
pub mod yaml;

verus! {

/// Compares two string slices by content.
pub fn str_eq(a: &str, b: &str) -> (r: bool)
    ensures
        r == (a@ == b@),
{
    a.to_owned() == b.to_owned()
}

/// Why a document or a file could not be turned into a value.
#[derive(Debug, PartialEq, Eq, Clone, Copy, Structural)]
pub enum ParsingError {
    /// The path could not be opened or read.
    InvalidFile,
    /// The content was read but does not conform to the expected schema.
    InvalidAttribute,
}

} // verus!
