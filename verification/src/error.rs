//! The errors that shape construction and rendering can report.

use vstd::prelude::*;

verus! {

/// Everything that can go wrong while building or rendering a shape.
///
/// Each variant carries a description of the cause: the offending
/// input string for `InvalidIri`, the underlying store's or encoder's
/// message for the other two.
#[derive(Debug, PartialEq, Eq)]
pub enum ParseError {
    /// A supplied string is not a valid absolute IRI.
    InvalidIri(String),
    /// The graph store rejected a triple insertion.
    UnableInsertTriple(String),
    /// An RDF encoder failed on the constructed graph.
    SerializationFailure(String),
}

impl ParseError {
    /// A readable description of the error: its kind, then the
    /// cause it carries.
    pub fn message(&self) -> (r: String)
        ensures
            (match self {
                ParseError::InvalidIri(s) => r@ == "Invalid IRI: "@ + s@,
                ParseError::UnableInsertTriple(s) => r@ == "Unable to insert triple: "@ + s@,
                ParseError::SerializationFailure(s) => r@ == "Serialization failure: "@ + s@,
            }),
    {
        match self {
            ParseError::InvalidIri(s) => {
                let mut m = String::from_str("Invalid IRI: ");
                m.append(s.as_str());
                m
            },
            ParseError::UnableInsertTriple(s) => {
                let mut m = String::from_str("Unable to insert triple: ");
                m.append(s.as_str());
                m
            },
            ParseError::SerializationFailure(s) => {
                let mut m = String::from_str("Serialization failure: ");
                m.append(s.as_str());
                m
            },
        }
    }
}

} // verus!
