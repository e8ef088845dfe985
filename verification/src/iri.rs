//! Absolute-IRI validation, delegated to sophia's lexical checker.

use vstd::prelude::*;

verus! {

/// Whether a string is a syntactically valid absolute IRI, per the
/// RFC 3987 `IRI` rule as sophia checks it. A relative reference is
/// not accepted: everything a shape names must be absolute.
pub uninterp spec fn is_absolute_iri(s: Seq<char>) -> bool;

/// Relies on sophia::iri::is_absolute_iri_ref: the RFC 3987 `IRI`
/// grammar check (scheme and all); the verdict depends on the
/// characters of the string alone.
#[verifier::external_body]
pub(crate) fn check_absolute_iri(s: &str) -> (r: bool)
    ensures
        r == is_absolute_iri(s@),
{
    sophia::iri::is_absolute_iri_ref(s)
}

} // verus!
