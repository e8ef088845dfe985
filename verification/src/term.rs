//! RDF terms and triples as the graph builder emits them, and the
//! fixed RDF/SHACL/XSD vocabulary it draws from.

use vstd::prelude::*;
use crate::iri::is_absolute_iri;

verus! {

/// One position of a triple: a named resource, an anonymous
/// (blank-node) resource, or a non-negative integer literal.
#[derive(Debug, PartialEq, Eq)]
pub enum Term {
    /// A resource named by an IRI.
    Iri(String),
    /// An anonymous resource, identified by a blank-node label.
    Bnode(String),
    /// A cardinality bound, rendered as an `xsd:integer` literal.
    Count(usize),
}

/// The mathematical value of a [`Term`].
pub enum TermView {
    Iri(Seq<char>),
    Bnode(Seq<char>),
    Count(int),
}

impl View for Term {
    type V = TermView;

    open spec fn view(&self) -> TermView {
        match self {
            Term::Iri(s) => TermView::Iri(s@),
            Term::Bnode(b) => TermView::Bnode(b@),
            Term::Count(n) => TermView::Count(*n as int),
        }
    }
}

/// One subject-predicate-object statement.
#[derive(Debug, PartialEq, Eq)]
pub struct Triple {
    pub s: Term,
    pub p: Term,
    pub o: Term,
}

/// The mathematical value of a [`Triple`].
pub struct TripleView {
    pub s: TermView,
    pub p: TermView,
    pub o: TermView,
}

impl View for Triple {
    type V = TripleView;

    open spec fn view(&self) -> TripleView {
        TripleView { s: self.s@, p: self.p@, o: self.o@ }
    }
}

/// The values of a sequence of triples.
pub open spec fn triples_view(ts: Seq<Triple>) -> Seq<TripleView> {
    ts.map_values(|t: Triple| t@)
}

/// Whether `c` is a lowercase hexadecimal digit.
pub open spec fn is_hex_lower(c: char) -> bool {
    ('0' <= c && c <= '9') || ('a' <= c && c <= 'f')
}

/// Whether `c` is a decimal digit.
pub open spec fn is_dec_digit(c: char) -> bool {
    '0' <= c && c <= '9'
}

/// The character of one decimal digit.
pub open spec fn dec_digit_char(d: int) -> char {
    if d == 0 {
        '0'
    } else if d == 1 {
        '1'
    } else if d == 2 {
        '2'
    } else if d == 3 {
        '3'
    } else if d == 4 {
        '4'
    } else if d == 5 {
        '5'
    } else if d == 6 {
        '6'
    } else if d == 7 {
        '7'
    } else if d == 8 {
        '8'
    } else {
        '9'
    }
}

/// The decimal numeral of `n`, most significant digit first.
pub open spec fn dec_of(n: int) -> Seq<char>
    decreases n,
{
    if n < 10 {
        seq![dec_digit_char(n)]
    } else {
        dec_of(n / 10).push(dec_digit_char(n % 10))
    }
}

/// A numeral is non-empty and all digits.
pub proof fn lemma_dec_of_shape(n: int)
    requires
        0 <= n,
    ensures
        dec_of(n).len() >= 1,
        forall|i: int| 0 <= i < dec_of(n).len() ==> is_dec_digit(#[trigger] dec_of(n)[i]),
    decreases n,
{
    if n >= 10 {
        lemma_dec_of_shape(n / 10);
        assert forall|i: int| 0 <= i < dec_of(n).len() implies is_dec_digit(
            #[trigger] dec_of(n)[i],
        ) by {
            if i < dec_of(n / 10).len() {
                assert(dec_of(n)[i] == dec_of(n / 10)[i]);
            }
        }
    }
}

/// Distinct numbers have distinct decimal numerals.
pub proof fn lemma_dec_of_injective(a: int, b: int)
    requires
        0 <= a,
        0 <= b,
        a != b,
    ensures
        dec_of(a) != dec_of(b),
    decreases a + b,
{
    if a < 10 && b < 10 {
        assert(dec_of(a)[0] != dec_of(b)[0]);
    } else if a < 10 {
        lemma_dec_of_shape(b / 10);
        assert(dec_of(a).len() == 1);
        assert(dec_of(b).len() >= 2);
    } else if b < 10 {
        lemma_dec_of_shape(a / 10);
        assert(dec_of(b).len() == 1);
        assert(dec_of(a).len() >= 2);
    } else {
        if dec_of(a) == dec_of(b) {
            assert(dec_of(a).last() == dec_digit_char(a % 10));
            assert(dec_of(b).last() == dec_digit_char(b % 10));
            assert(a % 10 == b % 10);
            assert(a / 10 != b / 10);
            lemma_dec_of_injective(a / 10, b / 10);
            assert(dec_of(a).drop_last() =~= dec_of(a / 10));
            assert(dec_of(b).drop_last() =~= dec_of(b / 10));
            assert(false);
        }
    }
}

/// The shape of a hyphenated UUID string: 36 characters of
/// lowercase hexadecimal digits and hyphens, ending with a digit.
pub open spec fn uuid_hyphenated(s: Seq<char>) -> bool {
    &&& s.len() == 36
    &&& forall|i: int| 0 <= i < s.len() ==> is_hex_lower(#[trigger] s[i]) || s[i] == '-'
    &&& is_hex_lower(s[35])
}

/// The shape of a blank-node label the builder draws: a `b`, a
/// 36-character hyphenated UUID string of lowercase hexadecimal
/// digits and hyphens, a hyphen, and a non-empty decimal numeral.
/// Starting with a letter keeps the label valid both as a Turtle
/// blank-node label and as an XML NCName, which RDF/XML requires of
/// an `rdf:nodeID`; ending with a digit satisfies both grammars'
/// final-character rule.
pub open spec fn bnode_label_ok(s: Seq<char>) -> bool {
    &&& s.len() >= 39
    &&& s[0] == 'b'
    &&& forall|i: int| 1 <= i < 37 ==> is_hex_lower(#[trigger] s[i]) || s[i] == '-'
    &&& s[37] == '-'
    &&& forall|i: int| 38 <= i < s.len() ==> is_dec_digit(#[trigger] s[i])
}

/// The term shapes the builder emits, with every named term
/// well-formed: a subject that is an absolute IRI or a well-formed
/// blank-node label, an absolute-IRI predicate, and an object that
/// is an absolute IRI, a blank-node label, or (under a blank-node
/// subject) a count literal. The builder emits only such triples,
/// and the store accepts every one of them while its term index
/// has room.
pub open spec fn storable_triple(t: TripleView) -> bool {
    match (t.s, t.p, t.o) {
        (TermView::Iri(s), TermView::Iri(p), TermView::Iri(o)) => is_absolute_iri(s)
            && is_absolute_iri(p) && is_absolute_iri(o),
        (TermView::Iri(s), TermView::Iri(p), TermView::Bnode(b)) => is_absolute_iri(s)
            && is_absolute_iri(p) && bnode_label_ok(b),
        (TermView::Bnode(b), TermView::Iri(p), TermView::Iri(o)) => bnode_label_ok(b)
            && is_absolute_iri(p) && is_absolute_iri(o),
        (TermView::Bnode(b), TermView::Iri(p), TermView::Count(_)) => bnode_label_ok(b)
            && is_absolute_iri(p),
        _ => false,
    }
}

/// `rdf:type`.
pub open spec fn rdf_type() -> Seq<char> {
    "http://www.w3.org/1999/02/22-rdf-syntax-ns#type"@
}

/// `sh:NodeShape`.
pub open spec fn sh_node_shape() -> Seq<char> {
    "http://www.w3.org/ns/shacl#NodeShape"@
}

/// `sh:targetClass`.
pub open spec fn sh_target_class() -> Seq<char> {
    "http://www.w3.org/ns/shacl#targetClass"@
}

/// `sh:property`.
pub open spec fn sh_property() -> Seq<char> {
    "http://www.w3.org/ns/shacl#property"@
}

/// `sh:path`.
pub open spec fn sh_path() -> Seq<char> {
    "http://www.w3.org/ns/shacl#path"@
}

/// `sh:class`.
pub open spec fn sh_class() -> Seq<char> {
    "http://www.w3.org/ns/shacl#class"@
}

/// `sh:datatype`.
pub open spec fn sh_datatype() -> Seq<char> {
    "http://www.w3.org/ns/shacl#datatype"@
}

/// `sh:minCount`.
pub open spec fn sh_min_count() -> Seq<char> {
    "http://www.w3.org/ns/shacl#minCount"@
}

/// `sh:maxCount`.
pub open spec fn sh_max_count() -> Seq<char> {
    "http://www.w3.org/ns/shacl#maxCount"@
}

/// `xsd:integer`.
pub open spec fn xsd_integer() -> Seq<char> {
    "http://www.w3.org/2001/XMLSchema#integer"@
}

/// `xsd:string`.
pub open spec fn xsd_string() -> Seq<char> {
    "http://www.w3.org/2001/XMLSchema#string"@
}

/// `rdf:type`, as a runtime string.
pub fn rdf_type_iri() -> (r: &'static str)
    ensures
        r@ == rdf_type(),
{
    "http://www.w3.org/1999/02/22-rdf-syntax-ns#type"
}

/// `sh:NodeShape`, as a runtime string.
pub fn sh_node_shape_iri() -> (r: &'static str)
    ensures
        r@ == sh_node_shape(),
{
    "http://www.w3.org/ns/shacl#NodeShape"
}

/// `sh:targetClass`, as a runtime string.
pub fn sh_target_class_iri() -> (r: &'static str)
    ensures
        r@ == sh_target_class(),
{
    "http://www.w3.org/ns/shacl#targetClass"
}

/// `sh:property`, as a runtime string.
pub fn sh_property_iri() -> (r: &'static str)
    ensures
        r@ == sh_property(),
{
    "http://www.w3.org/ns/shacl#property"
}

/// `sh:path`, as a runtime string.
pub fn sh_path_iri() -> (r: &'static str)
    ensures
        r@ == sh_path(),
{
    "http://www.w3.org/ns/shacl#path"
}

/// `sh:class`, as a runtime string.
pub fn sh_class_iri() -> (r: &'static str)
    ensures
        r@ == sh_class(),
{
    "http://www.w3.org/ns/shacl#class"
}

/// `sh:datatype`, as a runtime string.
pub fn sh_datatype_iri() -> (r: &'static str)
    ensures
        r@ == sh_datatype(),
{
    "http://www.w3.org/ns/shacl#datatype"
}

/// `sh:minCount`, as a runtime string.
pub fn sh_min_count_iri() -> (r: &'static str)
    ensures
        r@ == sh_min_count(),
{
    "http://www.w3.org/ns/shacl#minCount"
}

/// `sh:maxCount`, as a runtime string.
pub fn sh_max_count_iri() -> (r: &'static str)
    ensures
        r@ == sh_max_count(),
{
    "http://www.w3.org/ns/shacl#maxCount"
}

/// `xsd:integer`, as a runtime string.
pub fn xsd_integer_iri() -> (r: &'static str)
    ensures
        r@ == xsd_integer(),
{
    "http://www.w3.org/2001/XMLSchema#integer"
}

/// `xsd:string`, as a runtime string.
pub fn xsd_string_iri() -> (r: &'static str)
    ensures
        r@ == xsd_string(),
{
    "http://www.w3.org/2001/XMLSchema#string"
}

} // verus!
