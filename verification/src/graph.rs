//! The in-memory RDF graph and its encoders, held behind trusted
//! wrappers around sophia, plus the blank-node label generator.

use vstd::prelude::*;
use crate::term::Term;
use crate::term::TermView;
use crate::term::Triple;
use crate::term::TripleView;
use crate::term::bnode_label_ok;
use crate::term::uuid_hyphenated;
use crate::term::is_hex_lower;
use crate::term::is_dec_digit;
use crate::term::dec_digit_char;
use crate::term::dec_of;
use crate::term::lemma_dec_of_shape;
use crate::term::lemma_dec_of_injective;
use crate::term::storable_triple;
use crate::iri::is_absolute_iri;

verus! {

/// The constructed shape graph: sophia's `LightGraph`, opaque to the
/// verifier and spoken of only through [`graph_triples`].
#[verifier::external_body]
pub struct ShapeGraph {
    inner: sophia::inmem::graph::LightGraph,
}

/// The set of triples a graph holds. `LightGraph` stores triples as
/// a set of interned-term index tuples, so its contents are a set of
/// term-level triples with no duplicates and no order.
pub uninterp spec fn graph_triples(g: ShapeGraph) -> Set<TripleView>;

/// How many distinct terms the graph has interned. The store
/// indexes terms by `u32`, so insertion can fail only when this
/// count reaches `u32::MAX`; each insertion interns at most three
/// new terms.
pub uninterp spec fn graph_term_count(g: ShapeGraph) -> int;

/// The Turtle text the encoder renders a graph as: a function of
/// the graph value alone.
pub uninterp spec fn ttl_render(g: ShapeGraph) -> Seq<char>;

/// The RDF/XML text the encoder renders a graph as: a function of
/// the graph value alone.
pub uninterp spec fn xml_render(g: ShapeGraph) -> Seq<char>;

/// Relies on GenericLightGraph::new: the new graph holds an empty
/// triple set and has interned no term.
#[verifier::external_body]
pub(crate) fn new_graph() -> (g: ShapeGraph)
    ensures
        graph_triples(g) == Set::<TripleView>::empty(),
        graph_term_count(g) == 0,
{
    ShapeGraph { inner: sophia::inmem::graph::LightGraph::new() }
}

/// Relies on GenericLightGraph::insert, with IriRef::new validating
/// the three IRIs: on success the triple set gains exactly this
/// triple (`true` when it was not there before); on any failure (an
/// invalid IRI, or a full term index) the triple set is unchanged.
/// The index (SimpleTermIndex) refuses a new term only once it
/// holds u32::MAX distinct terms, and an absolute IRI always passes
/// IriRef::new, so the call succeeds whenever the IRIs are absolute
/// and three indices are still free.
#[verifier::external_body]
fn insert_iri_iri_iri(
    g: &mut ShapeGraph,
    s: &str,
    p: &str,
    o: &str,
) -> (r: Result<bool, String>)
    ensures
        r matches Ok(b) ==> graph_triples(*final(g)) == graph_triples(*old(g)).insert(
            TripleView { s: TermView::Iri(s@), p: TermView::Iri(p@), o: TermView::Iri(o@) },
        ) && (b <==> !graph_triples(*old(g)).contains(
            TripleView { s: TermView::Iri(s@), p: TermView::Iri(p@), o: TermView::Iri(o@) },
        )),
        r matches Err(_) ==> graph_triples(*final(g)) == graph_triples(*old(g)),
        graph_term_count(*final(g)) <= graph_term_count(*old(g)) + 3,
        is_absolute_iri(s@) && is_absolute_iri(p@) && is_absolute_iri(o@) && graph_term_count(
            *old(g),
        ) + 3 <= u32::MAX as int ==> r matches Ok(_),
{
    let si = match sophia::api::term::IriRef::new(s) { Ok(x) => x, Err(e) => return Err(e.to_string()) };
    let pi = match sophia::api::term::IriRef::new(p) { Ok(x) => x, Err(e) => return Err(e.to_string()) };
    let oi = match sophia::api::term::IriRef::new(o) { Ok(x) => x, Err(e) => return Err(e.to_string()) };
    match sophia::api::graph::MutableGraph::insert(&mut g.inner, &si, &pi, &oi) {
        Ok(b) => Ok(b),
        Err(e) => Err(e.to_string()),
    }
}

/// Relies on GenericLightGraph::insert, with IriRef::new and
/// BnodeId::new validating the terms: on success the triple set
/// gains exactly this IRI-IRI-blank-node triple; on any failure it
/// is unchanged. A well-formed label always passes BnodeId::new's
/// BLANK_NODE_LABEL check, so the call succeeds whenever the terms
/// are well-formed and three term indices are still free.
#[verifier::external_body]
fn insert_iri_iri_bnode(
    g: &mut ShapeGraph,
    s: &str,
    p: &str,
    b: &str,
) -> (r: Result<bool, String>)
    ensures
        r matches Ok(bl) ==> graph_triples(*final(g)) == graph_triples(*old(g)).insert(
            TripleView { s: TermView::Iri(s@), p: TermView::Iri(p@), o: TermView::Bnode(b@) },
        ) && (bl <==> !graph_triples(*old(g)).contains(
            TripleView { s: TermView::Iri(s@), p: TermView::Iri(p@), o: TermView::Bnode(b@) },
        )),
        r matches Err(_) ==> graph_triples(*final(g)) == graph_triples(*old(g)),
        graph_term_count(*final(g)) <= graph_term_count(*old(g)) + 3,
        is_absolute_iri(s@) && is_absolute_iri(p@) && bnode_label_ok(b@) && graph_term_count(
            *old(g),
        ) + 3 <= u32::MAX as int ==> r matches Ok(_),
{
    let si = match sophia::api::term::IriRef::new(s) { Ok(x) => x, Err(e) => return Err(e.to_string()) };
    let pi = match sophia::api::term::IriRef::new(p) { Ok(x) => x, Err(e) => return Err(e.to_string()) };
    let bn = match sophia::api::term::BnodeId::new(b) { Ok(x) => x, Err(e) => return Err(e.to_string()) };
    match sophia::api::graph::MutableGraph::insert(&mut g.inner, &si, &pi, &bn) {
        Ok(x) => Ok(x),
        Err(e) => Err(e.to_string()),
    }
}

/// Relies on GenericLightGraph::insert, with BnodeId::new and
/// IriRef::new validating the terms: on success the triple set gains
/// exactly this blank-node-IRI-IRI triple; on any failure it is
/// unchanged. It succeeds whenever the terms are well-formed and
/// three term indices are still free.
#[verifier::external_body]
fn insert_bnode_iri_iri(
    g: &mut ShapeGraph,
    b: &str,
    p: &str,
    o: &str,
) -> (r: Result<bool, String>)
    ensures
        r matches Ok(bl) ==> graph_triples(*final(g)) == graph_triples(*old(g)).insert(
            TripleView { s: TermView::Bnode(b@), p: TermView::Iri(p@), o: TermView::Iri(o@) },
        ) && (bl <==> !graph_triples(*old(g)).contains(
            TripleView { s: TermView::Bnode(b@), p: TermView::Iri(p@), o: TermView::Iri(o@) },
        )),
        r matches Err(_) ==> graph_triples(*final(g)) == graph_triples(*old(g)),
        graph_term_count(*final(g)) <= graph_term_count(*old(g)) + 3,
        bnode_label_ok(b@) && is_absolute_iri(p@) && is_absolute_iri(o@) && graph_term_count(
            *old(g),
        ) + 3 <= u32::MAX as int ==> r matches Ok(_),
{
    let bn = match sophia::api::term::BnodeId::new(b) { Ok(x) => x, Err(e) => return Err(e.to_string()) };
    let pi = match sophia::api::term::IriRef::new(p) { Ok(x) => x, Err(e) => return Err(e.to_string()) };
    let oi = match sophia::api::term::IriRef::new(o) { Ok(x) => x, Err(e) => return Err(e.to_string()) };
    match sophia::api::graph::MutableGraph::insert(&mut g.inner, &bn, &pi, &oi) {
        Ok(x) => Ok(x),
        Err(e) => Err(e.to_string()),
    }
}

/// Relies on GenericLightGraph::insert, with BnodeId::new and
/// IriRef::new validating the named terms; a `usize` object is
/// interned as an `xsd:integer` literal (sophia's Term impl for
/// usize). On success the triple set gains exactly this triple; on
/// any failure it is unchanged. It succeeds whenever the named
/// terms are well-formed and three term indices are still free.
#[verifier::external_body]
fn insert_bnode_iri_count(
    g: &mut ShapeGraph,
    b: &str,
    p: &str,
    n: usize,
) -> (r: Result<bool, String>)
    ensures
        r matches Ok(bl) ==> graph_triples(*final(g)) == graph_triples(*old(g)).insert(
            TripleView { s: TermView::Bnode(b@), p: TermView::Iri(p@), o: TermView::Count(n as int) },
        ) && (bl <==> !graph_triples(*old(g)).contains(
            TripleView { s: TermView::Bnode(b@), p: TermView::Iri(p@), o: TermView::Count(n as int) },
        )),
        r matches Err(_) ==> graph_triples(*final(g)) == graph_triples(*old(g)),
        graph_term_count(*final(g)) <= graph_term_count(*old(g)) + 3,
        bnode_label_ok(b@) && is_absolute_iri(p@) && graph_term_count(*old(g)) + 3 <= u32::MAX
            as int ==> r matches Ok(_),
{
    let bn = match sophia::api::term::BnodeId::new(b) { Ok(x) => x, Err(e) => return Err(e.to_string()) };
    let pi = match sophia::api::term::IriRef::new(p) { Ok(x) => x, Err(e) => return Err(e.to_string()) };
    match sophia::api::graph::MutableGraph::insert(&mut g.inner, &bn, &pi, n) {
        Ok(x) => Ok(x),
        Err(e) => Err(e.to_string()),
    }
}

/// Adds one [`Triple`] to the graph, dispatching on the shape of its
/// terms. A term shape the builder never emits (a count as subject
/// or predicate, and the like) is rejected without touching the
/// graph.
pub(crate) fn insert_triple(
    g: &mut ShapeGraph,
    t: &Triple,
) -> (r: Result<bool, String>)
    ensures
        r matches Ok(b) ==> graph_triples(*final(g)) == graph_triples(*old(g)).insert(t@) && (b
            <==> !graph_triples(*old(g)).contains(t@)),
        r matches Err(_) ==> graph_triples(*final(g)) == graph_triples(*old(g)),
        graph_term_count(*final(g)) <= graph_term_count(*old(g)) + 3,
        storable_triple(t@) && graph_term_count(*old(g)) + 3 <= u32::MAX as int ==> r matches Ok(
            _,
        ),
{
    match (&t.s, &t.p, &t.o) {
        (Term::Iri(s), Term::Iri(p), Term::Iri(o)) => insert_iri_iri_iri(
            g,
            s.as_str(),
            p.as_str(),
            o.as_str(),
        ),
        (Term::Iri(s), Term::Iri(p), Term::Bnode(b)) => insert_iri_iri_bnode(
            g,
            s.as_str(),
            p.as_str(),
            b.as_str(),
        ),
        (Term::Bnode(b), Term::Iri(p), Term::Iri(o)) => insert_bnode_iri_iri(
            g,
            b.as_str(),
            p.as_str(),
            o.as_str(),
        ),
        (Term::Bnode(b), Term::Iri(p), Term::Count(n)) => insert_bnode_iri_count(
            g,
            b.as_str(),
            p.as_str(),
            *n,
        ),
        _ => Err(String::from_str("unsupported term shape")),
    }
}

/// Relies on uuid::Uuid::new_v4 and Uuid's Display impl: a freshly
/// drawn random 128-bit UUID, rendered hyphenated as 36 lowercase
/// hexadecimal digits and hyphens. The draw is random, so nothing
/// relates the results of two calls; it reads the operating
/// system's randomness source, and aborts if that source fails.
#[verifier::external_body]
fn fresh_uuid() -> (r: String)
    ensures
        uuid_hyphenated(r@),
{
    uuid::Uuid::new_v4().to_string()
}

/// One decimal digit as text.
fn dec_digit_str(d: usize) -> (r: &'static str)
    requires
        d < 10,
    ensures
        r@.len() == 1 && r@[0] == dec_digit_char(d as int),
{
    let r = match d {
        0 => "0",
        1 => "1",
        2 => "2",
        3 => "3",
        4 => "4",
        5 => "5",
        6 => "6",
        7 => "7",
        8 => "8",
        _ => "9",
    };
    proof {
        reveal_strlit("0");
        reveal_strlit("1");
        reveal_strlit("2");
        reveal_strlit("3");
        reveal_strlit("4");
        reveal_strlit("5");
        reveal_strlit("6");
        reveal_strlit("7");
        reveal_strlit("8");
        reveal_strlit("9");
    }
    r
}

/// The decimal numeral of `n`, most significant digit first.
fn dec_digits(n: usize) -> (r: String)
    ensures
        r@ == dec_of(n as int),
    decreases n,
{
    if n < 10 {
        let r = String::from_str(dec_digit_str(n));
        proof {
            assert(r@ =~= dec_of(n as int));
        }
        r
    } else {
        let mut r = dec_digits(n / 10);
        r.append(dec_digit_str(n % 10));
        proof {
            assert(r@ =~= dec_of(n as int));
        }
        r
    }
}

/// Draws the `i`-th fresh blank-node label of a build: a `b`, a
/// fresh UUID string, a hyphen, and the decimal numeral of `i`. The
/// numeral makes the labels of one build pairwise distinct whatever
/// the random draws return; the UUID part is what keeps two builds'
/// labels apart, as far as random draws go. Starting with a letter
/// keeps the label valid both in Turtle and as the XML NCName that
/// RDF/XML needs.
fn fresh_bnode_label(i: usize) -> (r: String)
    ensures
        bnode_label_ok(r@),
        r@.len() > 38,
        r@.subrange(38, r@.len() as int) == dec_of(i as int),
{
    let mut label = String::from_str("b");
    let u = fresh_uuid();
    label.append(u.as_str());
    label.append("-");
    let d = dec_digits(i);
    label.append(d.as_str());
    proof {
        reveal_strlit("b");
        reveal_strlit("-");
        lemma_dec_of_shape(i as int);
        assert(label@ =~= "b"@ + u@ + "-"@ + dec_of(i as int));
        assert(label@.subrange(38, label@.len() as int) =~= dec_of(i as int));
        assert forall|k: int| 1 <= k < 37 implies is_hex_lower(#[trigger] label@[k]) || label@[k]
            == '-' by {
            assert(label@[k] == u@[k - 1]);
        }
        assert forall|k: int| 38 <= k < label@.len() implies is_dec_digit(
            #[trigger] label@[k],
        ) by {
            assert(label@[k] == dec_of(i as int)[k - 38]);
        }
    }
    label
}

/// Draws `n` fresh blank-node labels, one per property shape to
/// come: pairwise distinct by their numeral suffix, each
/// well-formed; collisions of the UUID parts across builds are
/// counted on not to happen, they are not proved.
pub fn fresh_labels(n: usize) -> (r: Vec<String>)
    ensures
        r@.len() == n,
        forall|i: int| 0 <= i < n ==> bnode_label_ok(#[trigger] r@[i]@),
        forall|i: int, j: int| 0 <= i < j < n ==> r@[i]@ != r@[j]@,
{
    let mut labels: Vec<String> = Vec::new();
    for i in 0..n
        invariant
            labels@.len() == i,
            forall|k: int| 0 <= k < i ==> bnode_label_ok(#[trigger] labels@[k]@),
            forall|k: int| 0 <= k < i ==> (#[trigger] labels@[k]@).len() > 38,
            forall|k: int|
                0 <= k < i ==> (#[trigger] labels@[k]@).subrange(38, labels@[k]@.len() as int)
                    == dec_of(k),
    {
        labels.push(fresh_bnode_label(i));
    }
    proof {
        assert forall|i: int, j: int| 0 <= i < j < n implies labels@[i]@ != labels@[j]@ by {
            if labels@[i]@ == labels@[j]@ {
                lemma_dec_of_injective(i, j);
            }
        }
    }
    labels
}

/// Relies on TurtleSerializer::serialize_graph: the render is a
/// function of the graph value alone, and the encoder's only
/// failure path is an io error, which the in-memory buffer never
/// raises, so a graph of the builder's term shapes always renders.
#[verifier::external_body]
pub(crate) fn serialize_ttl_graph(g: &ShapeGraph) -> (r: Result<String, String>)
    ensures
        r matches Ok(t) ==> t@ == ttl_render(*g),
        (forall|t: TripleView| graph_triples(*g).contains(t) ==> storable_triple(t))
            ==> r matches Ok(_),
{
    let mut ser = sophia::turtle::serializer::turtle::TurtleSerializer::new_stringifier();
    match sophia::api::serializer::TripleSerializer::serialize_graph(&mut ser, &g.inner) {
        Ok(s) => Ok(sophia::api::serializer::Stringifier::to_string(s)),
        Err(e) => Err(e.to_string()),
    }
}

/// Relies on RdfXmlSerializer::serialize_graph, streaming through
/// rio's formatter: the render is a function of the graph value
/// alone; the formatter errs only on quoted-triple terms, which the
/// builder never emits (unsplittable predicate IRIs fall back to a
/// generic prefix instead of erring), and on io errors, which the
/// in-memory buffer never raises, so a graph of the builder's term
/// shapes always renders.
#[verifier::external_body]
pub(crate) fn serialize_xml_graph(g: &ShapeGraph) -> (r: Result<String, String>)
    ensures
        r matches Ok(t) ==> t@ == xml_render(*g),
        (forall|t: TripleView| graph_triples(*g).contains(t) ==> storable_triple(t))
            ==> r matches Ok(_),
{
    let mut ser = sophia::xml::serializer::RdfXmlSerializer::new_stringifier();
    match sophia::api::serializer::TripleSerializer::serialize_graph(&mut ser, &g.inner) {
        Ok(s) => Ok(sophia::api::serializer::Stringifier::to_string(s)),
        Err(e) => Err(e.to_string()),
    }
}

/// Relies on JsonLdSerializer::serialize_dataset, on the graph seen
/// as a dataset, with the default options (no loader, JSON-LD 1.1):
/// the engine fails only on other processing modes, on JSON
/// literals or on an io error, none of which the builder's term
/// shapes reach, so such a graph always renders. The text itself is
/// not named: the engine walks a hash map whose order varies from
/// run to run, so two renders of one graph can order their keys
/// differently.
#[verifier::external_body]
pub(crate) fn serialize_jsonld_graph(g: &ShapeGraph) -> (r: Result<String, String>)
    ensures
        (forall|t: TripleView| graph_triples(*g).contains(t) ==> storable_triple(t))
            ==> r matches Ok(_),
{
    let mut ser = sophia::jsonld::JsonLdSerializer::new_stringifier();
    let ds = sophia::api::graph::Graph::as_dataset(&g.inner);
    match sophia::api::serializer::QuadSerializer::serialize_dataset(&mut ser, &ds) {
        Ok(s) => Ok(sophia::api::serializer::Stringifier::to_string(s)),
        Err(e) => Err(e.to_string()),
    }
}

} // verus!
