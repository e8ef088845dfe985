//! A named node shape, its translation into RDF triples, and its
//! rendering in the three supported serializations.

use vstd::prelude::*;
use crate::error::ParseError;
use crate::graph::ShapeGraph;
use crate::graph::graph_triples;
use crate::graph::graph_term_count;
use crate::graph::ttl_render;
use crate::graph::xml_render;
use crate::graph::new_graph;
use crate::graph::insert_triple;
use crate::graph::fresh_labels;
use crate::graph::serialize_ttl_graph;
use crate::graph::serialize_xml_graph;
use crate::graph::serialize_jsonld_graph;
use crate::iri::is_absolute_iri;
use crate::iri::check_absolute_iri;
use crate::property::DataType;
use crate::property::property_iris_absolute;
use crate::property::Property;
use crate::property::PropertyView;
use crate::property::TargetType;
use crate::property::TargetTypeView;
use crate::term::Term;
use crate::term::TermView;
use crate::term::Triple;
use crate::term::TripleView;
use crate::term::bnode_label_ok;
use crate::term::storable_triple;
use crate::term::triples_view;
use crate::term::rdf_type;
use crate::term::sh_node_shape;
use crate::term::sh_target_class;
use crate::term::sh_property;
use crate::term::sh_path;
use crate::term::sh_class;
use crate::term::sh_datatype;
use crate::term::sh_min_count;
use crate::term::sh_max_count;
use crate::term::xsd_integer;
use crate::term::xsd_string;
use crate::term::rdf_type_iri;
use crate::term::sh_node_shape_iri;
use crate::term::sh_target_class_iri;
use crate::term::sh_property_iri;
use crate::term::sh_path_iri;
use crate::term::sh_class_iri;
use crate::term::sh_datatype_iri;
use crate::term::sh_min_count_iri;
use crate::term::sh_max_count_iri;
use crate::term::xsd_integer_iri;
use crate::term::xsd_string_iri;

verus! {

/// The three serializations a shape graph can be rendered in.
#[derive(Debug, Clone, Copy, PartialEq, Eq)]
pub enum Serializer {
    Ttl,
    Jsonld,
    Xml,
}

/// The mathematical value of a [`NodeShape`].
pub struct NodeShapeView {
    pub shape_uri: Seq<char>,
    pub target_class: Seq<char>,
    pub properties: Seq<PropertyView>,
}

/// The values of a sequence of properties.
pub open spec fn properties_view(ps: Seq<Property>) -> Seq<PropertyView> {
    ps.map_values(|p: Property| p@)
}

/// The values of a sequence of blank-node labels.
pub open spec fn labels_view(ls: Seq<String>) -> Seq<Seq<char>> {
    ls.map_values(|l: String| l@)
}

/// A triple out of three term values.
pub open spec fn triple_v(s: TermView, p: TermView, o: TermView) -> TripleView {
    TripleView { s, p, o }
}

/// The XML Schema datatype IRI a [`DataType`] maps to.
pub open spec fn xsd_of(dt: DataType) -> Seq<char> {
    match dt {
        DataType::Integer => xsd_integer(),
        DataType::String => xsd_string(),
    }
}

/// The first `n` class-membership triples of the property shape with
/// blank node `b`: one `sh:class` triple per class, in list order.
pub open spec fn class_triples(b: Seq<char>, cs: Seq<Seq<char>>, n: int) -> Seq<TripleView>
    decreases n,
{
    if n <= 0 {
        Seq::empty()
    } else {
        class_triples(b, cs, n - 1).push(
            triple_v(TermView::Bnode(b), TermView::Iri(sh_class()), TermView::Iri(cs[n - 1])),
        )
    }
}

/// The triples a target constraint emits on the property shape with
/// blank node `b`: its `sh:class` triples, or its one `sh:datatype`
/// triple.
pub open spec fn target_triples(b: Seq<char>, t: TargetTypeView) -> Seq<TripleView> {
    match t {
        TargetTypeView::Class(cs) => class_triples(b, cs, cs.len() as int),
        TargetTypeView::DataType(dt) => seq![
            triple_v(TermView::Bnode(b), TermView::Iri(sh_datatype()), TermView::Iri(xsd_of(dt))),
        ],
    }
}

/// The cardinality triples of the property shape with blank node
/// `b`: `sh:minCount` then `sh:maxCount`, each only when set.
pub open spec fn bound_triples(b: Seq<char>, p: PropertyView) -> Seq<TripleView> {
    (match p.min_count {
        Some(n) => seq![
            triple_v(TermView::Bnode(b), TermView::Iri(sh_min_count()), TermView::Count(n)),
        ],
        None => Seq::empty(),
    }) + (match p.max_count {
        Some(n) => seq![
            triple_v(TermView::Bnode(b), TermView::Iri(sh_max_count()), TermView::Count(n)),
        ],
        None => Seq::empty(),
    })
}

/// All the triples one property emits: the `sh:property` link from
/// the shape, the `sh:path` triple, and, when a target is present,
/// the target triples followed by the cardinality triples. A
/// property without a target emits no cardinality triples.
pub open spec fn property_block(shape_uri: Seq<char>, p: PropertyView, b: Seq<char>) -> Seq<
    TripleView,
> {
    seq![
        triple_v(TermView::Iri(shape_uri), TermView::Iri(sh_property()), TermView::Bnode(b)),
        triple_v(TermView::Bnode(b), TermView::Iri(sh_path()), TermView::Iri(p.path)),
    ] + (match p.target {
        Some(t) => target_triples(b, t) + bound_triples(b, p),
        None => Seq::empty(),
    })
}

/// The triples of the first `n` properties, each under its own blank
/// node, in sequence order.
pub open spec fn property_blocks(
    shape_uri: Seq<char>,
    ps: Seq<PropertyView>,
    labels: Seq<Seq<char>>,
    n: int,
) -> Seq<TripleView>
    decreases n,
{
    if n <= 0 {
        Seq::empty()
    } else {
        property_blocks(shape_uri, ps, labels, n - 1) + property_block(
            shape_uri,
            ps[n - 1],
            labels[n - 1],
        )
    }
}

/// Every triple of the shape graph, in emission order: the
/// `rdf:type` triple, the `sh:targetClass` triple, then each
/// property's block. `labels` gives the blank-node label of each
/// property shape.
pub open spec fn shape_triples(ns: NodeShapeView, labels: Seq<Seq<char>>) -> Seq<TripleView> {
    seq![
        triple_v(
            TermView::Iri(ns.shape_uri),
            TermView::Iri(rdf_type()),
            TermView::Iri(sh_node_shape()),
        ),
        triple_v(
            TermView::Iri(ns.shape_uri),
            TermView::Iri(sh_target_class()),
            TermView::Iri(ns.target_class),
        ),
    ] + property_blocks(ns.shape_uri, ns.properties, labels, ns.properties.len() as int)
}

/// Whether every vocabulary constant is an absolute IRI. They all
/// are, but the validator's verdict on a literal is uninterpreted
/// here, so contracts carry the fact as a hypothesis and
/// [`vocabulary_is_absolute`] establishes it at runtime.
pub open spec fn vocabulary_absolute() -> bool {
    &&& is_absolute_iri(rdf_type())
    &&& is_absolute_iri(sh_node_shape())
    &&& is_absolute_iri(sh_target_class())
    &&& is_absolute_iri(sh_property())
    &&& is_absolute_iri(sh_path())
    &&& is_absolute_iri(sh_class())
    &&& is_absolute_iri(sh_datatype())
    &&& is_absolute_iri(sh_min_count())
    &&& is_absolute_iri(sh_max_count())
    &&& is_absolute_iri(xsd_integer())
    &&& is_absolute_iri(xsd_string())
}

/// Runs the absolute-IRI validator over every vocabulary constant.
/// It returns true, and with it the fact that the success promises
/// of [`NodeShape::build_graph`] and [`NodeShape::to_shacl_string`]
/// hypothesise.
pub fn vocabulary_is_absolute() -> (b: bool)
    ensures
        b == vocabulary_absolute(),
{
    check_absolute_iri(rdf_type_iri()) && check_absolute_iri(sh_node_shape_iri())
        && check_absolute_iri(sh_target_class_iri()) && check_absolute_iri(sh_property_iri())
        && check_absolute_iri(sh_path_iri()) && check_absolute_iri(sh_class_iri())
        && check_absolute_iri(sh_datatype_iri()) && check_absolute_iri(sh_min_count_iri())
        && check_absolute_iri(sh_max_count_iri()) && check_absolute_iri(xsd_integer_iri())
        && check_absolute_iri(xsd_string_iri())
}

/// How many triples one property emits.
pub open spec fn property_triple_count(p: PropertyView) -> int {
    2 + (match p.target {
        Some(t) => (match t {
            TargetTypeView::Class(cs) => cs.len() as int,
            TargetTypeView::DataType(_) => 1int,
        }) + (if p.min_count is Some {
            1int
        } else {
            0
        }) + (if p.max_count is Some {
            1int
        } else {
            0
        }),
        None => 0,
    })
}

/// How many triples the first `n` properties emit.
pub open spec fn properties_triple_count(ps: Seq<PropertyView>, n: int) -> int
    decreases n,
{
    if n <= 0 {
        0
    } else {
        properties_triple_count(ps, n - 1) + property_triple_count(ps[n - 1])
    }
}

/// How many triples the whole shape emits: a function of the shape
/// alone, whatever blank-node labels a build draws.
pub open spec fn shape_triple_count(ns: NodeShapeView) -> int {
    2 + properties_triple_count(ns.properties, ns.properties.len() as int)
}

/// The classes named by the class targets of the first `n`
/// properties, counted with multiplicity.
pub open spec fn class_target_total(ps: Seq<PropertyView>, n: int) -> int
    decreases n,
{
    if n <= 0 {
        0
    } else {
        class_target_total(ps, n - 1) + (match ps[n - 1].target {
            Some(TargetTypeView::Class(cs)) => cs.len() as int,
            _ => 0,
        })
    }
}

/// How many of the first `n` properties carry a datatype target.
pub open spec fn datatype_target_count(ps: Seq<PropertyView>, n: int) -> int
    decreases n,
{
    if n <= 0 {
        0
    } else {
        datatype_target_count(ps, n - 1) + (match ps[n - 1].target {
            Some(TargetTypeView::DataType(_)) => 1int,
            _ => 0,
        })
    }
}

/// How many of the first `n` properties carry a minimum bound.
pub open spec fn min_bound_count(ps: Seq<PropertyView>, n: int) -> int
    decreases n,
{
    if n <= 0 {
        0
    } else {
        min_bound_count(ps, n - 1) + (if ps[n - 1].min_count is Some {
            1int
        } else {
            0
        })
    }
}

/// How many of the first `n` properties carry a maximum bound.
pub open spec fn max_bound_count(ps: Seq<PropertyView>, n: int) -> int
    decreases n,
{
    if n <= 0 {
        0
    } else {
        max_bound_count(ps, n - 1) + (if ps[n - 1].max_count is Some {
            1int
        } else {
            0
        })
    }
}

/// The class-triple sequence of a property shape has one triple per
/// listed class.
proof fn lemma_class_triples_len(b: Seq<char>, cs: Seq<Seq<char>>, n: int)
    requires
        0 <= n,
    ensures
        class_triples(b, cs, n).len() == n,
    decreases n,
{
    if n > 0 {
        lemma_class_triples_len(b, cs, n - 1);
    }
}

/// The block sizes add up: the blocks of the first `n` properties
/// hold [`properties_triple_count`] triples, whatever the labels.
proof fn lemma_blocks_len(shape_uri: Seq<char>, ps: Seq<PropertyView>, labels: Seq<Seq<char>>, n: int)
    requires
        0 <= n,
    ensures
        property_blocks(shape_uri, ps, labels, n).len() == properties_triple_count(ps, n),
    decreases n,
{
    if n > 0 {
        lemma_blocks_len(shape_uri, ps, labels, n - 1);
        match ps[n - 1].target {
            Some(TargetTypeView::Class(cs)) => {
                lemma_class_triples_len(labels[n - 1], cs, cs.len() as int);
            },
            _ => {},
        }
    }
}

/// The translation's size is [`shape_triple_count`], independent of
/// the labels drawn.
pub proof fn lemma_shape_triples_len(ns: NodeShapeView, labels: Seq<Seq<char>>)
    ensures
        shape_triples(ns, labels).len() == shape_triple_count(ns),
{
    lemma_blocks_len(ns.shape_uri, ns.properties, labels, ns.properties.len() as int);
}

/// Every class triple of a property shape is storable when its
/// label, the class IRIs and `sh:class` are well-formed.
proof fn lemma_class_triples_storable(b: Seq<char>, cs: Seq<Seq<char>>, n: int)
    requires
        0 <= n <= cs.len(),
        bnode_label_ok(b),
        is_absolute_iri(sh_class()),
        forall|i: int| 0 <= i < cs.len() ==> is_absolute_iri(#[trigger] cs[i]),
    ensures
        forall|k: int| 0 <= k < n ==> storable_triple(#[trigger] class_triples(b, cs, n)[k]),
    decreases n,
{
    lemma_class_triples_len(b, cs, n);
    if n > 0 {
        lemma_class_triples_storable(b, cs, n - 1);
        lemma_class_triples_len(b, cs, n - 1);
        assert forall|k: int| 0 <= k < n implies storable_triple(
            #[trigger] class_triples(b, cs, n)[k],
        ) by {
            if k < n - 1 {
                assert(class_triples(b, cs, n)[k] == class_triples(b, cs, n - 1)[k]);
            } else {
                assert(class_triples(b, cs, n)[k] == triple_v(
                    TermView::Bnode(b),
                    TermView::Iri(sh_class()),
                    TermView::Iri(cs[n - 1]),
                ));
            }
        }
    }
}

/// Every triple of one property's block is storable when the shape
/// IRI, the property's IRIs, the label and the vocabulary are
/// well-formed.
proof fn lemma_block_storable(shape_uri: Seq<char>, p: PropertyView, b: Seq<char>)
    requires
        vocabulary_absolute(),
        is_absolute_iri(shape_uri),
        bnode_label_ok(b),
        property_iris_absolute(p),
    ensures
        forall|k: int|
            0 <= k < property_block(shape_uri, p, b).len() ==> storable_triple(
                #[trigger] property_block(shape_uri, p, b)[k],
            ),
{
    let block = property_block(shape_uri, p, b);
    assert forall|k: int| 0 <= k < block.len() implies storable_triple(block[k]) by {
        if k >= 2 {
            match p.target {
                Some(t) => {
                    let tgt = target_triples(b, t);
                    let bnd = bound_triples(b, p);
                    if k - 2 < tgt.len() {
                        match t {
                            TargetTypeView::Class(cs) => {
                                lemma_class_triples_len(b, cs, cs.len() as int);
                                lemma_class_triples_storable(b, cs, cs.len() as int);
                                assert(block[k] == class_triples(b, cs, cs.len() as int)[k - 2]);
                            },
                            TargetTypeView::DataType(_) => {
                                assert(block[k] == tgt[0]);
                            },
                        }
                    } else {
                        assert(block[k] == bnd[k - 2 - tgt.len()]);
                    }
                },
                None => {},
            }
        }
    }
}

/// Every triple of the first `n` blocks is storable.
proof fn lemma_blocks_storable(
    shape_uri: Seq<char>,
    ps: Seq<PropertyView>,
    labels: Seq<Seq<char>>,
    n: int,
)
    requires
        vocabulary_absolute(),
        is_absolute_iri(shape_uri),
        0 <= n <= ps.len(),
        n <= labels.len(),
        forall|i: int| 0 <= i < n ==> property_iris_absolute(#[trigger] ps[i]),
        forall|i: int| 0 <= i < n ==> bnode_label_ok(#[trigger] labels[i]),
    ensures
        forall|k: int|
            0 <= k < property_blocks(shape_uri, ps, labels, n).len() ==> storable_triple(
                #[trigger] property_blocks(shape_uri, ps, labels, n)[k],
            ),
    decreases n,
{
    if n > 0 {
        lemma_blocks_storable(shape_uri, ps, labels, n - 1);
        lemma_block_storable(shape_uri, ps[n - 1], labels[n - 1]);
        let whole = property_blocks(shape_uri, ps, labels, n);
        let prefix = property_blocks(shape_uri, ps, labels, n - 1);
        assert forall|k: int| 0 <= k < whole.len() implies storable_triple(whole[k]) by {
            if k < prefix.len() {
                assert(whole[k] == prefix[k]);
            } else {
                assert(whole[k] == property_block(shape_uri, ps[n - 1], labels[n - 1])[k
                    - prefix.len()]);
            }
        }
    }
}

/// Every triple of the translation is storable: the shape's and
/// the properties' IRIs are absolute, the vocabulary is absolute,
/// and the labels are well-formed.
proof fn lemma_shape_storable(ns: NodeShapeView, labels: Seq<Seq<char>>)
    requires
        vocabulary_absolute(),
        is_absolute_iri(ns.shape_uri),
        is_absolute_iri(ns.target_class),
        ns.properties.len() <= labels.len(),
        forall|i: int|
            0 <= i < ns.properties.len() ==> property_iris_absolute(#[trigger] ns.properties[i]),
        forall|i: int| 0 <= i < ns.properties.len() ==> bnode_label_ok(#[trigger] labels[i]),
    ensures
        forall|k: int|
            0 <= k < shape_triples(ns, labels).len() ==> storable_triple(
                #[trigger] shape_triples(ns, labels)[k],
            ),
{
    lemma_blocks_storable(ns.shape_uri, ns.properties, labels, ns.properties.len() as int);
    let ts = shape_triples(ns, labels);
    let blocks = property_blocks(ns.shape_uri, ns.properties, labels, ns.properties.len() as int);
    assert forall|k: int| 0 <= k < ts.len() implies storable_triple(ts[k]) by {
        if k >= 2 {
            assert(ts[k] == blocks[k - 2]);
        }
    }
}

/// The blocks of the first `n` properties, when each of them has a
/// target, hold two triples per property plus its target and bound
/// triples.
proof fn lemma_blocks_count(
    shape_uri: Seq<char>,
    ps: Seq<PropertyView>,
    labels: Seq<Seq<char>>,
    n: int,
)
    requires
        0 <= n <= ps.len(),
        forall|i: int| 0 <= i < n ==> (#[trigger] ps[i]).target is Some,
    ensures
        property_blocks(shape_uri, ps, labels, n).len() == 2 * n + class_target_total(ps, n)
            + datatype_target_count(ps, n) + min_bound_count(ps, n) + max_bound_count(ps, n),
    decreases n,
{
    if n > 0 {
        lemma_blocks_count(shape_uri, ps, labels, n - 1);
        let p = ps[n - 1];
        match p.target {
            Some(TargetTypeView::Class(cs)) => {
                lemma_class_triples_len(labels[n - 1], cs, cs.len() as int);
            },
            _ => {},
        }
    }
}

/// Triple-count law: a shape with `k` properties, each carrying a
/// target, translates to exactly
/// `2 + 2*k + (total size of the class targets)
///  + (number of datatype targets) + (number of minimum bounds)
///  + (number of maximum bounds)` triples,
/// whatever blank-node labels the build draws.
pub proof fn lemma_triple_count(ns: NodeShapeView, labels: Seq<Seq<char>>)
    requires
        forall|i: int|
            0 <= i < ns.properties.len() ==> (#[trigger] ns.properties[i]).target is Some,
    ensures
        shape_triples(ns, labels).len() == 2 + 2 * ns.properties.len() + class_target_total(
            ns.properties,
            ns.properties.len() as int,
        ) + datatype_target_count(ns.properties, ns.properties.len() as int) + min_bound_count(
            ns.properties,
            ns.properties.len() as int,
        ) + max_bound_count(ns.properties, ns.properties.len() as int),
{
    lemma_blocks_count(ns.shape_uri, ns.properties, labels, ns.properties.len() as int);
}

/// Whether the triple mentions the blank node labelled `x` in any
/// position.
pub open spec fn uses_bnode(t: TripleView, x: Seq<char>) -> bool {
    t.s == TermView::Bnode(x) || t.p == TermView::Bnode(x) || t.o == TermView::Bnode(x)
}

/// The labels of all the blank nodes a triple sequence mentions.
pub open spec fn bnode_labels(ts: Seq<TripleView>) -> Set<Seq<char>> {
    Set::new(|x: Seq<char>| exists|k: int| 0 <= k < ts.len() && uses_bnode(#[trigger] ts[k], x))
}

/// Every blank node of a class-triple sequence is the property
/// shape's own.
proof fn lemma_class_triples_bnodes(b: Seq<char>, cs: Seq<Seq<char>>, n: int, x: Seq<char>)
    requires
        0 <= n,
        exists|k: int| 0 <= k < n && uses_bnode(#[trigger] class_triples(b, cs, n)[k], x),
    ensures
        x == b,
    decreases n,
{
    lemma_class_triples_len(b, cs, n);
    let k = choose|k: int| 0 <= k < n && uses_bnode(#[trigger] class_triples(b, cs, n)[k], x);
    if k == n - 1 {
        assert(class_triples(b, cs, n)[k] == triple_v(
            TermView::Bnode(b),
            TermView::Iri(sh_class()),
            TermView::Iri(cs[n - 1]),
        ));
    } else {
        lemma_class_triples_len(b, cs, n - 1);
        assert(class_triples(b, cs, n)[k] == class_triples(b, cs, n - 1)[k]);
        lemma_class_triples_bnodes(b, cs, n - 1, x);
    }
}

/// Every blank node of one property's block is the block's own.
proof fn lemma_block_bnodes(shape_uri: Seq<char>, p: PropertyView, b: Seq<char>, x: Seq<char>)
    requires
        exists|k: int|
            0 <= k < property_block(shape_uri, p, b).len() && uses_bnode(
                #[trigger] property_block(shape_uri, p, b)[k],
                x,
            ),
    ensures
        x == b,
{
    let block = property_block(shape_uri, p, b);
    let k = choose|k: int| 0 <= k < block.len() && uses_bnode(#[trigger] block[k], x);
    if k >= 2 {
        match p.target {
            Some(t) => {
                let tgt = target_triples(b, t);
                let bnd = bound_triples(b, p);
                if k - 2 < tgt.len() {
                    match t {
                        TargetTypeView::Class(cs) => {
                            lemma_class_triples_len(b, cs, cs.len() as int);
                            assert(0 <= k - 2 < cs.len() as int && uses_bnode(
                                class_triples(b, cs, cs.len() as int)[k - 2],
                                x,
                            ));
                            lemma_class_triples_bnodes(b, cs, cs.len() as int, x);
                        },
                        TargetTypeView::DataType(_) => {
                            assert(block[k] == tgt[0]);
                        },
                    }
                } else {
                    assert(uses_bnode(bnd[k - 2 - tgt.len()], x));
                }
            },
            None => {},
        }
    }
}

/// Every blank node of the translated shape is one of the labels of
/// its first `n` properties.
proof fn lemma_blocks_bnodes(
    shape_uri: Seq<char>,
    ps: Seq<PropertyView>,
    labels: Seq<Seq<char>>,
    n: int,
    x: Seq<char>,
)
    requires
        0 <= n,
        exists|k: int|
            0 <= k < property_blocks(shape_uri, ps, labels, n).len() && uses_bnode(
                #[trigger] property_blocks(shape_uri, ps, labels, n)[k],
                x,
            ),
    ensures
        exists|i: int| 0 <= i < n && labels[i] == x,
    decreases n,
{
    let whole = property_blocks(shape_uri, ps, labels, n);
    let k = choose|k: int| 0 <= k < whole.len() && uses_bnode(#[trigger] whole[k], x);
    let prefix = property_blocks(shape_uri, ps, labels, n - 1);
    if k < prefix.len() {
        assert(whole[k] == prefix[k]);
        lemma_blocks_bnodes(shape_uri, ps, labels, n - 1, x);
    } else {
        assert(uses_bnode(property_block(shape_uri, ps[n - 1], labels[n - 1])[k - prefix.len()], x));
        lemma_block_bnodes(shape_uri, ps[n - 1], labels[n - 1], x);
        assert(labels[n - 1] == x);
    }
}

/// Every blank node of a shape's translation carries one of the
/// build's labels.
pub proof fn lemma_bnodes_from_labels(ns: NodeShapeView, labels: Seq<Seq<char>>, x: Seq<char>)
    requires
        bnode_labels(shape_triples(ns, labels)).contains(x),
    ensures
        exists|i: int| 0 <= i < ns.properties.len() && labels[i] == x,
{
    let ts = shape_triples(ns, labels);
    let k = choose|k: int| 0 <= k < ts.len() && uses_bnode(#[trigger] ts[k], x);
    assert(k >= 2) by {
        if k < 2 {
            assert(!uses_bnode(ts[k], x));
        }
    }
    let blocks = property_blocks(ns.shape_uri, ns.properties, labels, ns.properties.len() as int);
    assert(uses_bnode(blocks[k - 2], x));
    lemma_blocks_bnodes(ns.shape_uri, ns.properties, labels, ns.properties.len() as int, x);
}

/// Blank-node freshness: two builds whose blank-node label draws
/// share no label - as independent draws from a 128-bit random
/// space are counted on to do - translate to graphs that share no
/// blank node, whether they are builds of the same shape or of
/// different ones.
pub proof fn lemma_blank_node_freshness(
    ns1: NodeShapeView,
    labels1: Seq<Seq<char>>,
    ns2: NodeShapeView,
    labels2: Seq<Seq<char>>,
)
    requires
        forall|i: int, j: int|
            0 <= i < ns1.properties.len() && 0 <= j < ns2.properties.len()
                ==> labels1[i] != labels2[j],
    ensures
        bnode_labels(shape_triples(ns1, labels1)).disjoint(bnode_labels(
            shape_triples(ns2, labels2),
        )),
{
    assert forall|x: Seq<char>|
        bnode_labels(shape_triples(ns1, labels1)).contains(x) implies !bnode_labels(
        shape_triples(ns2, labels2),
    ).contains(x) by {
        lemma_bnodes_from_labels(ns1, labels1, x);
        if bnode_labels(shape_triples(ns2, labels2)).contains(x) {
            lemma_bnodes_from_labels(ns2, labels2, x);
        }
    }
}

/// Whether a property's class-target list names no class twice.
pub open spec fn class_list_unique(p: PropertyView) -> bool {
    match p.target {
        Some(TargetTypeView::Class(cs)) => forall|x: int, y: int|
            0 <= x < y < cs.len() ==> cs[x] != cs[y],
        _ => true,
    }
}

/// The shape of every triple of one property's block: it sits under
/// the block's blank node, or it is the `sh:property` link, whose
/// object is that blank node.
pub open spec fn block_shaped(t: TripleView, shape_uri: Seq<char>, b: Seq<char>) -> bool {
    t.s == TermView::Bnode(b) || (t.s == TermView::Iri(shape_uri) && t.o == TermView::Bnode(b))
}

/// The vocabulary constants this proof tells apart are pairwise
/// distinct strings.
proof fn lemma_vocab_distinct()
    ensures
        rdf_type() != sh_target_class(),
        sh_path() != sh_class(),
        sh_path() != sh_datatype(),
        sh_path() != sh_min_count(),
        sh_path() != sh_max_count(),
        sh_class() != sh_min_count(),
        sh_class() != sh_max_count(),
        sh_datatype() != sh_min_count(),
        sh_datatype() != sh_max_count(),
        sh_min_count() != sh_max_count(),
{
    reveal_strlit("http://www.w3.org/1999/02/22-rdf-syntax-ns#type");
    reveal_strlit("http://www.w3.org/ns/shacl#targetClass");
    reveal_strlit("http://www.w3.org/ns/shacl#path");
    reveal_strlit("http://www.w3.org/ns/shacl#class");
    reveal_strlit("http://www.w3.org/ns/shacl#datatype");
    reveal_strlit("http://www.w3.org/ns/shacl#minCount");
    reveal_strlit("http://www.w3.org/ns/shacl#maxCount");
    assert(rdf_type().len() != sh_target_class().len());
    assert(sh_path().len() != sh_class().len());
    assert(sh_path().len() != sh_datatype().len());
    assert(sh_path().len() != sh_min_count().len());
    assert(sh_path().len() != sh_max_count().len());
    assert(sh_class().len() != sh_min_count().len());
    assert(sh_class().len() != sh_max_count().len());
    assert(sh_min_count()[28] != sh_max_count()[28]);
    assert(sh_datatype()[27] != sh_min_count()[27]);
    assert(sh_datatype()[27] != sh_max_count()[27]);
}

/// Each class triple, by index.
proof fn lemma_class_triples_index(b: Seq<char>, cs: Seq<Seq<char>>, n: int, k: int)
    requires
        0 <= k < n,
    ensures
        class_triples(b, cs, n).len() == n,
        class_triples(b, cs, n)[k] == triple_v(
            TermView::Bnode(b),
            TermView::Iri(sh_class()),
            TermView::Iri(cs[k]),
        ),
    decreases n,
{
    lemma_class_triples_len(b, cs, n);
    if k < n - 1 {
        lemma_class_triples_index(b, cs, n - 1, k);
        lemma_class_triples_len(b, cs, n - 1);
    }
}

/// Two distinct positions of one property's block hold distinct
/// triples, when the class list repeats no class.
proof fn lemma_block_pair(shape_uri: Seq<char>, p: PropertyView, b: Seq<char>, k1: int, k2: int)
    requires
        class_list_unique(p),
        0 <= k1 < k2 < property_block(shape_uri, p, b).len(),
    ensures
        property_block(shape_uri, p, b)[k1] != property_block(shape_uri, p, b)[k2],
{
    lemma_vocab_distinct();
    let block = property_block(shape_uri, p, b);
    if k1 == 0 {
        // The link's subject is the shape IRI; every later triple
        // sits under the blank node.
        assert(block[k1].s == TermView::Iri(shape_uri));
        lemma_block_subject(shape_uri, p, b, k2);
    } else {
        lemma_block_subject(shape_uri, p, b, k1);
        lemma_block_subject(shape_uri, p, b, k2);
        if k1 == 1 {
            // The path triple's predicate differs from every
            // target or bound predicate.
            assert(block[k1].p == TermView::Iri(sh_path()));
            lemma_block_tail_pred(shape_uri, p, b, k2);
        } else {
            match p.target {
                Some(t) => {
                    let tgt = target_triples(b, t);
                    let bnd = bound_triples(b, p);
                    if k2 - 2 < tgt.len() {
                        // Two class triples: distinct classes.
                        match t {
                            TargetTypeView::Class(cs) => {
                                lemma_class_triples_len(b, cs, cs.len() as int);
                                lemma_class_triples_index(b, cs, cs.len() as int, k1 - 2);
                                lemma_class_triples_index(b, cs, cs.len() as int, k2 - 2);
                                assert(block[k1] == class_triples(b, cs, cs.len() as int)[k1 - 2]);
                                assert(block[k2] == class_triples(b, cs, cs.len() as int)[k2 - 2]);
                                assert(cs[k1 - 2] != cs[k2 - 2]);
                            },
                            TargetTypeView::DataType(_) => {
                                assert(false);
                            },
                        }
                    } else if k1 - 2 < tgt.len() {
                        // A target triple against a bound triple:
                        // predicates differ.
                        lemma_block_tgt_pred(shape_uri, p, b, k1);
                        lemma_block_bnd_pred(shape_uri, p, b, k2);
                    } else {
                        // Two bound triples: minimum then maximum.
                        assert(block[k1] == bnd[k1 - 2 - tgt.len()]);
                        assert(block[k2] == bnd[k2 - 2 - tgt.len()]);
                        assert(block[k1].p == TermView::Iri(sh_min_count()));
                        assert(block[k2].p == TermView::Iri(sh_max_count()));
                    }
                },
                None => {
                    assert(false);
                },
            }
        }
    }
}

/// Every block triple after the link sits under the blank node.
proof fn lemma_block_subject(shape_uri: Seq<char>, p: PropertyView, b: Seq<char>, k: int)
    requires
        1 <= k < property_block(shape_uri, p, b).len(),
    ensures
        property_block(shape_uri, p, b)[k].s == TermView::Bnode(b),
{
    let block = property_block(shape_uri, p, b);
    if k >= 2 {
        match p.target {
            Some(t) => {
                let tgt = target_triples(b, t);
                if k - 2 < tgt.len() {
                    match t {
                        TargetTypeView::Class(cs) => {
                            lemma_class_triples_len(b, cs, cs.len() as int);
                            lemma_class_triples_index(b, cs, cs.len() as int, k - 2);
                            assert(block[k] == class_triples(b, cs, cs.len() as int)[k - 2]);
                        },
                        TargetTypeView::DataType(_) => {
                            assert(block[k] == tgt[0]);
                        },
                    }
                } else {
                    assert(block[k] == bound_triples(b, p)[k - 2 - tgt.len()]);
                }
            },
            None => {},
        }
    }
}

/// A target triple's predicate is `sh:class` or `sh:datatype`.
proof fn lemma_block_tgt_pred(shape_uri: Seq<char>, p: PropertyView, b: Seq<char>, k: int)
    requires
        2 <= k < property_block(shape_uri, p, b).len(),
        p.target is Some,
        k - 2 < target_triples(b, p.target->0).len(),
    ensures
        property_block(shape_uri, p, b)[k].p == TermView::Iri(sh_class())
            || property_block(shape_uri, p, b)[k].p == TermView::Iri(sh_datatype()),
{
    let block = property_block(shape_uri, p, b);
    let t = p.target->0;
    match t {
        TargetTypeView::Class(cs) => {
            lemma_class_triples_len(b, cs, cs.len() as int);
            lemma_class_triples_index(b, cs, cs.len() as int, k - 2);
            assert(block[k] == class_triples(b, cs, cs.len() as int)[k - 2]);
        },
        TargetTypeView::DataType(_) => {
            assert(block[k] == target_triples(b, t)[0]);
        },
    }
}

/// A bound triple's predicate is `sh:minCount` or `sh:maxCount`.
proof fn lemma_block_bnd_pred(shape_uri: Seq<char>, p: PropertyView, b: Seq<char>, k: int)
    requires
        2 <= k < property_block(shape_uri, p, b).len(),
        p.target is Some,
        k - 2 >= target_triples(b, p.target->0).len(),
    ensures
        property_block(shape_uri, p, b)[k].p == TermView::Iri(sh_min_count())
            || property_block(shape_uri, p, b)[k].p == TermView::Iri(sh_max_count()),
{
    let block = property_block(shape_uri, p, b);
    let tgt = target_triples(b, p.target->0);
    assert(block[k] == bound_triples(b, p)[k - 2 - tgt.len()]);
}

/// The path triple's predicate differs from every later predicate
/// in the block.
proof fn lemma_block_tail_pred(shape_uri: Seq<char>, p: PropertyView, b: Seq<char>, k: int)
    requires
        2 <= k < property_block(shape_uri, p, b).len(),
    ensures
        property_block(shape_uri, p, b)[k].p != TermView::Iri(sh_path()),
{
    lemma_vocab_distinct();
    match p.target {
        Some(t) => {
            if k - 2 < target_triples(b, t).len() {
                lemma_block_tgt_pred(shape_uri, p, b, k);
            } else {
                lemma_block_bnd_pred(shape_uri, p, b, k);
            }
        },
        None => {
            assert(false);
        },
    }
}

/// The first `n` blocks repeat no triple, and each of their
/// triples is shaped by its own block's blank node.
proof fn lemma_blocks_distinct(
    shape_uri: Seq<char>,
    ps: Seq<PropertyView>,
    labels: Seq<Seq<char>>,
    n: int,
)
    requires
        0 <= n <= ps.len(),
        n <= labels.len(),
        forall|i: int, j: int| 0 <= i < j < n ==> labels[i] != labels[j],
        forall|i: int| 0 <= i < n ==> class_list_unique(#[trigger] ps[i]),
    ensures
        property_blocks(shape_uri, ps, labels, n).no_duplicates(),
        forall|k: int|
            0 <= k < property_blocks(shape_uri, ps, labels, n).len() ==> exists|i: int|
                0 <= i < n && block_shaped(
                    #[trigger] property_blocks(shape_uri, ps, labels, n)[k],
                    shape_uri,
                    labels[i],
                ),
    decreases n,
{
    if n > 0 {
        lemma_blocks_distinct(shape_uri, ps, labels, n - 1);
        let whole = property_blocks(shape_uri, ps, labels, n);
        let prefix = property_blocks(shape_uri, ps, labels, n - 1);
        let last = property_block(shape_uri, ps[n - 1], labels[n - 1]);
        assert forall|k: int| 0 <= k < whole.len() implies exists|i: int|
            0 <= i < n && block_shaped(#[trigger] whole[k], shape_uri, labels[i]) by {
            if k < prefix.len() {
                assert(whole[k] == prefix[k]);
                let i0 = choose|i0: int|
                    0 <= i0 < n - 1 && block_shaped(prefix[k], shape_uri, labels[i0]);
                assert(block_shaped(whole[k], shape_uri, labels[i0]));
            } else {
                assert(whole[k] == last[k - prefix.len()]);
                lemma_block_shaped(shape_uri, ps[n - 1], labels[n - 1], k - prefix.len());
                assert(block_shaped(whole[k], shape_uri, labels[n - 1]));
            }
        }
        assert forall|k1: int, k2: int|
            0 <= k1 < whole.len() && 0 <= k2 < whole.len() && k1 != k2 implies whole[k1] != whole[
        k2] by {
            let lo = if k1 < k2 {
                k1
            } else {
                k2
            };
            let hi = if k1 < k2 {
                k2
            } else {
                k1
            };
            if hi < prefix.len() {
                assert(whole[lo] == prefix[lo] && whole[hi] == prefix[hi]);
            } else if lo >= prefix.len() {
                assert(whole[lo] == last[lo - prefix.len()]);
                assert(whole[hi] == last[hi - prefix.len()]);
                lemma_block_pair(
                    shape_uri,
                    ps[n - 1],
                    labels[n - 1],
                    lo - prefix.len(),
                    hi - prefix.len(),
                );
            } else {
                assert(whole[lo] == prefix[lo]);
                assert(whole[hi] == last[hi - prefix.len()]);
                let i0 = choose|i0: int|
                    0 <= i0 < n - 1 && block_shaped(prefix[lo], shape_uri, labels[i0]);
                lemma_block_shaped(shape_uri, ps[n - 1], labels[n - 1], hi - prefix.len());
                assert(labels[i0] != labels[n - 1]);
                if whole[lo] == whole[hi] {
                    assert(block_shaped(whole[hi], shape_uri, labels[i0]));
                    assert(block_shaped(whole[hi], shape_uri, labels[n - 1]));
                    assert(false);
                }
            }
        }
    }
}

/// Every triple of a block is shaped by the block's blank node.
proof fn lemma_block_shaped(shape_uri: Seq<char>, p: PropertyView, b: Seq<char>, k: int)
    requires
        0 <= k < property_block(shape_uri, p, b).len(),
    ensures
        block_shaped(property_block(shape_uri, p, b)[k], shape_uri, b),
{
    if k >= 1 {
        lemma_block_subject(shape_uri, p, b, k);
    }
}

/// Triple-set count law: with pairwise-distinct blank-node labels,
/// as a build draws them, and duplicate-free class lists, the
/// translation repeats no triple, so the triple set of the built
/// graph holds exactly [`shape_triple_count`] triples.
pub proof fn lemma_triple_set_count(ns: NodeShapeView, labels: Seq<Seq<char>>)
    requires
        ns.properties.len() <= labels.len(),
        forall|i: int, j: int| 0 <= i < j < ns.properties.len() ==> labels[i] != labels[j],
        forall|i: int|
            0 <= i < ns.properties.len() ==> class_list_unique(#[trigger] ns.properties[i]),
    ensures
        shape_triples(ns, labels).no_duplicates(),
        shape_triples(ns, labels).to_set().len() == shape_triple_count(ns),
{
    lemma_vocab_distinct();
    let np = ns.properties.len() as int;
    lemma_blocks_distinct(ns.shape_uri, ns.properties, labels, np);
    let ts = shape_triples(ns, labels);
    let blocks = property_blocks(ns.shape_uri, ns.properties, labels, np);
    assert forall|k1: int, k2: int|
        0 <= k1 < ts.len() && 0 <= k2 < ts.len() && k1 != k2 implies ts[k1] != ts[k2] by {
        let lo = if k1 < k2 {
            k1
        } else {
            k2
        };
        let hi = if k1 < k2 {
            k2
        } else {
            k1
        };
        if hi < 2 {
            // The two head triples carry different predicates.
            assert(ts[lo].p == TermView::Iri(rdf_type()));
            assert(ts[hi].p == TermView::Iri(sh_target_class()));
        } else if lo >= 2 {
            assert(ts[lo] == blocks[lo - 2] && ts[hi] == blocks[hi - 2]);
        } else {
            // A head triple against a block triple: the head's
            // object is an IRI and its subject the shape IRI, while
            // a block triple either sits under a blank node or has
            // a blank-node object.
            assert(ts[hi] == blocks[hi - 2]);
            let i0 = choose|i0: int|
                0 <= i0 < np && block_shaped(blocks[hi - 2], ns.shape_uri, labels[i0]);
            assert(block_shaped(ts[hi], ns.shape_uri, labels[i0]));
            assert(ts[lo].s == TermView::Iri(ns.shape_uri));
            assert(ts[lo].o == TermView::Iri(sh_node_shape()) || ts[lo].o == TermView::Iri(
                ns.target_class,
            ));
        }
    }
    ts.unique_seq_to_set();
    lemma_shape_triples_len(ns, labels);
}

/// `t` with the blank node labelled `from` relabelled `to`; any
/// other term is left alone.
pub open spec fn rename_term(t: TermView, from: Seq<char>, to: Seq<char>) -> TermView {
    if t == TermView::Bnode(from) {
        TermView::Bnode(to)
    } else {
        t
    }
}

/// `t` with the blank node labelled `from` relabelled `to` in every
/// position.
pub open spec fn rename_triple(t: TripleView, from: Seq<char>, to: Seq<char>) -> TripleView {
    TripleView {
        s: rename_term(t.s, from, to),
        p: rename_term(t.p, from, to),
        o: rename_term(t.o, from, to),
    }
}

/// Every triple of `ts` with the blank node labelled `from`
/// relabelled `to`.
pub open spec fn rename_triples(ts: Seq<TripleView>, from: Seq<char>, to: Seq<char>) -> Seq<
    TripleView,
> {
    ts.map_values(|t: TripleView| rename_triple(t, from, to))
}

/// The blocks of the first `n` properties as translated under the
/// labels `l1`, with each block's blank node relabelled to the
/// corresponding label of `l2`.
pub open spec fn renamed_blocks(
    shape_uri: Seq<char>,
    ps: Seq<PropertyView>,
    l1: Seq<Seq<char>>,
    l2: Seq<Seq<char>>,
    n: int,
) -> Seq<TripleView>
    decreases n,
{
    if n <= 0 {
        Seq::empty()
    } else {
        renamed_blocks(shape_uri, ps, l1, l2, n - 1) + rename_triples(
            property_block(shape_uri, ps[n - 1], l1[n - 1]),
            l1[n - 1],
            l2[n - 1],
        )
    }
}

/// The translation of a shape under the labels `l1`, relabelled
/// block by block to the labels of `l2`: the two head triples
/// unchanged, then each property's block with its blank node
/// renamed.
pub open spec fn relabelled_shape(
    ns: NodeShapeView,
    l1: Seq<Seq<char>>,
    l2: Seq<Seq<char>>,
) -> Seq<TripleView> {
    shape_triples(ns, l1).take(2) + renamed_blocks(
        ns.shape_uri,
        ns.properties,
        l1,
        l2,
        ns.properties.len() as int,
    )
}

/// Relabelling a class-triple sequence relabels exactly its blank
/// node.
proof fn lemma_class_triples_rename(b1: Seq<char>, b2: Seq<char>, cs: Seq<Seq<char>>, n: int)
    requires
        0 <= n,
    ensures
        rename_triples(class_triples(b1, cs, n), b1, b2) == class_triples(b2, cs, n),
    decreases n,
{
    lemma_class_triples_len(b1, cs, n);
    lemma_class_triples_len(b2, cs, n);
    if n > 0 {
        lemma_class_triples_rename(b1, b2, cs, n - 1);
        lemma_class_triples_len(b1, cs, n - 1);
    }
    assert(rename_triples(class_triples(b1, cs, n), b1, b2) =~= class_triples(b2, cs, n));
}

/// Relabelling one property's block yields the block the other
/// label would have produced.
proof fn lemma_block_rename(shape_uri: Seq<char>, p: PropertyView, b1: Seq<char>, b2: Seq<char>)
    ensures
        rename_triples(property_block(shape_uri, p, b1), b1, b2) == property_block(
            shape_uri,
            p,
            b2,
        ),
{
    match p.target {
        Some(TargetTypeView::Class(cs)) => {
            lemma_class_triples_rename(b1, b2, cs, cs.len() as int);
            lemma_class_triples_len(b1, cs, cs.len() as int);
            lemma_class_triples_len(b2, cs, cs.len() as int);
        },
        _ => {},
    }
    assert(rename_triples(property_block(shape_uri, p, b1), b1, b2) =~= property_block(
        shape_uri,
        p,
        b2,
    ));
}

/// The blocks translated under one label draw, relabelled block by
/// block, are the blocks translated under the other draw.
proof fn lemma_blocks_rename(
    shape_uri: Seq<char>,
    ps: Seq<PropertyView>,
    l1: Seq<Seq<char>>,
    l2: Seq<Seq<char>>,
    n: int,
)
    requires
        0 <= n,
    ensures
        property_blocks(shape_uri, ps, l2, n) == renamed_blocks(shape_uri, ps, l1, l2, n),
    decreases n,
{
    if n > 0 {
        lemma_blocks_rename(shape_uri, ps, l1, l2, n - 1);
        lemma_block_rename(shape_uri, ps[n - 1], l1[n - 1], l2[n - 1]);
    }
}

/// Label invariance: the labels a build draws only name its blank
/// nodes. The translation of a shape under one label draw is the
/// translation under any other draw with each property's blank node
/// relabelled, so any two builds of the same shape yield graphs
/// that are equal up to blank-node renaming.
pub proof fn lemma_label_invariance(ns: NodeShapeView, l1: Seq<Seq<char>>, l2: Seq<Seq<char>>)
    ensures
        shape_triples(ns, l2) == relabelled_shape(ns, l1, l2),
{
    lemma_blocks_rename(ns.shape_uri, ns.properties, l1, l2, ns.properties.len() as int);
    assert(shape_triples(ns, l2) =~= relabelled_shape(ns, l1, l2));
}

/// A named shape: a shape IRI, a target class IRI, and an ordered
/// collection of property constraints. Both IRIs are valid IRI
/// references.
#[derive(Debug, PartialEq, Eq)]
pub struct NodeShape {
    shape_uri: String,
    target_class: String,
    properties: Vec<Property>,
}

impl View for NodeShape {
    type V = NodeShapeView;

    closed spec fn view(&self) -> NodeShapeView {
        NodeShapeView {
            shape_uri: self.shape_uri@,
            target_class: self.target_class@,
            properties: properties_view(self.properties@),
        }
    }
}

impl NodeShape {
    /// Both IRIs the shape names are syntactically valid.
    #[verifier::type_invariant]
    spec fn wf(self) -> bool {
        &&& is_absolute_iri(self.shape_uri@)
        &&& is_absolute_iri(self.target_class@)
    }

    /// Makes a shape over the given properties, taking ownership of
    /// them in order; rejects either IRI string if it is not a
    /// valid absolute IRI.
    pub fn new(shape_uri: &str, target_class: &str, properties: Vec<Property>) -> (r: Result<
        NodeShape,
        ParseError,
    >)
        ensures
            r matches Ok(_) <==> is_absolute_iri(shape_uri@) && is_absolute_iri(target_class@),
            r matches Ok(ns) ==> ns@ == (NodeShapeView {
                shape_uri: shape_uri@,
                target_class: target_class@,
                properties: properties_view(properties@),
            }),
            r matches Err(e) ==> (e matches ParseError::InvalidIri(s) && !is_absolute_iri(s@) && (s@
                == shape_uri@ || s@ == target_class@)),
    {
        if !check_absolute_iri(shape_uri) {
            return Err(ParseError::InvalidIri(String::from_str(shape_uri)));
        }
        if !check_absolute_iri(target_class) {
            return Err(ParseError::InvalidIri(String::from_str(target_class)));
        }
        Ok(NodeShape {
            shape_uri: String::from_str(shape_uri),
            target_class: String::from_str(target_class),
            properties,
        })
    }

    /// Translates the shape into its triples, with `labels[i]` as
    /// the blank-node label of the `i`-th property's shape. The
    /// translation is deterministic: exactly the triples of
    /// [`shape_triples`], in emission order.
    pub fn build_triples(&self, labels: &Vec<String>) -> (ts: Vec<Triple>)
        requires
            labels@.len() == self@.properties.len(),
        ensures
            triples_view(ts@) == shape_triples(self@, labels_view(labels@)),
    {
        let ghost lv = labels_view(labels@);
        let mut ts: Vec<Triple> = Vec::new();
        push_triple(
            &mut ts,
            Triple {
                s: Term::Iri(String::from_str(self.shape_uri.as_str())),
                p: Term::Iri(String::from_str(rdf_type_iri())),
                o: Term::Iri(String::from_str(sh_node_shape_iri())),
            },
        );
        push_triple(
            &mut ts,
            Triple {
                s: Term::Iri(String::from_str(self.shape_uri.as_str())),
                p: Term::Iri(String::from_str(sh_target_class_iri())),
                o: Term::Iri(String::from_str(self.target_class.as_str())),
            },
        );
        let ghost head = triples_view(ts@);
        proof {
            assert(head =~= shape_triples(self@, lv).take(2));
        }
        let n = self.properties.len();
        for i in 0..n
            invariant
                n == self.properties@.len(),
                labels@.len() == n,
                lv == labels_view(labels@),
                head == shape_triples(self@, lv).take(2),
                triples_view(ts@) == head + property_blocks(
                    self@.shape_uri,
                    self@.properties,
                    lv,
                    i as int,
                ),
        {
            let ghost pre = triples_view(ts@);
            let prop = &self.properties[i];
            let label = &labels[i];
            assert(prop@ == self@.properties[i as int]);
            assert(label@ == lv[i as int]);
            push_property_block(&mut ts, self.shape_uri.as_str(), prop, label);
        }
        proof {
            assert(triples_view(ts@) =~= shape_triples(self@, lv));
        }
        ts
    }

    /// Builds the shape's RDF graph: draws a fresh blank-node label
    /// for each property, translates the shape, and inserts every
    /// triple. On success the graph holds, as a set, exactly the
    /// translation's triples for some sequence of well-formed
    /// labels; a store failure aborts the whole build. The store can
    /// refuse only for want of term indices: with the vocabulary
    /// absolute and three indices per triple within the store's
    /// `u32` capacity, the build succeeds.
    pub fn build_graph(&self) -> (r: Result<ShapeGraph, ParseError>)
        ensures
            r matches Ok(g) ==> exists|labels: Seq<Seq<char>>|
                labels.len() == self@.properties.len() && (forall|i: int|
                    0 <= i < labels.len() ==> bnode_label_ok(#[trigger] labels[i])) && (forall|
                    i: int,
                    j: int,
                |
                    0 <= i < j < labels.len() ==> labels[i] != labels[j]) && graph_triples(g)
                    == shape_triples(self@, labels).to_set(),
            r matches Ok(g) ==> (vocabulary_absolute() ==> (forall|t: TripleView|
                graph_triples(g).contains(t) ==> storable_triple(t))),
            r matches Err(e) ==> e matches ParseError::UnableInsertTriple(_),
            vocabulary_absolute() && 3 * shape_triple_count(self@) <= u32::MAX as int
                ==> r matches Ok(_),
    {
        proof {
            use_type_invariant(&*self);
        }
        let n = self.properties.len();
        for pi in 0..n
            invariant
                n == self.properties@.len(),
                forall|j: int|
                    0 <= j < pi ==> property_iris_absolute(#[trigger] self@.properties[j]),
        {
            let p = &self.properties[pi];
            proof {
                use_type_invariant(p);
                assert(self@.properties[pi as int] == p@);
            }
        }
        let labels = fresh_labels(n);
        let ghost lv = labels_view(labels@);
        let ts = self.build_triples(&labels);
        let ghost tsv = triples_view(ts@);
        let mut g = new_graph();
        let m = ts.len();
        proof {
            lemma_shape_triples_len(self@, lv);
        }
        for k in 0..m
            invariant
                m == ts@.len(),
                tsv == triples_view(ts@),
                tsv == shape_triples(self@, lv),
                m as int == shape_triple_count(self@),
                graph_triples(g) == tsv.take(k as int).to_set(),
                graph_term_count(g) <= 3 * (k as int),
                lv.len() == self@.properties.len(),
                forall|i: int| 0 <= i < lv.len() ==> bnode_label_ok(#[trigger] lv[i]),
                is_absolute_iri(self@.shape_uri),
                is_absolute_iri(self@.target_class),
                forall|j: int|
                    0 <= j < self@.properties.len() ==> property_iris_absolute(
                        #[trigger] self@.properties[j],
                    ),
        {
            let ghost pre_terms = graph_term_count(g);
            let res = insert_triple(&mut g, &ts[k]);
            match res {
                Ok(_) => {
                    proof {
                        lemma_to_set_push(tsv.take(k as int), tsv[k as int]);
                        assert(tsv.take(k as int).push(tsv[k as int]) =~= tsv.take(k as int + 1));
                    }
                },
                Err(cause) => {
                    proof {
                        if vocabulary_absolute() && 3 * shape_triple_count(self@) <= u32::MAX
                            as int {
                            lemma_shape_storable(self@, lv);
                            assert(storable_triple(shape_triples(self@, lv)[k as int]));
                            assert(pre_terms + 3 <= u32::MAX as int);
                            assert(false);
                        }
                    }
                    return Err(ParseError::UnableInsertTriple(cause));
                },
            }
        }
        proof {
            assert(tsv.take(m as int) =~= tsv);
            assert(lv.len() == self@.properties.len() && (forall|i: int|
                0 <= i < lv.len() ==> bnode_label_ok(#[trigger] lv[i])) && (forall|i: int, j: int|
                0 <= i < j < lv.len() ==> lv[i] != lv[j]) && graph_triples(g) == shape_triples(
                self@,
                lv,
            ).to_set());
            if vocabulary_absolute() {
                lemma_shape_storable(self@, lv);
                assert forall|t: TripleView| graph_triples(g).contains(t) implies storable_triple(
                    t,
                ) by {
                    assert(shape_triples(self@, lv).contains(t));
                    let k0 = choose|k0: int|
                        0 <= k0 < shape_triples(self@, lv).len() && shape_triples(self@, lv)[k0]
                            == t;
                    assert(storable_triple(shape_triples(self@, lv)[k0]));
                }
            }
        }
        Ok(g)
    }

    /// Builds the shape's graph and renders it in the requested
    /// serialization, returning the encoder's text verbatim. The
    /// graph holds exactly the shape's triples; for Turtle and
    /// RDF/XML the text is that graph's render (deterministic
    /// streaming encoders), while a JSON-LD render can order its
    /// keys differently from run to run, so no text is named for
    /// it. All three encoders accept every graph the builder makes,
    /// so within the store's capacity the call succeeds. Every
    /// failure is surfaced: a store failure as `UnableInsertTriple`,
    /// an encoder failure as `SerializationFailure`; no partial
    /// output is returned.
    pub fn to_shacl_string(&self, serializer: Serializer) -> (r: Result<String, ParseError>)
        ensures
            r matches Err(e) ==> (e matches ParseError::UnableInsertTriple(_) || e
                matches ParseError::SerializationFailure(_)),
            r matches Ok(text) ==> exists|labels: Seq<Seq<char>>, g: ShapeGraph|
                labels.len() == self@.properties.len() && (forall|i: int|
                    0 <= i < labels.len() ==> bnode_label_ok(#[trigger] labels[i])) && (forall|
                    i: int,
                    j: int,
                |
                    0 <= i < j < labels.len() ==> labels[i] != labels[j]) && graph_triples(g)
                    == shape_triples(self@, labels).to_set() && (serializer is Ttl ==> text@
                    == ttl_render(g)) && (serializer is Xml ==> text@ == xml_render(g)),
            vocabulary_absolute() && 3 * shape_triple_count(self@) <= u32::MAX as int
                ==> r matches Ok(_),
    {
        let g = match self.build_graph() {
            Ok(g) => g,
            Err(e) => {
                return Err(e);
            },
        };
        let ghost labels = choose|labels: Seq<Seq<char>>|
            labels.len() == self@.properties.len() && (forall|i: int|
                0 <= i < labels.len() ==> bnode_label_ok(#[trigger] labels[i])) && (forall|
                i: int,
                j: int,
            |
                0 <= i < j < labels.len() ==> labels[i] != labels[j]) && graph_triples(g)
                == shape_triples(self@, labels).to_set();
        let encoded = match serializer {
            Serializer::Ttl => serialize_ttl_graph(&g),
            Serializer::Jsonld => serialize_jsonld_graph(&g),
            Serializer::Xml => serialize_xml_graph(&g),
        };
        match encoded {
            Ok(text) => {
                proof {
                    assert(labels.len() == self@.properties.len() && (forall|i: int|
                        0 <= i < labels.len() ==> bnode_label_ok(#[trigger] labels[i])) && (forall|
                        i: int,
                        j: int,
                    |
                        0 <= i < j < labels.len() ==> labels[i] != labels[j]) && graph_triples(g)
                        == shape_triples(self@, labels).to_set() && (serializer is Ttl ==> text@
                        == ttl_render(g)) && (serializer is Xml ==> text@ == xml_render(g)));
                }
                Ok(text)
            },
            Err(cause) => {
                proof {
                    if vocabulary_absolute() && 3 * shape_triple_count(self@) <= u32::MAX
                        as int {
                        assert(forall|t: TripleView|
                            graph_triples(g).contains(t) ==> storable_triple(t));
                        assert(false);
                    }
                }
                Err(ParseError::SerializationFailure(cause))
            },
        }
    }
}

/// A pushed element extends a sequence's set of elements by exactly
/// that element.
proof fn lemma_to_set_push<A>(s: Seq<A>, x: A)
    ensures
        s.push(x).to_set() == s.to_set().insert(x),
{
    assert forall|a: A| s.push(x).to_set().contains(a) implies s.to_set().insert(x).contains(
        a,
    ) by {
        let i = choose|i: int| 0 <= i < s.push(x).len() && s.push(x)[i] == a;
        if i < s.len() {
            assert(s[i] == a);
        } else {
            assert(a == x);
        }
    }
    assert forall|a: A| s.to_set().insert(x).contains(a) implies s.push(x).to_set().contains(
        a,
    ) by {
        if s.to_set().contains(a) {
            let i = choose|i: int| 0 <= i < s.len() && s[i] == a;
            assert(s.push(x)[i] == a);
        } else {
            assert(s.push(x)[s.len() as int] == a);
        }
    }
    assert(s.push(x).to_set() =~= s.to_set().insert(x));
}

/// Appends one property's block of triples: the `sh:property` link
/// from the shape, the `sh:path` triple, and, when a target is
/// present, its target triples followed by its cardinality triples.
fn push_property_block(ts: &mut Vec<Triple>, shape_uri: &str, prop: &Property, label: &String)
    ensures
        triples_view(final(ts)@) == triples_view(old(ts)@) + property_block(
            shape_uri@,
            prop@,
            label@,
        ),
{
    let ghost pre = triples_view(ts@);
    push_triple(
        ts,
        Triple {
            s: Term::Iri(String::from_str(shape_uri)),
            p: Term::Iri(String::from_str(sh_property_iri())),
            o: Term::Bnode(String::from_str(label.as_str())),
        },
    );
    push_triple(
        ts,
        Triple {
            s: Term::Bnode(String::from_str(label.as_str())),
            p: Term::Iri(String::from_str(sh_path_iri())),
            o: Term::Iri(String::from_str(prop.path())),
        },
    );
    let ghost linked = triples_view(ts@);
    proof {
        assert(linked =~= pre + seq![
            triple_v(
                TermView::Iri(shape_uri@),
                TermView::Iri(sh_property()),
                TermView::Bnode(label@),
            ),
            triple_v(TermView::Bnode(label@), TermView::Iri(sh_path()), TermView::Iri(prop@.path)),
        ]);
    }
    match prop.target() {
        Some(t) => {
            match t {
                TargetType::Class(cs) => {
                    let m = cs.len();
                    for j in 0..m
                        invariant
                            m == cs@.len(),
                            triples_view(ts@) == linked + class_triples(
                                label@,
                                cs@.map_values(|c: String| c@),
                                j as int,
                            ),
                    {
                        push_triple(
                            ts,
                            Triple {
                                s: Term::Bnode(String::from_str(label.as_str())),
                                p: Term::Iri(String::from_str(sh_class_iri())),
                                o: Term::Iri(String::from_str(cs[j].as_str())),
                            },
                        );
                    }
                },
                TargetType::DataType(dt) => {
                    let dt_iri = match dt {
                        DataType::Integer => xsd_integer_iri(),
                        DataType::String => xsd_string_iri(),
                    };
                    push_triple(
                        ts,
                        Triple {
                            s: Term::Bnode(String::from_str(label.as_str())),
                            p: Term::Iri(String::from_str(sh_datatype_iri())),
                            o: Term::Iri(String::from_str(dt_iri)),
                        },
                    );
                },
            }
            proof {
                assert(triples_view(ts@) =~= linked + target_triples(label@, t@));
            }
            match prop.min_count() {
                Some(mc) => {
                    push_triple(
                        ts,
                        Triple {
                            s: Term::Bnode(String::from_str(label.as_str())),
                            p: Term::Iri(String::from_str(sh_min_count_iri())),
                            o: Term::Count(mc),
                        },
                    );
                },
                None => {},
            }
            match prop.max_count() {
                Some(mc) => {
                    push_triple(
                        ts,
                        Triple {
                            s: Term::Bnode(String::from_str(label.as_str())),
                            p: Term::Iri(String::from_str(sh_max_count_iri())),
                            o: Term::Count(mc),
                        },
                    );
                },
                None => {},
            }
            proof {
                assert(triples_view(ts@) =~= linked + (target_triples(label@, t@)
                    + bound_triples(label@, prop@)));
            }
        },
        None => {},
    }
    proof {
        assert(triples_view(ts@) =~= pre + property_block(shape_uri@, prop@, label@));
    }
}

/// Appends one triple, tracked at the level of triple values.
fn push_triple(ts: &mut Vec<Triple>, t: Triple)
    ensures
        triples_view(final(ts)@) == triples_view(old(ts)@).push(t@),
{
    let ghost tv = t@;
    ts.push(t);
    proof {
        assert(triples_view(ts@) =~= triples_view(old(ts)@).push(tv));
    }
}

} // verus!
