use shacl_shapes::error::ParseError;
use shacl_shapes::graph::fresh_labels;
use shacl_shapes::nodeshape::NodeShape;
use shacl_shapes::nodeshape::Serializer;
use shacl_shapes::property::Property;
use shacl_shapes::term::Term;
use shacl_shapes::term::Triple;

use sophia::api::graph::Graph;
use sophia::api::graph::MutableGraph;
use sophia::api::quad::Quad;
use sophia::api::source::QuadSource;
use sophia::api::source::TripleSource;
use sophia::api::term::BnodeId;
use sophia::api::term::IriRef;
use sophia::inmem::graph::LightGraph;
use sophia::isomorphism::isomorphic_graphs;

fn insert_term_triple(g: &mut LightGraph, t: &Triple) {
    match (&t.s, &t.p, &t.o) {
        (Term::Iri(s), Term::Iri(p), Term::Iri(o)) => {
            g.insert(
                IriRef::new(s.as_str()).unwrap(),
                IriRef::new(p.as_str()).unwrap(),
                IriRef::new(o.as_str()).unwrap(),
            )
            .unwrap();
        }
        (Term::Iri(s), Term::Iri(p), Term::Bnode(b)) => {
            g.insert(
                IriRef::new(s.as_str()).unwrap(),
                IriRef::new(p.as_str()).unwrap(),
                BnodeId::new(b.as_str()).unwrap(),
            )
            .unwrap();
        }
        (Term::Bnode(b), Term::Iri(p), Term::Iri(o)) => {
            g.insert(
                BnodeId::new(b.as_str()).unwrap(),
                IriRef::new(p.as_str()).unwrap(),
                IriRef::new(o.as_str()).unwrap(),
            )
            .unwrap();
        }
        (Term::Bnode(b), Term::Iri(p), Term::Count(n)) => {
            g.insert(
                BnodeId::new(b.as_str()).unwrap(),
                IriRef::new(p.as_str()).unwrap(),
                *n,
            )
            .unwrap();
        }
        _ => panic!("unexpected term shape"),
    }
}

fn reference_graph(ts: &[Triple]) -> LightGraph {
    let mut g = LightGraph::new();
    for t in ts {
        insert_term_triple(&mut g, t);
    }
    g
}

fn parse_ttl(text: &str) -> LightGraph {
    sophia::turtle::parser::turtle::parse_str(text)
        .collect_triples()
        .unwrap()
}

fn parse_xml(text: &str) -> LightGraph {
    sophia::xml::parser::parse_str(text).collect_triples().unwrap()
}

fn parse_jsonld(text: &str) -> LightGraph {
    let mut g = LightGraph::new();
    sophia::jsonld::parser::parse_str(text)
        .for_each_quad(|q| {
            g.insert(q.s(), q.p(), q.o()).unwrap();
        })
        .unwrap();
    g
}

fn iri(s: &str) -> Term {
    Term::Iri(String::from(s))
}

fn bnode(s: &str) -> Term {
    Term::Bnode(String::from(s))
}

fn triple(s: Term, p: Term, o: Term) -> Triple {
    Triple { s, p, o }
}

/// A shape with one property of each flavour: a datatype target
/// with a minimum bound, a two-class target with both bounds, and a
/// datatype target with a maximum bound.
fn sample_shape() -> NodeShape {
    let mut label = Property::new("http://www.w3.org/2000/01/rdf-schema#label").unwrap();
    label.add_min_count(1);
    label.add_datatype_string();

    let mut kind = Property::new("http://example.com/ns#kind").unwrap();
    kind.add_class_target(vec![
        "http://example.com/ns#Article",
        "http://example.com/ns#Book",
    ])
    .unwrap();
    kind.add_min_count(1);
    kind.add_max_count(3);

    let mut pages = Property::new("http://example.com/ns#pages").unwrap();
    pages.add_datatype_int();
    pages.add_max_count(2);

    NodeShape::new(
        "http://example.com/shapes/SampleShape",
        "http://example.com/ns#Document",
        vec![label, kind, pages],
    )
    .unwrap()
}

#[test]
fn a_test() {
    let mut label = Property::new("http://www.w3.org/2000/01/rdf-schema#label").unwrap();

    label.add_min_count(1);
    label.add_datatype_string();

    let fonds01 = NodeShape::new(
        "http://example.com/shapes/FondsShape",
        "https://www.ica.org/standards/RiC/ontology#RecordSet",
        vec![label],
    )
    .unwrap();
    let jsonld = fonds01.to_shacl_string(Serializer::Jsonld).unwrap();
    assert!(!jsonld.is_empty());

    let ttl = fonds01.to_shacl_string(Serializer::Ttl).unwrap();
    assert!(!ttl.is_empty());

    let xml = fonds01.to_shacl_string(Serializer::Xml).unwrap();
    assert!(!xml.is_empty());
}

#[test]
fn concrete_scenario_six_triples() {
    let mut label = Property::new("http://www.w3.org/2000/01/rdf-schema#label").unwrap();
    label.add_min_count(1);
    label.add_datatype_string();
    let shape = NodeShape::new(
        "http://example.com/shapes/FondsShape",
        "https://www.ica.org/standards/RiC/ontology#RecordSet",
        vec![label],
    )
    .unwrap();

    let labels = vec![String::from("b0")];
    let ts = shape.build_triples(&labels);
    assert_eq!(ts.len(), 6);
    assert_eq!(
        ts[0],
        triple(
            iri("http://example.com/shapes/FondsShape"),
            iri("http://www.w3.org/1999/02/22-rdf-syntax-ns#type"),
            iri("http://www.w3.org/ns/shacl#NodeShape"),
        )
    );
    assert_eq!(
        ts[1],
        triple(
            iri("http://example.com/shapes/FondsShape"),
            iri("http://www.w3.org/ns/shacl#targetClass"),
            iri("https://www.ica.org/standards/RiC/ontology#RecordSet"),
        )
    );
    assert_eq!(
        ts[2],
        triple(
            iri("http://example.com/shapes/FondsShape"),
            iri("http://www.w3.org/ns/shacl#property"),
            bnode("b0"),
        )
    );
    assert_eq!(
        ts[3],
        triple(
            bnode("b0"),
            iri("http://www.w3.org/ns/shacl#path"),
            iri("http://www.w3.org/2000/01/rdf-schema#label"),
        )
    );
    assert_eq!(
        ts[4],
        triple(
            bnode("b0"),
            iri("http://www.w3.org/ns/shacl#datatype"),
            iri("http://www.w3.org/2001/XMLSchema#string"),
        )
    );
    assert_eq!(
        ts[5],
        triple(
            bnode("b0"),
            iri("http://www.w3.org/ns/shacl#minCount"),
            Term::Count(1),
        )
    );

    assert!(shape.to_shacl_string(Serializer::Ttl).is_ok());
    assert!(shape.to_shacl_string(Serializer::Jsonld).is_ok());
    assert!(shape.to_shacl_string(Serializer::Xml).is_ok());
}

#[test]
fn round_trip_turtle() {
    let shape = sample_shape();
    let labels = fresh_labels(3);
    let expected = reference_graph(&shape.build_triples(&labels));
    let text = shape.to_shacl_string(Serializer::Ttl).unwrap();
    let parsed = parse_ttl(&text);
    assert!(isomorphic_graphs(&parsed, &expected).unwrap());
}

#[test]
fn round_trip_xml() {
    let shape = sample_shape();
    let labels = fresh_labels(3);
    let expected = reference_graph(&shape.build_triples(&labels));
    let text = shape.to_shacl_string(Serializer::Xml).unwrap();
    let parsed = parse_xml(&text);
    assert!(isomorphic_graphs(&parsed, &expected).unwrap());
}

#[test]
fn round_trip_jsonld() {
    let shape = sample_shape();
    let labels = fresh_labels(3);
    let expected = reference_graph(&shape.build_triples(&labels));
    let text = shape.to_shacl_string(Serializer::Jsonld).unwrap();
    let parsed = parse_jsonld(&text);
    assert!(isomorphic_graphs(&parsed, &expected).unwrap());
}

#[test]
fn format_invariance() {
    let shape = sample_shape();
    let from_ttl = parse_ttl(&shape.to_shacl_string(Serializer::Ttl).unwrap());
    let from_xml = parse_xml(&shape.to_shacl_string(Serializer::Xml).unwrap());
    let from_jsonld = parse_jsonld(&shape.to_shacl_string(Serializer::Jsonld).unwrap());
    assert!(isomorphic_graphs(&from_ttl, &from_xml).unwrap());
    assert!(isomorphic_graphs(&from_ttl, &from_jsonld).unwrap());
    assert!(isomorphic_graphs(&from_xml, &from_jsonld).unwrap());
}

#[test]
fn triple_count_formula() {
    // k = 3 properties, each with a target; class targets list 2
    // classes in all; 2 datatype targets; 2 minimum and 2 maximum
    // bounds: 2 + 3*2 + 2 + 2 + 2 + 2 = 16 triples.
    let shape = sample_shape();
    let labels = fresh_labels(3);
    assert_eq!(shape.build_triples(&labels).len(), 16);
}

#[test]
fn parsed_graph_triple_count() {
    // Three properties, each with a target and duplicate-free class
    // lists: the parsed graph holds exactly the sixteen distinct
    // triples the count law gives.
    let shape = sample_shape();
    let text = shape.to_shacl_string(Serializer::Ttl).unwrap();
    let parsed = parse_ttl(&text);
    assert_eq!(parsed.triples().count(), 16);
}

#[test]
fn property_without_target_emits_no_bounds() {
    let mut prop = Property::new("http://example.com/ns#note").unwrap();
    prop.add_min_count(1);
    prop.add_max_count(2);
    let shape = NodeShape::new(
        "http://example.com/shapes/NoteShape",
        "http://example.com/ns#Document",
        vec![prop],
    )
    .unwrap();
    let labels = vec![String::from("b0")];
    let ts = shape.build_triples(&labels);
    // Only the two head triples, the property link and the path:
    // without a target the bounds are not emitted.
    assert_eq!(ts.len(), 4);
}

#[test]
fn empty_shape_emits_two_triples() {
    let shape = NodeShape::new(
        "http://example.com/shapes/EmptyShape",
        "http://example.com/ns#Document",
        vec![],
    )
    .unwrap();
    let ts = shape.build_triples(&vec![]);
    assert_eq!(ts.len(), 2);
    let text = shape.to_shacl_string(Serializer::Ttl).unwrap();
    let parsed = parse_ttl(&text);
    assert!(isomorphic_graphs(&parsed, &reference_graph(&ts)).unwrap());
}

#[test]
fn repeated_classes_kept_in_order() {
    let mut prop = Property::new("http://example.com/ns#kind").unwrap();
    prop.add_class_target(vec![
        "http://example.com/ns#Article",
        "http://example.com/ns#Article",
    ])
    .unwrap();
    prop.add_min_count(0);
    let shape = NodeShape::new(
        "http://example.com/shapes/KindShape",
        "http://example.com/ns#Document",
        vec![prop],
    )
    .unwrap();
    let labels = vec![String::from("b0")];
    let ts = shape.build_triples(&labels);
    // Two head triples, the link and the path, the class triple
    // twice (no dedup in the emitted sequence), and a zero minimum.
    assert_eq!(ts.len(), 7);
    assert_eq!(ts[4], ts[5]);
    assert_eq!(
        ts[4],
        triple(
            bnode("b0"),
            iri("http://www.w3.org/ns/shacl#class"),
            iri("http://example.com/ns#Article"),
        )
    );
    assert_eq!(
        ts[6],
        triple(
            bnode("b0"),
            iri("http://www.w3.org/ns/shacl#minCount"),
            Term::Count(0),
        )
    );
}

#[test]
fn rejects_malformed_input() {
    let prop = Property::new("not an iri");
    assert!(matches!(prop, Err(ParseError::InvalidIri(_))));

    let shape = NodeShape::new("not an iri", "http://x/Y", vec![]);
    assert!(matches!(shape, Err(ParseError::InvalidIri(_))));
}

#[test]
fn rejects_relative_references() {
    // A relative IRI reference is well-formed as a reference but
    // not absolute; everything a shape names must be absolute.
    assert!(matches!(
        Property::new("a/b"),
        Err(ParseError::InvalidIri(_))
    ));
    assert!(matches!(
        NodeShape::new("a/b", "http://x/Y", vec![]),
        Err(ParseError::InvalidIri(_))
    ));
    let mut prop = Property::new("http://example.com/ns#kind").unwrap();
    assert!(matches!(
        prop.add_class_target(vec!["relative/class"]),
        Err(ParseError::InvalidIri(_))
    ));
    assert!(prop.target().is_none());
}

#[test]
fn vocabulary_constants_are_absolute() {
    assert!(shacl_shapes::nodeshape::vocabulary_is_absolute());
}

#[test]
fn class_target_is_atomic() {
    let mut prop = Property::new("http://example.com/ns#kind").unwrap();
    let r = prop.add_class_target(vec!["http://example.com/ns#Article", "not an iri"]);
    assert!(matches!(r, Err(ParseError::InvalidIri(_))));
    assert!(prop.target().is_none());

    prop.add_class_target(vec!["http://example.com/ns#Article"])
        .unwrap();
    assert!(prop.target().is_some());
}

#[test]
fn integer_datatype_maps_to_xsd_integer() {
    let mut pages = Property::new("http://example.com/ns#pages").unwrap();
    pages.add_datatype_int();
    let shape = NodeShape::new(
        "http://example.com/shapes/PagesShape",
        "http://example.com/ns#Document",
        vec![pages],
    )
    .unwrap();
    let labels = vec![String::from("b0")];
    let ts = shape.build_triples(&labels);
    assert_eq!(ts.len(), 5);
    assert_eq!(
        ts[4],
        triple(
            bnode("b0"),
            iri("http://www.w3.org/ns/shacl#datatype"),
            iri("http://www.w3.org/2001/XMLSchema#integer"),
        )
    );
}

#[test]
fn target_is_overwritten_not_merged() {
    let mut prop = Property::new("http://example.com/ns#kind").unwrap();
    prop.add_class_target(vec![
        "http://example.com/ns#Article",
        "http://example.com/ns#Book",
    ])
    .unwrap();
    prop.add_datatype_string();
    let shape = NodeShape::new(
        "http://example.com/shapes/KindShape",
        "http://example.com/ns#Document",
        vec![prop],
    )
    .unwrap();
    let labels = vec![String::from("b0")];
    let ts = shape.build_triples(&labels);
    // One datatype triple in place of the two class triples.
    assert_eq!(ts.len(), 5);
    assert_eq!(
        ts[4],
        triple(
            bnode("b0"),
            iri("http://www.w3.org/ns/shacl#datatype"),
            iri("http://www.w3.org/2001/XMLSchema#string"),
        )
    );
}

#[test]
fn error_message_names_kind_and_cause() {
    let e = Property::new("not an iri").unwrap_err();
    assert_eq!(e.message(), "Invalid IRI: not an iri");
    assert!(matches!(e, ParseError::InvalidIri(s) if s == "not an iri"));
}

#[test]
fn fresh_labels_are_distinct_and_well_formed() {
    let first = fresh_labels(8);
    let second = fresh_labels(8);
    let mut all: Vec<&String> = first.iter().chain(second.iter()).collect();
    for label in &all {
        assert!(label.len() >= 39);
        assert!(label.starts_with('b'));
        let chars: Vec<char> = label.chars().collect();
        assert!(chars[1..37]
            .iter()
            .all(|c| *c == '-' || c.is_ascii_hexdigit() && !c.is_ascii_uppercase()));
        assert_eq!(chars[37], '-');
        assert!(chars[38..].iter().all(|c| c.is_ascii_digit()));
    }
    let before = all.len();
    all.sort();
    all.dedup();
    assert_eq!(all.len(), before);
}
