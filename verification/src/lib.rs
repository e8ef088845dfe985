//! Building SHACL node-shape descriptions and rendering them as RDF
//! text in Turtle, JSON-LD or RDF/XML.
//!
//! A caller assembles [`property::Property`] constraint bundles into
//! a [`nodeshape::NodeShape`]. The shape's translation into RDF
//! triples is verified down to the exact triple sequence; sophia's
//! graph store and encoders do the rendering behind trusted
//! wrappers.

pub mod error;
pub mod iri;
pub mod term;
pub mod graph;
pub mod property;
pub mod nodeshape;
