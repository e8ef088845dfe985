//! A property constraint bundle: a path plus optional target and
//! cardinality bounds, built up by incremental mutator calls.

use vstd::prelude::*;
use crate::error::ParseError;
use crate::iri::is_absolute_iri;
use crate::iri::check_absolute_iri;

verus! {

/// The two datatypes a property shape can constrain a value to.
#[derive(Debug, Clone, Copy, PartialEq, Eq)]
pub enum DataType {
    Integer,
    String,
}

/// What a property's values must be: instances of one of a list of
/// classes, or literals of a datatype.
#[derive(Debug, PartialEq, Eq)]
pub enum TargetType {
    Class(Vec<String>),
    DataType(DataType),
}

/// The mathematical value of a [`TargetType`].
pub enum TargetTypeView {
    Class(Seq<Seq<char>>),
    DataType(DataType),
}

impl View for TargetType {
    type V = TargetTypeView;

    open spec fn view(&self) -> TargetTypeView {
        match self {
            TargetType::Class(cs) => TargetTypeView::Class(cs@.map_values(|c: String| c@)),
            TargetType::DataType(dt) => TargetTypeView::DataType(*dt),
        }
    }
}

/// The mathematical value of a [`Property`].
pub struct PropertyView {
    pub path: Seq<char>,
    pub target: Option<TargetTypeView>,
    pub min_count: Option<int>,
    pub max_count: Option<int>,
}

/// Every IRI a property's mathematical value names is absolute.
pub open spec fn property_iris_absolute(p: PropertyView) -> bool {
    &&& is_absolute_iri(p.path)
    &&& match p.target {
        Some(TargetTypeView::Class(cs)) => forall|i: int|
            0 <= i < cs.len() ==> is_absolute_iri(#[trigger] cs[i]),
        _ => true,
    }
}

/// A constraint bundle for one property path. Its path, and every
/// class IRI of a class target, is a valid absolute IRI.
#[derive(Debug, PartialEq, Eq)]
pub struct Property {
    path: String,
    target: Option<TargetType>,
    min_count: Option<usize>,
    max_count: Option<usize>,
}

impl View for Property {
    type V = PropertyView;

    closed spec fn view(&self) -> PropertyView {
        PropertyView {
            path: self.path@,
            target: match self.target {
                Some(t) => Some(t@),
                None => None,
            },
            min_count: match self.min_count {
                Some(n) => Some(n as int),
                None => None,
            },
            max_count: match self.max_count {
                Some(n) => Some(n as int),
                None => None,
            },
        }
    }
}

impl Property {
    /// Every IRI the property holds is syntactically valid.
    #[verifier::type_invariant]
    pub open spec fn wf(self) -> bool {
        property_iris_absolute(self@)
    }

    /// Makes a bare property for `path`, with no target and no
    /// bounds; rejects `path` if it is not a valid absolute IRI.
    pub fn new(path: &str) -> (r: Result<Property, ParseError>)
        ensures
            r matches Ok(_) <==> is_absolute_iri(path@),
            r matches Ok(p) ==> p@ == (PropertyView {
                path: path@,
                target: None,
                min_count: None,
                max_count: None,
            }),
            r matches Err(e) ==> e matches ParseError::InvalidIri(s) && s@ == path@,
    {
        if check_absolute_iri(path) {
            Ok(Property {
                path: String::from_str(path),
                target: None,
                min_count: None,
                max_count: None,
            })
        } else {
            Err(ParseError::InvalidIri(String::from_str(path)))
        }
    }

    /// Replaces the target with a class-membership constraint over
    /// `class_targets`, kept in the given order. Fails, and leaves
    /// the property unchanged, if any of the strings is not a valid absolute
    /// IRI.
    pub fn add_class_target(&mut self, class_targets: Vec<&str>) -> (r: Result<(), ParseError>)
        ensures
            r matches Ok(_) <==> (forall|i: int|
                0 <= i < class_targets@.len() ==> is_absolute_iri(#[trigger] class_targets@[i]@)),
            r matches Ok(_) ==> final(self)@ == (PropertyView {
                target: Some(TargetTypeView::Class(
                    class_targets@.map_values(|c: &str| c@),
                )),
                ..old(self)@
            }),
            r matches Err(e) ==> *final(self) == *old(self) && (e matches ParseError::InvalidIri(
                s,
            ) && !is_absolute_iri(s@)),
    {
        proof {
            use_type_invariant(&*self);
        }
        let mut targets: Vec<String> = Vec::new();
        let n = class_targets.len();
        for i in 0..n
            invariant
                n == class_targets@.len(),
                targets@.len() == i,
                forall|j: int| 0 <= j < i ==> #[trigger] targets@[j]@ == class_targets@[j]@,
                forall|j: int| 0 <= j < i ==> is_absolute_iri(#[trigger] class_targets@[j]@),
        {
            let ct = class_targets[i];
            if !check_absolute_iri(ct) {
                return Err(ParseError::InvalidIri(String::from_str(ct)));
            }
            targets.push(String::from_str(ct));
        }
        self.target = Some(TargetType::Class(targets));
        proof {
            assert(targets@.map_values(|c: String| c@) =~= class_targets@.map_values(
                |c: &str| c@,
            ));
        }
        Ok(())
    }

    /// Sets or overwrites the minimum-cardinality bound.
    pub fn add_min_count(&mut self, min_count: usize)
        ensures
            final(self)@ == (PropertyView { min_count: Some(min_count as int), ..old(self)@ }),
    {
        proof {
            use_type_invariant(&*self);
        }
        self.min_count = Some(min_count);
    }

    /// Sets or overwrites the maximum-cardinality bound.
    pub fn add_max_count(&mut self, max_count: usize)
        ensures
            final(self)@ == (PropertyView { max_count: Some(max_count as int), ..old(self)@ }),
    {
        proof {
            use_type_invariant(&*self);
        }
        self.max_count = Some(max_count);
    }

    /// Replaces the target with an `xsd:string` datatype constraint.
    pub fn add_datatype_string(&mut self)
        ensures
            final(self)@ == (PropertyView {
                target: Some(TargetTypeView::DataType(DataType::String)),
                ..old(self)@
            }),
    {
        proof {
            use_type_invariant(&*self);
        }
        self.target = Some(TargetType::DataType(DataType::String));
    }

    /// Replaces the target with an `xsd:integer` datatype constraint.
    pub fn add_datatype_int(&mut self)
        ensures
            final(self)@ == (PropertyView {
                target: Some(TargetTypeView::DataType(DataType::Integer)),
                ..old(self)@
            }),
    {
        proof {
            use_type_invariant(&*self);
        }
        self.target = Some(TargetType::DataType(DataType::Integer));
    }

    /// The property's path IRI.
    pub fn path(&self) -> (r: &str)
        ensures
            r@ == self@.path,
            is_absolute_iri(r@),
    {
        proof {
            use_type_invariant(self);
        }
        self.path.as_str()
    }

    /// The property's target constraint, if one has been set.
    pub fn target(&self) -> (r: &Option<TargetType>)
        ensures
            self@.target == (match r {
                Some(t) => Some(t@),
                None => None,
            }),
            r matches Some(TargetType::Class(cs)) ==> forall|i: int|
                0 <= i < cs@.len() ==> is_absolute_iri(#[trigger] cs@[i]@),
    {
        proof {
            use_type_invariant(self);
            match &self.target {
                Some(TargetType::Class(cs)) => {
                    assert forall|i: int| 0 <= i < cs@.len() implies is_absolute_iri(
                        #[trigger] cs@[i]@,
                    ) by {
                        let csv = cs@.map_values(|c: String| c@);
                        assert(self@.target == Some(TargetTypeView::Class(csv)));
                        assert(csv.len() == cs@.len());
                        let payload = self@.target->Some_0->Class_0;
                        assert(payload == csv);
                        assert(is_absolute_iri(payload[i]));
                        assert(csv[i] == cs@[i]@);
                    }
                },
                _ => {},
            }
        }
        &self.target
    }

    /// The minimum-cardinality bound, if one has been set.
    pub fn min_count(&self) -> (r: Option<usize>)
        ensures
            self@.min_count == (match r {
                Some(n) => Some(n as int),
                None => None,
            }),
    {
        self.min_count
    }

    /// The maximum-cardinality bound, if one has been set.
    pub fn max_count(&self) -> (r: Option<usize>)
        ensures
            self@.max_count == (match r {
                Some(n) => Some(n as int),
                None => None,
            }),
    {
        self.max_count
    }
}

} // verus!
