//! The imports a model holds: its submodels and its references.
use vstd::prelude::*;

use crate::ordmap::key_index;
use crate::paths::ModelPath;
use crate::span::Span;

verus! {

/// A submodel of a model, keyed on the model by its alias.
///
/// A direct submodel (`use a as b`) has an empty navigation path; one
/// extracted with `with` records the chain of aliases navigated within the
/// parent, and its reference name is the parent's alias.
#[derive(Debug)]
pub struct SubmodelImport {
    pub name: String,
    pub name_span: Span,
    pub reference_name: String,
    pub submodel_path: Vec<String>,
}

/// The view of a [`SubmodelImport`].
pub struct SpecSubmodelImport {
    pub name: Seq<char>,
    pub name_span: Span,
    pub reference_name: Seq<char>,
    pub submodel_path: Seq<Seq<char>>,
}

impl DeepView for SubmodelImport {
    type V = SpecSubmodelImport;

    open spec fn deep_view(&self) -> SpecSubmodelImport {
        SpecSubmodelImport {
            name: self.name@,
            name_span: self.name_span,
            reference_name: self.reference_name@,
            submodel_path: self.submodel_path.deep_view(),
        }
    }
}

impl SubmodelImport {
    /// A direct submodel import.
    pub fn new(name: String, name_span: Span, reference_name: String) -> (r: Self)
        ensures
            r.deep_view() == (SpecSubmodelImport {
                name: name@,
                name_span,
                reference_name: reference_name@,
                submodel_path: Seq::empty(),
            }),
    {
        let r = SubmodelImport { name, name_span, reference_name, submodel_path: Vec::new() };
        assert(r.submodel_path.deep_view() =~= Seq::<Seq<char>>::empty());
        r
    }

    /// A submodel extracted from a parent through the given alias chain.
    pub fn extracted(
        name: String,
        name_span: Span,
        reference_name: String,
        submodel_path: Vec<String>,
    ) -> (r: Self)
        ensures
            r.deep_view() == (SpecSubmodelImport {
                name: name@,
                name_span,
                reference_name: reference_name@,
                submodel_path: submodel_path.deep_view(),
            }),
    {
        SubmodelImport { name, name_span, reference_name, submodel_path }
    }

    /// The model name as written in the source.
    pub fn name(&self) -> (r: &String)
        ensures
            r@ == self.name@,
    {
        &self.name
    }

    /// The span of the name.
    pub fn name_span(&self) -> (r: Span)
        ensures
            r == self.name_span,
    {
        self.name_span
    }

    /// The reference that the submodel goes through.
    pub fn reference_name(&self) -> (r: &String)
        ensures
            r@ == self.reference_name@,
    {
        &self.reference_name
    }

    /// The aliases navigated within the parent (empty for a direct submodel).
    pub fn submodel_path(&self) -> (r: &[String])
        ensures
            r@ == self.submodel_path@,
    {
        self.submodel_path.as_slice()
    }

    /// Whether the submodel was extracted with `with`.
    pub fn is_extracted(&self) -> (r: bool)
        ensures
            r == (self.submodel_path@.len() > 0),
    {
        self.submodel_path.len() > 0
    }
}

/// A reference to another model, with the path it resolved to.
#[derive(Debug)]
pub struct ReferenceImport {
    pub name: String,
    pub name_span: Span,
    pub path: ModelPath,
}

/// The view of a [`ReferenceImport`].
pub struct SpecReferenceImport {
    pub name: Seq<char>,
    pub name_span: Span,
    pub path: Seq<char>,
}

impl DeepView for ReferenceImport {
    type V = SpecReferenceImport;

    open spec fn deep_view(&self) -> SpecReferenceImport {
        SpecReferenceImport { name: self.name@, name_span: self.name_span, path: self.path.deep_view() }
    }
}

impl ReferenceImport {
    /// A reference import.
    pub fn new(name: String, name_span: Span, path: ModelPath) -> (r: Self)
        ensures
            r.deep_view() == (SpecReferenceImport {
                name: name@,
                name_span,
                path: path.deep_view(),
            }),
    {
        ReferenceImport { name, name_span, path }
    }

    /// The name of the reference.
    pub fn name(&self) -> (r: &String)
        ensures
            r@ == self.name@,
    {
        &self.name
    }

    /// The span of the name.
    pub fn name_span(&self) -> (r: Span)
        ensures
            r == self.name_span,
    {
        self.name_span
    }

    /// The path the reference resolved to.
    pub fn path(&self) -> (r: &ModelPath)
        ensures
            r.deep_view() == self.path.deep_view(),
    {
        &self.path
    }
}

/// Every submodel of a model goes through a reference that the model has.
pub open spec fn imports_wf(
    submodels: Seq<(Seq<char>, SpecSubmodelImport)>,
    references: Seq<(Seq<char>, SpecReferenceImport)>,
) -> bool {
    forall|i: int|
        0 <= i < submodels.len() ==> key_index(references, #[trigger] submodels[i].1.reference_name) >= 0
}

} // verus!
