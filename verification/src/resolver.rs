//! Resolution of the `use`/`ref` declarations of the model being resolved
//! (the active model) against the models resolved before it.
use vstd::prelude::*;

use crate::ast::{
    IdentifierNode, ModelInfo, ModelKind, SpecModelInfo, SpecNode, SpecUseModel, UseModelNode, ModelInfoNode,
    SubmodelListNode, spec_model_alias, spec_model_name,
};
use crate::imports::{ReferenceImport, SpecReferenceImport, SpecSubmodelImport, SubmodelImport, imports_wf};
use crate::ir::{Model, SpecModel, submodel_reference};
use crate::ordmap::{OrderedMap, key_index, map_get, map_insert};
use crate::paths::{ModelPath, relative_path, sibling_path};
use crate::span::Span;

verus! {

// ------------------------------------------------------------------------
// Errors
// ------------------------------------------------------------------------

/// Why a model import could not be resolved.
#[derive(Debug)]
pub enum ModelImportResolutionError {
    /// The alias is already the name of a reference of the active model.
    DuplicateReference { reference_name: String, original_span: Span, duplicate_span: Span },
    /// The alias is already the name of a submodel of the active model.
    DuplicateSubmodel { submodel: String, original_span: Span, duplicate_span: Span },
    /// The imported model failed to load or resolve.
    ModelHasError { model_path: ModelPath, reference_span: Span },
    /// A model on the dotted path has no submodel of that name.
    UndefinedSubmodel { parent_model_path: ModelPath, submodel: String, reference_span: Span },
    /// The model that a `with` clause extracts from could not be resolved.
    ParentModelHasError {
        parent_model_name: String,
        parent_model_name_span: Span,
        reference_name: String,
        reference_span: Span,
    },
}

/// The view of a [`ModelImportResolutionError`].
pub enum SpecImportError {
    DuplicateReference { reference_name: Seq<char>, original_span: Span, duplicate_span: Span },
    DuplicateSubmodel { submodel: Seq<char>, original_span: Span, duplicate_span: Span },
    ModelHasError { model_path: Seq<char>, reference_span: Span },
    UndefinedSubmodel { parent_model_path: Seq<char>, submodel: Seq<char>, reference_span: Span },
    ParentModelHasError {
        parent_model_name: Seq<char>,
        parent_model_name_span: Span,
        reference_name: Seq<char>,
        reference_span: Span,
    },
}

impl DeepView for ModelImportResolutionError {
    type V = SpecImportError;

    open spec fn deep_view(&self) -> SpecImportError {
        match self {
            ModelImportResolutionError::DuplicateReference { reference_name, original_span, duplicate_span } =>
                SpecImportError::DuplicateReference {
                    reference_name: reference_name@,
                    original_span: *original_span,
                    duplicate_span: *duplicate_span,
                },
            ModelImportResolutionError::DuplicateSubmodel { submodel, original_span, duplicate_span } =>
                SpecImportError::DuplicateSubmodel {
                    submodel: submodel@,
                    original_span: *original_span,
                    duplicate_span: *duplicate_span,
                },
            ModelImportResolutionError::ModelHasError { model_path, reference_span } =>
                SpecImportError::ModelHasError {
                    model_path: model_path.deep_view(),
                    reference_span: *reference_span,
                },
            ModelImportResolutionError::UndefinedSubmodel { parent_model_path, submodel, reference_span } =>
                SpecImportError::UndefinedSubmodel {
                    parent_model_path: parent_model_path.deep_view(),
                    submodel: submodel@,
                    reference_span: *reference_span,
                },
            ModelImportResolutionError::ParentModelHasError {
                parent_model_name,
                parent_model_name_span,
                reference_name,
                reference_span,
            } => SpecImportError::ParentModelHasError {
                parent_model_name: parent_model_name@,
                parent_model_name_span: *parent_model_name_span,
                reference_name: reference_name@,
                reference_span: *reference_span,
            },
        }
    }
}

// ------------------------------------------------------------------------
// The models resolved before the active one
// ------------------------------------------------------------------------

/// The view of the models known to a resolution: the resolved ones, keyed by
/// path, and the paths of those that failed.
pub struct SpecRegistry {
    pub models: Seq<(Seq<char>, SpecModel)>,
    pub errors: Seq<Seq<char>>,
}

/// What a lookup of a model path finds.
pub enum SpecLookup {
    Found(SpecModel),
    HasError,
    NotFound,
}

/// Each known model keeps its submodel/reference invariant.
pub open spec fn registry_wf(reg: SpecRegistry) -> bool {
    forall|i: int|
        0 <= i < reg.models.len() ==> imports_wf(
            (#[trigger] reg.models[i]).1.submodels,
            reg.models[i].1.references,
        )
}

/// A failed model is reported as such; otherwise the resolved model with
/// that path is found.
pub open spec fn lookup(reg: SpecRegistry, p: Seq<char>) -> SpecLookup {
    if reg.errors.contains(p) {
        SpecLookup::HasError
    } else if key_index(reg.models, p) >= 0 {
        SpecLookup::Found(reg.models[key_index(reg.models, p)].1)
    } else {
        SpecLookup::NotFound
    }
}

/// The path that `p` followed by the dotted `subs` leads to, or why it
/// leads nowhere. `None` when the walk reaches a model that is unknown.
pub open spec fn resolve_path(
    reg: SpecRegistry,
    p: Seq<char>,
    span: Span,
    subs: Seq<SpecNode<Seq<char>>>,
) -> Option<Result<Seq<char>, SpecImportError>>
    decreases subs.len(),
{
    match lookup(reg, p) {
        SpecLookup::NotFound => None,
        SpecLookup::HasError => Some(Err(SpecImportError::ModelHasError { model_path: p, reference_span: span })),
        SpecLookup::Found(m) => if subs.len() == 0 {
            Some(Ok(p))
        } else {
            match submodel_reference(m, subs[0].value) {
                None => Some(
                    Err(
                        SpecImportError::UndefinedSubmodel {
                            parent_model_path: p,
                            submodel: subs[0].value,
                            reference_span: subs[0].span,
                        },
                    ),
                ),
                Some(r) => resolve_path(reg, r.path, subs[0].span, subs.drop_first()),
            }
        },
    }
}

// ------------------------------------------------------------------------
// What resolving the imports does to the active model
// ------------------------------------------------------------------------

/// The texts of a sequence of identifier views.
pub open spec fn node_texts(s: Seq<SpecNode<Seq<char>>>) -> Seq<Seq<char>> {
    Seq::new(s.len(), |i: int| s[i].value)
}

/// The state with an error recorded under `k`.
pub open spec fn with_error(st: SpecActive, k: Seq<char>, sub: Option<Seq<char>>, e: SpecImportError) -> SpecActive {
    SpecActive { submodels: st.submodels, references: st.references, errors: map_insert(st.errors, k, (sub, e)) }
}

/// The state with a submodel recorded under `k`.
pub open spec fn with_submodel(st: SpecActive, k: Seq<char>, s: SpecSubmodelImport) -> SpecActive {
    SpecActive { submodels: map_insert(st.submodels, k, s), references: st.references, errors: st.errors }
}

/// The state with a reference recorded under `k`.
pub open spec fn with_reference(st: SpecActive, k: Seq<char>, r: SpecReferenceImport) -> SpecActive {
    SpecActive { submodels: st.submodels, references: map_insert(st.references, k, r), errors: st.errors }
}

/// The path of the model that a declaration in the model at `model_path`
/// imports.
pub open spec fn import_path(model_path: Seq<char>, u: SpecUseModel) -> Seq<char> {
    sibling_path(model_path, relative_path(u.directory_path, u.model.value.top_component.value))
}

/// The dotted path that a `with` item names inside its parent.
pub open spec fn extraction_chain(info: SpecModelInfo) -> Seq<SpecNode<Seq<char>>> {
    seq![info.top_component] + info.subcomponents
}

/// The effect of one item of a `with` clause whose parent resolved to
/// `parent_path` under the alias `parent_ref`.
pub open spec fn extract_one(
    reg: SpecRegistry,
    parent_path: Seq<char>,
    parent_ref: Seq<char>,
    st: SpecActive,
    info: SpecModelInfo,
) -> SpecActive {
    let alias = spec_model_alias(info);
    let name = spec_model_name(info);
    match map_get(st.references, alias.value) {
        Some(orig) => with_error(
            st,
            alias.value,
            None,
            SpecImportError::DuplicateReference {
                reference_name: alias.value,
                original_span: orig.name_span,
                duplicate_span: alias.span,
            },
        ),
        None => match resolve_path(reg, parent_path, alias.span, extraction_chain(info)) {
            Some(Ok(p)) => with_reference(
                with_submodel(
                    st,
                    alias.value,
                    SpecSubmodelImport {
                        name: name.value,
                        name_span: name.span,
                        reference_name: parent_ref,
                        submodel_path: node_texts(extraction_chain(info)),
                    },
                ),
                alias.value,
                SpecReferenceImport { name: alias.value, name_span: alias.span, path: p },
            ),
            Some(Err(e)) => with_error(st, alias.value, None, e),
            None => st,
        },
    }
}

/// The effect of the items of a `with` clause, in order.
pub open spec fn extract_all(
    reg: SpecRegistry,
    parent_path: Seq<char>,
    parent_ref: Seq<char>,
    st: SpecActive,
    infos: Seq<SpecNode<SpecModelInfo>>,
) -> SpecActive
    decreases infos.len(),
{
    if infos.len() == 0 {
        st
    } else {
        extract_one(
            reg,
            parent_path,
            parent_ref,
            extract_all(reg, parent_path, parent_ref, st, infos.drop_last()),
            infos.last().value,
        )
    }
}

/// The errors recorded for the items of a `with` clause whose parent could
/// not be resolved.
pub open spec fn parent_errors(
    st: SpecActive,
    parent: Seq<char>,
    parent_span: Span,
    infos: Seq<SpecNode<SpecModelInfo>>,
) -> SpecActive
    decreases infos.len(),
{
    if infos.len() == 0 {
        st
    } else {
        let a = spec_model_alias(infos.last().value);
        with_error(
            parent_errors(st, parent, parent_span, infos.drop_last()),
            a.value,
            Some(parent),
            SpecImportError::ParentModelHasError {
                parent_model_name: parent,
                parent_model_name_span: parent_span,
                reference_name: a.value,
                reference_span: a.span,
            },
        )
    }
}

/// The effect of one `use`/`ref` declaration of the model at `model_path`.
///
/// An alias that already names a reference (or, for a submodel, a submodel)
/// is reported and nothing else happens. Otherwise the imported model is
/// resolved: on success the submodel (for `use`) and the reference are
/// recorded and the `with` items are extracted from it; on failure the error
/// is recorded, and each `with` item gets an error naming the parent.
pub open spec fn resolve_one(reg: SpecRegistry, model_path: Seq<char>, st: SpecActive, u: SpecUseModel) -> SpecActive {
    let alias = spec_model_alias(u.model.value);
    let name = spec_model_name(u.model.value);
    let is_sub = u.model_kind == ModelKind::Submodel;
    let sub_name: Option<Seq<char>> = if is_sub { Some(alias.value) } else { None };
    let ref_dup = map_get(st.references, alias.value);
    let sub_dup = if is_sub { map_get(st.submodels, alias.value) } else { None };
    if ref_dup is Some || sub_dup is Some {
        let st1 = match ref_dup {
            Some(o) => with_error(
                st,
                alias.value,
                sub_name,
                SpecImportError::DuplicateReference {
                    reference_name: alias.value,
                    original_span: o.name_span,
                    duplicate_span: alias.span,
                },
            ),
            None => st,
        };
        match sub_dup {
            Some(o) => with_error(
                st1,
                alias.value,
                Some(alias.value),
                SpecImportError::DuplicateSubmodel {
                    submodel: alias.value,
                    original_span: o.name_span,
                    duplicate_span: alias.span,
                },
            ),
            None => st1,
        }
    } else {
        match resolve_path(reg, import_path(model_path, u), alias.span, u.model.value.subcomponents) {
            Some(Ok(p)) => {
                let st1 = if is_sub {
                    with_submodel(
                        st,
                        alias.value,
                        SpecSubmodelImport {
                            name: name.value,
                            name_span: name.span,
                            reference_name: alias.value,
                            submodel_path: Seq::empty(),
                        },
                    )
                } else {
                    st
                };
                let st2 = with_reference(st1, alias.value, SpecReferenceImport { name: alias.value, name_span: alias.span, path: p });
                match u.submodel_list {
                    Some(l) => extract_all(reg, p, alias.value, st2, l.value),
                    None => st2,
                }
            },
            Some(Err(e)) => {
                let st1 = with_error(st, alias.value, sub_name, e);
                match u.submodel_list {
                    Some(l) => parent_errors(st1, alias.value, alias.span, l.value),
                    None => st1,
                }
            },
            None => st,
        }
    }
}

/// The effect of the declarations, in order.
pub open spec fn resolve_all(reg: SpecRegistry, model_path: Seq<char>, st: SpecActive, us: Seq<SpecUseModel>) -> SpecActive
    decreases us.len(),
{
    if us.len() == 0 {
        st
    } else {
        resolve_one(reg, model_path, resolve_all(reg, model_path, st, us.drop_last()), us.last())
    }
}

/// Every model that the declaration may have to look at is known (resolved
/// or failed): the imported model and the models on its dotted path, and,
/// when it resolves, the models that its `with` items name.
pub open spec fn import_defined(reg: SpecRegistry, model_path: Seq<char>, u: SpecUseModel) -> bool {
    let alias = spec_model_alias(u.model.value);
    let r = resolve_path(reg, import_path(model_path, u), alias.span, u.model.value.subcomponents);
    &&& r is Some
    &&& (r matches Some(Ok(p)) ==> (u.submodel_list matches Some(l) ==> forall|j: int|
        0 <= j < l.value.len() ==> (#[trigger] resolve_path(
            reg,
            p,
            spec_model_alias(l.value[j].value).span,
            extraction_chain(l.value[j].value),
        )) is Some))
}

/// The views of the declarations.
pub open spec fn use_views(s: Seq<&UseModelNode>) -> Seq<SpecUseModel> {
    Seq::new(s.len(), |i: int| s[i].value.deep_view())
}

/// The views of a sequence of identifiers.
pub open spec fn ident_views(s: Seq<&IdentifierNode>) -> Seq<SpecNode<Seq<char>>> {
    Seq::new(s.len(), |i: int| s[i].deep_view())
}

/// What a lookup of a model path found.
pub enum ModelResult<'a> {
    Found(&'a Model),
    HasError,
    NotFound,
}

// ------------------------------------------------------------------------
// The resolution context
// ------------------------------------------------------------------------

/// The state of a resolution: the models resolved before, and the imports
/// and import errors recorded so far for the active model.
#[derive(Debug)]
pub struct ResolutionContext {
    pub models: OrderedMap<Model>,
    pub model_errors: Vec<ModelPath>,
    pub submodels: OrderedMap<SubmodelImport>,
    pub references: OrderedMap<ReferenceImport>,
    pub model_import_errors: OrderedMap<(Option<String>, ModelImportResolutionError)>,
}

/// The view of what has been recorded for the active model.
pub struct SpecActive {
    pub submodels: Seq<(Seq<char>, SpecSubmodelImport)>,
    pub references: Seq<(Seq<char>, SpecReferenceImport)>,
    pub errors: Seq<(Seq<char>, (Option<Seq<char>>, SpecImportError))>,
}

impl ResolutionContext {
    /// The models known to the resolution.
    pub open spec fn registry(&self) -> SpecRegistry {
        SpecRegistry {
            models: self.models.deep_view(),
            errors: self.model_errors@.map_values(|p: ModelPath| p.deep_view()),
        }
    }

    /// What has been recorded for the active model.
    pub open spec fn active(&self) -> SpecActive {
        SpecActive {
            submodels: self.submodels.deep_view(),
            references: self.references.deep_view(),
            errors: self.model_import_errors.deep_view(),
        }
    }

    /// A context with no known models and nothing recorded.
    pub fn new() -> (r: Self)
        ensures
            r.registry().models.len() == 0,
            r.registry().errors.len() == 0,
            r.active().submodels.len() == 0,
            r.active().references.len() == 0,
            r.active().errors.len() == 0,
    {
        ResolutionContext {
            models: OrderedMap::new(),
            model_errors: Vec::new(),
            submodels: OrderedMap::new(),
            references: OrderedMap::new(),
            model_import_errors: OrderedMap::new(),
        }
    }

    /// Records a resolved model under its path.
    pub fn add_model(&mut self, path: &ModelPath, model: Model)
        ensures
            final(self).registry().models == map_insert(old(self).registry().models, path.deep_view(), model.deep_view()),
            final(self).registry().errors == old(self).registry().errors,
            final(self).active() == old(self).active(),
    {
        self.models.insert(path.path.clone(), model);
    }

    /// Records that the model at `path` failed.
    pub fn add_model_error(&mut self, path: &ModelPath)
        ensures
            final(self).registry().models == old(self).registry().models,
            final(self).registry().errors == old(self).registry().errors.push(path.deep_view()),
            final(self).active() == old(self).active(),
    {
        let ghost old_errors = self.registry().errors;
        self.model_errors.push(path.duplicate());
        assert(self.registry().errors =~= old_errors.push(path.deep_view()));
    }

    /// Looks up the model at `path`.
    pub fn lookup_model(&self, path: &ModelPath) -> (r: ModelResult<'_>)
        ensures
            match r {
                ModelResult::Found(m) => lookup(self.registry(), path.deep_view()) == SpecLookup::Found(m.deep_view()),
                ModelResult::HasError => lookup(self.registry(), path.deep_view()) is HasError,
                ModelResult::NotFound => lookup(self.registry(), path.deep_view()) is NotFound,
            },
    {
        let mut i: usize = 0;
        while i < self.model_errors.len()
            invariant
                i <= self.model_errors@.len(),
                forall|j: int| 0 <= j < i ==> self.model_errors@[j].deep_view() != path.deep_view(),
            decreases self.model_errors@.len() - i,
        {
            if self.model_errors[i].same_as(path) {
                proof {
                    assert(self.registry().errors[i as int] == path.deep_view());
                }
                return ModelResult::HasError;
            }
            i = i + 1;
        }
        proof {
            if self.registry().errors.contains(path.deep_view()) {
                let j = choose|j: int| 0 <= j < self.registry().errors.len() && self.registry().errors[j] == path.deep_view();
                assert(self.model_errors@[j].deep_view() == path.deep_view());
            }
        }
        match self.models.index_of(&path.path) {
            Some(k) => {
                let m = &self.models.entries[k].1;
                proof {
                    assert(self.models.deep_view()[k as int].1 == m.deep_view());
                }
                ModelResult::Found(m)
            },
            None => ModelResult::NotFound,
        }
    }

    /// Follows `subs` from the model at `model_path`, as the dotted path of
    /// a declaration, and returns the path of the model it names.
    pub fn resolve_model_path(
        &self,
        model_path: ModelPath,
        model_name_span: Span,
        subs: &[&IdentifierNode],
    ) -> (r: Result<ModelPath, ModelImportResolutionError>)
        requires
            registry_wf(self.registry()),
            resolve_path(self.registry(), model_path.deep_view(), model_name_span, ident_views(subs@)) is Some,
        ensures
            resolve_path(self.registry(), model_path.deep_view(), model_name_span, ident_views(subs@))
                == Some(match r {
                    Ok(p) => Ok::<Seq<char>, SpecImportError>(p.deep_view()),
                    Err(e) => Err(e.deep_view()),
                }),
    {
        let ghost reg = self.registry();
        let ghost all = ident_views(subs@);
        let ghost goal = resolve_path(reg, model_path.deep_view(), model_name_span, all);
        let mut path = model_path;
        let mut span = model_name_span;
        let mut i: usize = 0;
        assert(all.skip(0) =~= all);
        loop
            invariant
                i <= subs@.len(),
                reg == self.registry(),
                registry_wf(reg),
                all == ident_views(subs@),
                goal is Some,
                goal == resolve_path(reg, model_path.deep_view(), model_name_span, all),
                resolve_path(reg, path.deep_view(), span, all.skip(i as int)) == goal,
            decreases subs@.len() - i,
        {
            let ghost rest = all.skip(i as int);
            match self.lookup_model(&path) {
                ModelResult::NotFound => {
                    proof {
                        assert(false);
                    }
                    return Err(ModelImportResolutionError::ModelHasError { model_path: path, reference_span: span });
                },
                ModelResult::HasError => {
                    return Err(ModelImportResolutionError::ModelHasError { model_path: path, reference_span: span });
                },
                ModelResult::Found(m) => {
                    if i == subs.len() {
                        proof {
                            assert(rest.len() == 0);
                        }
                        return Ok(path);
                    }
                    let sub = subs[i];
                    proof {
                        assert(rest[0] == sub.deep_view());
                        let k = key_index(reg.models, path.deep_view());
                        crate::ordmap::lemma_key_index_from(reg.models, path.deep_view(), 0);
                        assert(imports_wf(reg.models[k].1.submodels, reg.models[k].1.references));
                        assert(m.deep_view() == reg.models[k].1);
                    }
                    match m.get_submodel_reference(&sub.value.text) {
                        None => {
                            return Err(
                                ModelImportResolutionError::UndefinedSubmodel {
                                    parent_model_path: path,
                                    submodel: sub.value.text.clone(),
                                    reference_span: sub.span,
                                },
                            );
                        },
                        Some(rf) => {
                            proof {
                                assert(all.skip(i + 1) =~= rest.drop_first());
                            }
                            path = rf.path.duplicate();
                            span = sub.span;
                            i = i + 1;
                        },
                    }
                },
            }
        }
    }
}
impl ResolutionContext {
    /// The reference of the active model named `name`.
    pub fn get_reference_from_active_model(&self, name: &String) -> (r: Option<&ReferenceImport>)
        ensures
            match r {
                Some(x) => map_get(self.active().references, name@) == Some(x.deep_view()),
                None => map_get(self.active().references, name@) is None,
            },
    {
        self.references.get(name)
    }

    /// The submodel of the active model with alias `name`.
    pub fn get_submodel_from_active_model(&self, name: &String) -> (r: Option<&SubmodelImport>)
        ensures
            match r {
                Some(x) => map_get(self.active().submodels, name@) == Some(x.deep_view()),
                None => map_get(self.active().submodels, name@) is None,
            },
    {
        self.submodels.get(name)
    }

    /// Records a direct submodel of the active model under its alias.
    pub fn add_submodel_to_active_model(&mut self, reference_name: String, name: String, name_span: Span)
        ensures
            final(self).registry() == old(self).registry(),
            final(self).active() == with_submodel(
                old(self).active(),
                reference_name@,
                SpecSubmodelImport { name: name@, name_span, reference_name: reference_name@, submodel_path: Seq::empty() },
            ),
    {
        let s = SubmodelImport::new(name, name_span, reference_name.clone());
        self.submodels.insert(reference_name, s);
    }

    /// Records a submodel extracted with `with` under its alias.
    pub fn add_extracted_submodel_to_active_model(
        &mut self,
        reference_name: String,
        name: String,
        name_span: Span,
        parent_reference_name: String,
        submodel_path: Vec<String>,
    )
        ensures
            final(self).registry() == old(self).registry(),
            final(self).active() == with_submodel(
                old(self).active(),
                reference_name@,
                SpecSubmodelImport {
                    name: name@,
                    name_span,
                    reference_name: parent_reference_name@,
                    submodel_path: submodel_path.deep_view(),
                },
            ),
    {
        let s = SubmodelImport::extracted(name, name_span, parent_reference_name, submodel_path);
        self.submodels.insert(reference_name, s);
    }

    /// Records a reference of the active model.
    pub fn add_reference_to_active_model(&mut self, name: String, name_span: Span, path: ModelPath)
        ensures
            final(self).registry() == old(self).registry(),
            final(self).active() == with_reference(
                old(self).active(),
                name@,
                SpecReferenceImport { name: name@, name_span, path: path.deep_view() },
            ),
    {
        let r = ReferenceImport::new(name.clone(), name_span, path);
        self.references.insert(name, r);
    }

    /// Records an import error of the active model under `reference_name`.
    pub fn add_model_import_resolution_error_to_active_model(
        &mut self,
        reference_name: String,
        submodel_name: Option<String>,
        error: ModelImportResolutionError,
    )
        ensures
            final(self).registry() == old(self).registry(),
            final(self).active() == with_error(
                old(self).active(),
                reference_name@,
                submodel_name.deep_view(),
                error.deep_view(),
            ),
    {
        self.model_import_errors.insert(reference_name, (submodel_name, error));
    }

    /// The submodels of the active model.
    pub fn get_active_model_submodels(&self) -> (r: &OrderedMap<SubmodelImport>)
        ensures
            r.deep_view() == self.active().submodels,
    {
        &self.submodels
    }

    /// The references of the active model.
    pub fn get_active_model_references(&self) -> (r: &OrderedMap<ReferenceImport>)
        ensures
            r.deep_view() == self.active().references,
    {
        &self.references
    }

    /// The import errors of the active model, with the submodel name each
    /// concerns.
    pub fn get_active_model_model_import_errors(&self) -> (r: &OrderedMap<(Option<String>, ModelImportResolutionError)>)
        ensures
            r.deep_view() == self.active().errors,
    {
        &self.model_import_errors
    }
}

/// The subcomponents of a model, as references.
fn subcomponent_refs(info: &ModelInfo) -> (r: Vec<&IdentifierNode>)
    ensures
        ident_views(r@) == info.deep_view().subcomponents,
{
    let mut r: Vec<&IdentifierNode> = Vec::new();
    let mut i: usize = 0;
    while i < info.subcomponents.len()
        invariant
            i <= info.subcomponents@.len(),
            r@.len() == i,
            forall|k: int| 0 <= k < i ==> *r@[k] == info.subcomponents@[k],
        decreases info.subcomponents@.len() - i,
    {
        r.push(&info.subcomponents[i]);
        i = i + 1;
    }
    assert(ident_views(r@) =~= info.deep_view().subcomponents);
    r
}

/// The top component followed by the subcomponents, as references.
fn extraction_chain_of(info: &ModelInfo) -> (r: Vec<&IdentifierNode>)
    ensures
        ident_views(r@) == extraction_chain(info.deep_view()),
{
    let mut r: Vec<&IdentifierNode> = Vec::new();
    r.push(&info.top_component);
    let mut i: usize = 0;
    while i < info.subcomponents.len()
        invariant
            i <= info.subcomponents@.len(),
            r@.len() == i + 1,
            *r@[0] == info.top_component,
            forall|k: int| 0 <= k < i ==> *r@[k + 1] == info.subcomponents@[k],
        decreases info.subcomponents@.len() - i,
    {
        r.push(&info.subcomponents[i]);
        i = i + 1;
    }
    assert(ident_views(r@) =~= extraction_chain(info.deep_view()));
    r
}

/// The texts of the identifiers.
fn texts_of(chain: &Vec<&IdentifierNode>) -> (r: Vec<String>)
    ensures
        r.deep_view() == node_texts(ident_views(chain@)),
{
    let mut r: Vec<String> = Vec::new();
    let mut i: usize = 0;
    while i < chain.len()
        invariant
            i <= chain@.len(),
            r@.len() == i,
            forall|k: int| 0 <= k < i ==> #[trigger] r@[k]@ == chain@[k].value.text@,
        decreases chain@.len() - i,
    {
        r.push(chain[i].value.text.clone());
        i = i + 1;
    }
    assert(r.deep_view() =~= node_texts(ident_views(chain@)));
    r
}

/// The path of the model that `model_import`, written in the model at
/// `model_path`, imports.
fn calc_import_path(model_path: &ModelPath, model_import: &UseModelNode) -> (r: ModelPath)
    ensures
        r.deep_view() == import_path(model_path.deep_view(), model_import.value.deep_view()),
{
    let relative = model_import.value.get_model_relative_path();
    model_path.get_sibling_model_path(&relative)
}

/// Resolves the items of a `with` clause against the parent model at
/// `parent_model_path`, imported under the alias `parent_reference_name`.
///
/// Each item is recorded as an extracted submodel and as a reference to the
/// model it names; an alias that is already a reference, or a path that
/// does not resolve, is recorded as an error instead.
pub fn resolve_extracted_submodels(
    parent_model_path: &ModelPath,
    parent_reference_name: &String,
    submodel_list: &SubmodelListNode,
    resolution_context: &mut ResolutionContext,
)
    requires
        registry_wf(old(resolution_context).registry()),
        forall|j: int|
            0 <= j < submodel_list.deep_view().value.len() ==> (#[trigger] resolve_path(
                old(resolution_context).registry(),
                parent_model_path.deep_view(),
                spec_model_alias(submodel_list.deep_view().value[j].value).span,
                extraction_chain(submodel_list.deep_view().value[j].value),
            )) is Some,
    ensures
        final(resolution_context).registry() == old(resolution_context).registry(),
        final(resolution_context).active() == extract_all(
            old(resolution_context).registry(),
            parent_model_path.deep_view(),
            parent_reference_name@,
            old(resolution_context).active(),
            submodel_list.deep_view().value,
        ),
{
    let ghost reg = resolution_context.registry();
    let ghost st0 = resolution_context.active();
    let ghost infos = submodel_list.deep_view().value;
    let items = submodel_list.value.items();
    let mut i: usize = 0;
    assert(infos.take(0) =~= Seq::<SpecNode<SpecModelInfo>>::empty());
    while i < items.len()
        invariant
            i <= items@.len(),
            items@ == submodel_list.value.items@,
            infos == submodel_list.deep_view().value,
            infos.len() == items@.len(),
            reg == resolution_context.registry(),
            registry_wf(reg),
            forall|j: int|
                0 <= j < infos.len() ==> (#[trigger] resolve_path(
                    reg,
                    parent_model_path.deep_view(),
                    spec_model_alias(infos[j].value).span,
                    extraction_chain(infos[j].value),
                )) is Some,
            resolution_context.active() == extract_all(
                reg,
                parent_model_path.deep_view(),
                parent_reference_name@,
                st0,
                infos.take(i as int),
            ),
        decreases items@.len() - i,
    {
        let info = &items[i].value;
        proof {
            assert(infos[i as int] == items@[i as int].deep_view());
            assert(infos.take(i + 1).drop_last() =~= infos.take(i as int));
            assert(infos.take(i + 1).last() == infos[i as int]);
        }
        let alias = info.get_alias();
        let name = info.get_model_name();
        let ghost before = resolution_context.active();
        let original = match resolution_context.get_reference_from_active_model(&alias.value.text) {
            Some(o) => Some(o.name_span()),
            None => None,
        };
        match original {
            Some(original_span) => {
                let error = ModelImportResolutionError::DuplicateReference {
                    reference_name: alias.value.text.clone(),
                    original_span,
                    duplicate_span: alias.span,
                };
                resolution_context.add_model_import_resolution_error_to_active_model(
                    alias.value.text.clone(),
                    None,
                    error,
                );
            },
            None => {
                let chain = extraction_chain_of(info);
                proof {
                    assert(resolve_path(
                        reg,
                        parent_model_path.deep_view(),
                        spec_model_alias(infos[i as int].value).span,
                        extraction_chain(infos[i as int].value),
                    ) is Some);
                }
                match resolution_context.resolve_model_path(parent_model_path.duplicate(), alias.span, chain.as_slice()) {
                    Ok(resolved) => {
                        let texts = texts_of(&chain);
                        resolution_context.add_extracted_submodel_to_active_model(
                            alias.value.text.clone(),
                            name.value.text.clone(),
                            name.span,
                            parent_reference_name.clone(),
                            texts,
                        );
                        resolution_context.add_reference_to_active_model(alias.value.text.clone(), alias.span, resolved);
                    },
                    Err(error) => {
                        resolution_context.add_model_import_resolution_error_to_active_model(
                            alias.value.text.clone(),
                            None,
                            error,
                        );
                    },
                }
            },
        }
        i = i + 1;
    }
    proof {
        assert(infos.take(items@.len() as int) =~= infos);
    }
}

/// Records the error of a declaration that could not be resolved, and an
/// error for each item of its `with` clause naming it as the parent.
pub fn handle_resolution_error(
    error: ModelImportResolutionError,
    model_import: &UseModelNode,
    reference_name: String,
    submodel_name: String,
    submodel_name_span: Span,
    is_submodel: bool,
    resolution_context: &mut ResolutionContext,
)
    ensures
        final(resolution_context).registry() == old(resolution_context).registry(),
        final(resolution_context).active() == ({
            let st1 = with_error(
                old(resolution_context).active(),
                reference_name@,
                if is_submodel { Some(submodel_name@) } else { None },
                error.deep_view(),
            );
            match model_import.value.deep_view().submodel_list {
                Some(l) => parent_errors(st1, submodel_name@, submodel_name_span, l.value),
                None => st1,
            }
        }),
{
    if is_submodel {
        resolution_context.add_model_import_resolution_error_to_active_model(
            reference_name,
            Some(submodel_name.clone()),
            error,
        );
    } else {
        resolution_context.add_model_import_resolution_error_to_active_model(reference_name, None, error);
    }
    let submodel_list = match model_import.value.imported_submodels() {
        Some(l) => l,
        None => {
            return;
        },
    };
    let ghost st1 = resolution_context.active();
    let ghost infos = submodel_list.deep_view().value;
    let items = submodel_list.value.items();
    let mut i: usize = 0;
    assert(infos.take(0) =~= Seq::<SpecNode<SpecModelInfo>>::empty());
    while i < items.len()
        invariant
            i <= items@.len(),
            items@ == submodel_list.value.items@,
            infos == submodel_list.deep_view().value,
            infos.len() == items@.len(),
            resolution_context.registry() == old(resolution_context).registry(),
            resolution_context.active() == parent_errors(st1, submodel_name@, submodel_name_span, infos.take(i as int)),
        decreases items@.len() - i,
    {
        let info = &items[i].value;
        proof {
            assert(infos[i as int] == items@[i as int].deep_view());
            assert(infos.take(i + 1).drop_last() =~= infos.take(i as int));
            assert(infos.take(i + 1).last() == infos[i as int]);
        }
        let alias = info.get_alias();
        let error = ModelImportResolutionError::ParentModelHasError {
            parent_model_name: submodel_name.clone(),
            parent_model_name_span: submodel_name_span,
            reference_name: alias.value.text.clone(),
            reference_span: alias.span,
        };
        resolution_context.add_model_import_resolution_error_to_active_model(
            alias.value.text.clone(),
            Some(submodel_name.clone()),
            error,
        );
        i = i + 1;
    }
    proof {
        assert(infos.take(items@.len() as int) =~= infos);
    }
}

/// Resolves one `use`/`ref` declaration of the model at `model_path`.
fn resolve_model_import(
    model_path: &ModelPath,
    model_import: &UseModelNode,
    resolution_context: &mut ResolutionContext,
)
    requires
        registry_wf(old(resolution_context).registry()),
        import_defined(old(resolution_context).registry(), model_path.deep_view(), model_import.value.deep_view()),
    ensures
        final(resolution_context).registry() == old(resolution_context).registry(),
        final(resolution_context).active() == resolve_one(
            old(resolution_context).registry(),
            model_path.deep_view(),
            old(resolution_context).active(),
            model_import.value.deep_view(),
        ),
{
    let ghost reg = resolution_context.registry();
    let ghost u = model_import.value.deep_view();
    let import_path = calc_import_path(model_path, model_import);
    let info = &model_import.value.model_info().value;
    let alias = info.get_alias();
    let name = info.get_model_name();
    let is_submodel = match model_import.value.model_kind() {
        ModelKind::Submodel => true,
        ModelKind::Reference => false,
    };
    let reference_duplicate = match resolution_context.get_reference_from_active_model(&alias.value.text) {
        Some(o) => Some(o.name_span()),
        None => None,
    };
    let submodel_duplicate = if is_submodel {
        match resolution_context.get_submodel_from_active_model(&alias.value.text) {
            Some(o) => Some(o.name_span()),
            None => None,
        }
    } else {
        None
    };
    let had_duplicate = reference_duplicate.is_some() || submodel_duplicate.is_some();
    if let Some(original_span) = reference_duplicate {
        let error = ModelImportResolutionError::DuplicateReference {
            reference_name: alias.value.text.clone(),
            original_span,
            duplicate_span: alias.span,
        };
        let submodel_name = if is_submodel {
            Some(alias.value.text.clone())
        } else {
            None
        };
        resolution_context.add_model_import_resolution_error_to_active_model(
            alias.value.text.clone(),
            submodel_name,
            error,
        );
    }
    if let Some(original_span) = submodel_duplicate {
        let error = ModelImportResolutionError::DuplicateSubmodel {
            submodel: alias.value.text.clone(),
            original_span,
            duplicate_span: alias.span,
        };
        resolution_context.add_model_import_resolution_error_to_active_model(
            alias.value.text.clone(),
            Some(alias.value.text.clone()),
            error,
        );
    }
    if had_duplicate {
        return;
    }
    let subcomponents = subcomponent_refs(info);
    let resolved = resolution_context.resolve_model_path(import_path, alias.span, subcomponents.as_slice());
    match resolved {
        Err(error) => {
            handle_resolution_error(
                error,
                model_import,
                alias.value.text.clone(),
                alias.value.text.clone(),
                alias.span,
                is_submodel,
                resolution_context,
            );
        },
        Ok(resolved_path) => {
            if is_submodel {
                resolution_context.add_submodel_to_active_model(
                    alias.value.text.clone(),
                    name.value.text.clone(),
                    name.span,
                );
            }
            let parent_path = resolved_path.duplicate();
            resolution_context.add_reference_to_active_model(alias.value.text.clone(), alias.span, resolved_path);
            match model_import.value.imported_submodels() {
                Some(submodel_list) => {
                    resolve_extracted_submodels(&parent_path, &alias.value.text, submodel_list, resolution_context);
                },
                None => {},
            }
        },
    }
}

/// Resolves the `use`/`ref` declarations of the model at `model_path`, in
/// order, recording the submodels, references and import errors of the
/// active model.
pub fn resolve_model_imports(
    model_path: &ModelPath,
    model_imports: Vec<&UseModelNode>,
    resolution_context: &mut ResolutionContext,
)
    requires
        registry_wf(old(resolution_context).registry()),
        forall|i: int|
            0 <= i < model_imports@.len() ==> import_defined(
                old(resolution_context).registry(),
                model_path.deep_view(),
                #[trigger] use_views(model_imports@)[i],
            ),
    ensures
        final(resolution_context).registry() == old(resolution_context).registry(),
        final(resolution_context).active() == resolve_all(
            old(resolution_context).registry(),
            model_path.deep_view(),
            old(resolution_context).active(),
            use_views(model_imports@),
        ),
{
    let ghost reg = resolution_context.registry();
    let ghost st0 = resolution_context.active();
    let ghost us = use_views(model_imports@);
    let mut i: usize = 0;
    assert(us.take(0) =~= Seq::<SpecUseModel>::empty());
    while i < model_imports.len()
        invariant
            i <= model_imports@.len(),
            us == use_views(model_imports@),
            reg == resolution_context.registry(),
            registry_wf(reg),
            forall|j: int| 0 <= j < model_imports@.len() ==> import_defined(reg, model_path.deep_view(), #[trigger] us[j]),
            resolution_context.active() == resolve_all(reg, model_path.deep_view(), st0, us.take(i as int)),
        decreases model_imports@.len() - i,
    {
        proof {
            assert(us.take(i + 1).drop_last() =~= us.take(i as int));
            assert(us.take(i + 1).last() == us[i as int]);
            assert(import_defined(reg, model_path.deep_view(), us[i as int]));
        }
        resolve_model_import(model_path, model_imports[i], resolution_context);
        i = i + 1;
    }
    proof {
        assert(us.take(model_imports@.len() as int) =~= us);
    }
}

} // verus!
