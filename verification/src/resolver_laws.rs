//! Laws of import resolution: what resolving a model's declarations keeps.
use vstd::prelude::*;

use crate::ast::{SpecModelInfo, SpecNode, SpecUseModel, spec_model_alias};
use crate::imports::{SpecReferenceImport, SpecSubmodelImport, imports_wf};
use crate::ordmap::{key_index, lemma_insert_get, lemma_insert_entries, lemma_key_index_from, map_get};
use crate::resolver::{
    SpecActive, SpecImportError, SpecLookup, SpecRegistry, extract_all, extract_one, lookup, parent_errors,
    resolve_all, resolve_one, resolve_path, with_error, with_reference, with_submodel,
};
use crate::span::Span;

verus! {

/// Every reference of `a` is in `b`, unchanged.
pub open spec fn refs_kept(a: SpecActive, b: SpecActive) -> bool {
    forall|k: Seq<char>| #[trigger] map_get(a.references, k) is Some ==> map_get(b.references, k) == map_get(a.references, k)
}

/// Every submodel of the state goes through a reference of the state.
pub open spec fn active_wf(a: SpecActive) -> bool {
    imports_wf(a.submodels, a.references)
}

/// Every reference that `b` has and `a` had not leads to a resolved model.
pub open spec fn new_refs_found(reg: SpecRegistry, a: SpecActive, b: SpecActive) -> bool {
    forall|k: Seq<char>|
        (#[trigger] map_get(b.references, k) is Some && map_get(a.references, k) is None) ==> lookup(
            reg,
            map_get(b.references, k)->0.path,
        ) is Found
}

proof fn lemma_with_reference(st: SpecActive, k: Seq<char>, r: SpecReferenceImport)
    requires
        map_get(st.references, k) is None,
    ensures
        refs_kept(st, with_reference(st, k, r)),
        active_wf(st) ==> active_wf(with_reference(st, k, r)),
        map_get(with_reference(st, k, r).references, k) == Some(r),
        forall|k2: Seq<char>| k2 != k ==> #[trigger] map_get(with_reference(st, k, r).references, k2) == map_get(st.references, k2),
{
    lemma_insert_get(st.references, k, r);
    let b = with_reference(st, k, r);
    if active_wf(st) {
        assert forall|i: int| 0 <= i < b.submodels.len() implies key_index(
            b.references,
            #[trigger] b.submodels[i].1.reference_name,
        ) >= 0 by {
            let n = b.submodels[i].1.reference_name;
            if n != k {
                assert(key_index(st.references, n) >= 0);
            }
        }
    }
}

proof fn lemma_sub_and_ref(st: SpecActive, k: Seq<char>, s: SpecSubmodelImport, k2: Seq<char>, r: SpecReferenceImport)
    requires
        active_wf(st),
        map_get(st.references, k2) is None,
        s.reference_name == k2 || key_index(st.references, s.reference_name) >= 0,
    ensures
        active_wf(with_reference(with_submodel(st, k, s), k2, r)),
        refs_kept(st, with_reference(with_submodel(st, k, s), k2, r)),
        map_get(with_reference(with_submodel(st, k, s), k2, r).references, k2) == Some(r),
        forall|k3: Seq<char>| k3 != k2 ==> #[trigger] map_get(with_reference(with_submodel(st, k, s), k2, r).references, k3) == map_get(st.references, k3),
{
    let st1 = with_submodel(st, k, s);
    let b = with_reference(st1, k2, r);
    lemma_insert_get(st.references, k2, r);
    assert forall|i: int| 0 <= i < b.submodels.len() implies key_index(
        b.references,
        #[trigger] b.submodels[i].1.reference_name,
    ) >= 0 by {
        lemma_insert_entries(st.submodels, k, s, i);
        let n = b.submodels[i].1.reference_name;
        if n != k2 {
            if b.submodels[i] != (k, s) {
                assert(b.submodels[i] == st.submodels[i]);
            }
            assert(key_index(st.references, n) >= 0);
        }
    }
}

proof fn lemma_resolve_path_found(reg: SpecRegistry, p: Seq<char>, span: Span, subs: Seq<SpecNode<Seq<char>>>)
    ensures
        resolve_path(reg, p, span, subs) matches Some(Ok(q)) ==> lookup(reg, q) is Found,
    decreases subs.len(),
{
    if let SpecLookup::Found(m) = lookup(reg, p) {
        if subs.len() > 0 {
            if let Some(r) = crate::ir::submodel_reference(m, subs[0].value) {
                lemma_resolve_path_found(reg, r.path, subs[0].span, subs.drop_first());
            }
        }
    }
}

proof fn lemma_extract_one(reg: SpecRegistry, pp: Seq<char>, pr: Seq<char>, st: SpecActive, info: SpecModelInfo)
    requires
        active_wf(st),
        key_index(st.references, pr) >= 0,
    ensures
        active_wf(extract_one(reg, pp, pr, st, info)),
        refs_kept(st, extract_one(reg, pp, pr, st, info)),
        new_refs_found(reg, st, extract_one(reg, pp, pr, st, info)),
{
    let alias = spec_model_alias(info);
    let b = extract_one(reg, pp, pr, st, info);
    if map_get(st.references, alias.value) is None {
        let r = resolve_path(reg, pp, alias.span, crate::resolver::extraction_chain(info));
        lemma_resolve_path_found(reg, pp, alias.span, crate::resolver::extraction_chain(info));
        if let Some(Ok(p)) = r {
            let s = SpecSubmodelImport {
                name: crate::ast::spec_model_name(info).value,
                name_span: crate::ast::spec_model_name(info).span,
                reference_name: pr,
                submodel_path: crate::resolver::node_texts(crate::resolver::extraction_chain(info)),
            };
            let rf = SpecReferenceImport { name: alias.value, name_span: alias.span, path: p };
            lemma_sub_and_ref(st, alias.value, s, alias.value, rf);
            assert forall|k: Seq<char>|
                (#[trigger] map_get(b.references, k) is Some && map_get(st.references, k) is None) implies lookup(
                reg,
                map_get(b.references, k)->0.path,
            ) is Found by {
                if k != alias.value {
                    assert(map_get(b.references, k) == map_get(st.references, k));
                }
            }
        }
    }
}

proof fn lemma_extract_all(
    reg: SpecRegistry,
    pp: Seq<char>,
    pr: Seq<char>,
    st: SpecActive,
    infos: Seq<SpecNode<SpecModelInfo>>,
)
    requires
        active_wf(st),
        key_index(st.references, pr) >= 0,
    ensures
        active_wf(extract_all(reg, pp, pr, st, infos)),
        refs_kept(st, extract_all(reg, pp, pr, st, infos)),
        new_refs_found(reg, st, extract_all(reg, pp, pr, st, infos)),
    decreases infos.len(),
{
    if infos.len() > 0 {
        let mid = extract_all(reg, pp, pr, st, infos.drop_last());
        lemma_extract_all(reg, pp, pr, st, infos.drop_last());
        lemma_key_index_from(st.references, pr, 0);
        assert(map_get(st.references, pr) is Some);
        lemma_key_index_from(mid.references, pr, 0);
        assert(key_index(mid.references, pr) >= 0);
        lemma_extract_one(reg, pp, pr, mid, infos.last().value);
        let b = extract_all(reg, pp, pr, st, infos);
        assert forall|k: Seq<char>|
            (#[trigger] map_get(b.references, k) is Some && map_get(st.references, k) is None) implies lookup(
            reg,
            map_get(b.references, k)->0.path,
        ) is Found by {
            if map_get(mid.references, k) is Some {
                assert(map_get(b.references, k) == map_get(mid.references, k));
            }
        }
    }
}

proof fn lemma_parent_errors(st: SpecActive, parent: Seq<char>, span: Span, infos: Seq<SpecNode<SpecModelInfo>>)
    ensures
        parent_errors(st, parent, span, infos).references == st.references,
        parent_errors(st, parent, span, infos).submodels == st.submodels,
    decreases infos.len(),
{
    if infos.len() > 0 {
        lemma_parent_errors(st, parent, span, infos.drop_last());
    }
}

proof fn lemma_resolve_one(reg: SpecRegistry, mp: Seq<char>, st: SpecActive, u: SpecUseModel)
    requires
        active_wf(st),
    ensures
        active_wf(resolve_one(reg, mp, st, u)),
        refs_kept(st, resolve_one(reg, mp, st, u)),
        new_refs_found(reg, st, resolve_one(reg, mp, st, u)),
{
    let alias = spec_model_alias(u.model.value);
    let name = crate::ast::spec_model_name(u.model.value);
    let is_sub = u.model_kind == crate::ast::ModelKind::Submodel;
    let sub_dup = if is_sub { map_get(st.submodels, alias.value) } else { None };
    let b = resolve_one(reg, mp, st, u);
    if map_get(st.references, alias.value) is None && sub_dup is None {
        let r = resolve_path(reg, crate::resolver::import_path(mp, u), alias.span, u.model.value.subcomponents);
        lemma_resolve_path_found(reg, crate::resolver::import_path(mp, u), alias.span, u.model.value.subcomponents);
        match r {
            Some(Ok(p)) => {
                let rf = SpecReferenceImport { name: alias.value, name_span: alias.span, path: p };
                let st2 = if is_sub {
                    let s = SpecSubmodelImport {
                        name: name.value,
                        name_span: name.span,
                        reference_name: alias.value,
                        submodel_path: Seq::empty(),
                    };
                    lemma_sub_and_ref(st, alias.value, s, alias.value, rf);
                    with_reference(with_submodel(st, alias.value, s), alias.value, rf)
                } else {
                    lemma_with_reference(st, alias.value, rf);
                    with_reference(st, alias.value, rf)
                };
                assert(map_get(st2.references, alias.value) == Some(rf));
                assert(new_refs_found(reg, st, st2)) by {
                    assert forall|k: Seq<char>|
                        (#[trigger] map_get(st2.references, k) is Some && map_get(st.references, k) is None) implies lookup(
                        reg,
                        map_get(st2.references, k)->0.path,
                    ) is Found by {
                        if k != alias.value {
                            assert(map_get(st2.references, k) == map_get(st.references, k));
                        }
                    }
                }
                if let Some(l) = u.submodel_list {
                    lemma_key_index_from(st2.references, alias.value, 0);
                    lemma_extract_all(reg, p, alias.value, st2, l.value);
                    assert forall|k: Seq<char>|
                        (#[trigger] map_get(b.references, k) is Some && map_get(st.references, k) is None) implies lookup(
                        reg,
                        map_get(b.references, k)->0.path,
                    ) is Found by {
                        if map_get(st2.references, k) is Some {
                            assert(map_get(b.references, k) == map_get(st2.references, k));
                        }
                    }
                }
            },
            Some(Err(e)) => {
                let st1 = with_error(st, alias.value, if is_sub { Some(alias.value) } else { None }, e);
                if let Some(l) = u.submodel_list {
                    lemma_parent_errors(st1, alias.value, alias.span, l.value);
                }
            },
            None => {},
        }
    }
}

/// Resolving a model's declarations never changes or removes a reference
/// that the model already had, keeps the invariant that every submodel goes
/// through a reference of the model, and every reference it adds leads to a
/// model that was resolved.
pub proof fn law_resolution_keeps_imports(reg: SpecRegistry, model_path: Seq<char>, st: SpecActive, us: Seq<SpecUseModel>)
    requires
        active_wf(st),
    ensures
        active_wf(resolve_all(reg, model_path, st, us)),
        refs_kept(st, resolve_all(reg, model_path, st, us)),
        new_refs_found(reg, st, resolve_all(reg, model_path, st, us)),
    decreases us.len(),
{
    if us.len() > 0 {
        let mid = resolve_all(reg, model_path, st, us.drop_last());
        let b = resolve_all(reg, model_path, st, us);
        law_resolution_keeps_imports(reg, model_path, st, us.drop_last());
        lemma_resolve_one(reg, model_path, mid, us.last());
        assert forall|k: Seq<char>|
            (#[trigger] map_get(b.references, k) is Some && map_get(st.references, k) is None) implies lookup(
            reg,
            map_get(b.references, k)->0.path,
        ) is Found by {
            if map_get(mid.references, k) is Some {
                assert(map_get(b.references, k) == map_get(mid.references, k));
            }
        }
    }
}

/// A declaration whose alias already names a reference of the model is
/// refused: the model's submodels and references stay as they were, and an
/// error is recorded under the alias.
pub proof fn law_duplicate_alias_is_refused(reg: SpecRegistry, model_path: Seq<char>, st: SpecActive, u: SpecUseModel)
    requires
        map_get(st.references, spec_model_alias(u.model.value).value) is Some,
    ensures
        resolve_one(reg, model_path, st, u).references == st.references,
        resolve_one(reg, model_path, st, u).submodels == st.submodels,
        map_get(resolve_one(reg, model_path, st, u).errors, spec_model_alias(u.model.value).value) is Some,
{
    let alias = spec_model_alias(u.model.value).value;
    let is_sub = u.model_kind == crate::ast::ModelKind::Submodel;
    let sub_dup = if is_sub { map_get(st.submodels, alias) } else { None };
    let st1 = with_error(
        st,
        alias,
        if is_sub { Some(alias) } else { None },
        SpecImportError::DuplicateReference {
            reference_name: alias,
            original_span: map_get(st.references, alias)->0.name_span,
            duplicate_span: spec_model_alias(u.model.value).span,
        },
    );
    crate::ordmap::lemma_insert_get(st.errors, alias, (if is_sub { Some(alias) } else { None }, SpecImportError::DuplicateReference {
        reference_name: alias,
        original_span: map_get(st.references, alias)->0.name_span,
        duplicate_span: spec_model_alias(u.model.value).span,
    }));
    if let Some(o) = sub_dup {
        crate::ordmap::lemma_insert_get(st1.errors, alias, (Some(alias), SpecImportError::DuplicateSubmodel {
            submodel: alias,
            original_span: o.name_span,
            duplicate_span: spec_model_alias(u.model.value).span,
        }));
    }
}

} // verus!
