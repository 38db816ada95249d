//! Resolving the declarations of a design file: the values it gives to the
//! parameters of its target and the designs a model applies to its
//! references.
//!
//! The value of a design parameter line is resolved by the expression
//! resolver; the functions here take its result and record it.
use vstd::prelude::*;

use crate::ast::{DesignParameterNode, DesignTargetNode, UseDesignNode};
use crate::analysis::set_insert;
use crate::ir::Model;
use crate::surface::{DesignSurfaceItem, SpecSurfaceItem};
use crate::contribution::Design;
use crate::errors::{DesignResolutionError, ParameterResolutionError};
use crate::ir::{Dependencies, Limits, OverlayParameterValue, Parameter, ParameterValue, ReferenceReplacement};
use crate::ordmap::{OrderedMap, lemma_insert_get, lemma_insert_twice, map_get, map_insert};
use crate::design_segments::{
    display_model_path, displayed_path, lookup_referenced_model_path, resolve_segment_in, spec_resolve_segment,
};
use crate::paths::{ModelPath, relative_path, sibling_path, string_of};
use crate::resolution_errors::{ResolutionErrorCollection, errors_of};
use crate::resolver::{ModelResult, ResolutionContext, SpecLookup, SpecRegistry, lookup};
use crate::span::Span;

verus! {

/// The content of a design file as resolved: overrides, added parameters
/// and reference replacements.
pub type ResolvedDesign = Design<OverlayParameterValue, Parameter, ReferenceReplacement>;

/// The view of a [`ResolvedDesign`].
pub struct SpecDesign {
    pub target_model: Option<Seq<char>>,
    pub parameter_overrides: Seq<(Seq<char>, OverlayParameterValue)>,
    pub parameter_additions: Seq<(Seq<char>, Parameter)>,
    pub reference_replacements: Seq<(Seq<char>, Seq<char>)>,
    pub scoped_overrides: Seq<(Seq<Seq<char>>, Seq<(Seq<char>, OverlayParameterValue)>)>,
    pub scoped_replacements: Seq<(Seq<Seq<char>>, Seq<(Seq<char>, Seq<char>)>)>,
    pub scoped_additions: Seq<(Seq<Seq<char>>, Seq<(Seq<char>, Parameter)>)>,
}

/// The view of scoped entries: each path with its entries.
pub open spec fn scoped_view<V: DeepView>(s: Seq<(Vec<String>, OrderedMap<V>)>) -> Seq<(Seq<Seq<char>>, Seq<(Seq<char>, V::V)>)> {
    s.map_values(|p: (Vec<String>, OrderedMap<V>)| (p.0.deep_view(), p.1.deep_view()))
}

/// The view of a resolved design.
pub open spec fn design_view(d: &ResolvedDesign) -> SpecDesign {
    SpecDesign {
        target_model: d.target_model.deep_view(),
        parameter_overrides: d.parameter_overrides.deep_view(),
        parameter_additions: d.parameter_additions.deep_view(),
        reference_replacements: d.reference_replacements.deep_view(),
        scoped_overrides: scoped_view(d.scoped_overrides@),
        scoped_replacements: scoped_view(d.scoped_replacements@),
        scoped_additions: scoped_view(d.scoped_additions@),
    }
}

/// Whether a design has no target and no content.
pub open spec fn design_is_empty(d: SpecDesign) -> bool {
    &&& d.target_model is None
    &&& d.parameter_overrides.len() == 0
    &&& d.parameter_additions.len() == 0
    &&& d.reference_replacements.len() == 0
    &&& d.scoped_overrides.len() == 0
    &&& d.scoped_replacements.len() == 0
    &&& d.scoped_additions.len() == 0
}

/// The span of the definition of parameter `name` on the model at `path`,
/// or `fallback` where that model or parameter is not known.
pub open spec fn parameter_span(reg: SpecRegistry, path: Seq<char>, name: Seq<char>, fallback: Span) -> Span {
    match lookup(reg, path) {
        SpecLookup::Found(m) => match map_get(m.parameters, name) {
            Some(p) => p.span,
            None => fallback,
        },
        _ => fallback,
    }
}

/// The span of the definition of parameter `param` on the model at
/// `model_path`, or `fallback` where that model or parameter is not known.
pub fn span_of_parameter_on_model(ctx: &ResolutionContext, model_path: &ModelPath, param: &String, fallback: Span) -> (r:
    Span)
    ensures
        r == parameter_span(ctx.registry(), model_path.deep_view(), param@, fallback),
{
    match ctx.lookup_model(model_path) {
        ModelResult::Found(m) => match m.get_parameter(param) {
            Some(p) => p.span,
            None => fallback,
        },
        _ => fallback,
    }
}

/// The first position at or after `i` of the scope `path`, or -1.
pub open spec fn scope_index_from<V>(s: Seq<(Seq<Seq<char>>, Seq<(Seq<char>, V)>)>, path: Seq<Seq<char>>, i: int) -> int
    decreases s.len() - i,
{
    if 0 <= i < s.len() {
        if s[i].0 == path {
            i
        } else {
            scope_index_from(s, path, i + 1)
        }
    } else {
        -1
    }
}

/// The scoped entries after giving `name` the value `v` under `path`: an
/// existing scope keeps its position, a new one is added at the end.
pub open spec fn scoped_insert<V>(s: Seq<(Seq<Seq<char>>, Seq<(Seq<char>, V)>)>, path: Seq<Seq<char>>, name: Seq<char>, v: V) -> Seq<
    (Seq<Seq<char>>, Seq<(Seq<char>, V)>),
> {
    let i = scope_index_from(s, path, 0);
    if i >= 0 {
        s.update(i, (path, map_insert(s[i].1, name, v)))
    } else {
        s.push((path, map_insert(Seq::empty(), name, v)))
    }
}

/// The parameter a design adds for a line `name = v` whose name its target
/// does not have.
pub open spec fn local_parameter(p: DesignParameterNode, v: ParameterValue, deps: Dependencies) -> Parameter {
    Parameter {
        name: p.value.ident.value.text,
        name_span: p.value.ident.span,
        span: p.value.ident.span,
        value: v,
        limits: Limits::Default,
        dependencies: deps,
    }
}

/// The overlay value of a line `name = v` of a design for the target at
/// `target`.
pub open spec fn overlay_value(p: DesignParameterNode, v: ParameterValue, reg: SpecRegistry, target: Seq<char>) -> OverlayParameterValue {
    OverlayParameterValue {
        value: v,
        design_span: p.value.ident.span,
        original_model_span: parameter_span(reg, target, p.value.ident.value.text@, p.value.ident.span),
    }
}

/// The design after recording the resolved value `v` of a design parameter
/// line, which reads `deps`: a line without a reference part whose name is one of the design's
/// own names adds a parameter; a line with a reference part overrides that
/// parameter of the referenced instance; any other line overrides the
/// target's parameter.
pub open spec fn spec_place_value(
    d: SpecDesign,
    p: DesignParameterNode,
    locals: Seq<Seq<char>>,
    v: ParameterValue,
    deps: Dependencies,
    reg: SpecRegistry,
    target: Seq<char>,
) -> SpecDesign {
    let name = p.value.ident.value.text@;
    match p.value.instance {
        None => if locals.contains(name) {
            SpecDesign { parameter_additions: map_insert(d.parameter_additions, name, local_parameter(p, v, deps)), ..d }
        } else {
            SpecDesign { parameter_overrides: map_insert(d.parameter_overrides, name, overlay_value(p, v, reg, target)), ..d }
        },
        Some(r) => SpecDesign {
            scoped_overrides: scoped_insert(d.scoped_overrides, seq![r.value.text@], name, overlay_value(p, v, reg, target)),
            ..d
        },
    }
}

/// The parameter errors after adding `errs` to the errors of `name`, in order.
pub open spec fn add_parameter_errors(
    pv: Seq<(Seq<char>, Seq<ParameterResolutionError>)>,
    name: Seq<char>,
    errs: Seq<ParameterResolutionError>,
) -> Seq<(Seq<char>, Seq<ParameterResolutionError>)> {
    if errs.len() == 0 {
        pv
    } else {
        map_insert(pv, name, errors_of(pv, name) + errs)
    }
}

/// The views of design errors: message and span.
pub open spec fn design_error_views(v: Seq<DesignResolutionError>) -> Seq<(Seq<char>, Span)> {
    v.map_values(|e: DesignResolutionError| (e.message@, e.span))
}

/// The message for a design parameter line in a file without a target.
pub open spec fn no_target_message() -> Seq<char> {
    "design parameter line requires a preceding `design <model>` declaration"@
}

proof fn lemma_add_one_more_error(
    pv: Seq<(Seq<char>, Seq<ParameterResolutionError>)>,
    name: Seq<char>,
    errs: Seq<ParameterResolutionError>,
    e: ParameterResolutionError,
)
    ensures
        ({
            let before = add_parameter_errors(pv, name, errs);
            add_parameter_errors(pv, name, errs.push(e)) == map_insert(before, name, errors_of(before, name).push(e))
        }),
{
    let before = add_parameter_errors(pv, name, errs);
    if errs.len() == 0 {
        assert(errors_of(pv, name) + errs.push(e) =~= errors_of(pv, name).push(e));
    } else {
        let x = errors_of(pv, name) + errs;
        lemma_insert_get(pv, name, x);
        lemma_insert_twice(pv, name, x, x.push(e));
        assert(errors_of(pv, name) + errs.push(e) =~= x.push(e));
    }
}

/// Records a design parameter line `name(.reference)? = value` of a design
/// file whose target is `explicit_target`, given the resolved value.
///
/// Without a target the line is an error. Errors of the value are recorded
/// as errors of the parameter. A resolved value comes with what it reads. Otherwise the value is placed as
/// [`spec_place_value`] says.
pub fn handle_design_parameter<C, P: DeepView>(
    p: &DesignParameterNode,
    explicit_target: Option<&ModelPath>,
    design_local_names: &Vec<String>,
    resolved_value: Result<(ParameterValue, Dependencies), Vec<ParameterResolutionError>>,
    running: &mut ResolvedDesign,
    ctx: &ResolutionContext,
    design_errors: &mut Vec<DesignResolutionError>,
    errors: &mut ResolutionErrorCollection<C, P>,
)
    ensures
        match explicit_target {
            None => {
                &&& design_error_views(final(design_errors)@) == design_error_views(old(design_errors)@).push(
                    (no_target_message(), p.value.ident.span),
                )
                &&& design_view(final(running)) == design_view(old(running))
                &&& final(errors).parameter_view() == old(errors).parameter_view()
            },
            Some(target) => {
                &&& final(design_errors)@ == old(design_errors)@
                &&& match resolved_value {
                    Err(errs) => {
                        &&& final(errors).parameter_view() == add_parameter_errors(
                            old(errors).parameter_view(),
                            p.value.ident.value.text@,
                            errs@,
                        )
                        &&& design_view(final(running)) == design_view(old(running))
                    },
                    Ok((v, deps)) => {
                        &&& final(errors).parameter_view() == old(errors).parameter_view()
                        &&& design_view(final(running)) == spec_place_value(
                            design_view(old(running)),
                            *p,
                            design_local_names.deep_view(),
                            v,
                            deps,
                            ctx.registry(),
                            target.deep_view(),
                        )
                    },
                }
            },
        },
        final(errors).circular_dependency@ == old(errors).circular_dependency@,
        final(errors).python_import.deep_view() == old(errors).python_import.deep_view(),
        final(errors).model_import.deep_view() == old(errors).model_import.deep_view(),
        final(errors).test_view() == old(errors).test_view(),
{
    let target = match explicit_target {
        Some(t) => t,
        None => {
            let ghost before = design_errors@;
            design_errors.push(
                DesignResolutionError::new(
                    string_of("design parameter line requires a preceding `design <model>` declaration"),
                    p.value.ident.span,
                ),
            );
            assert(design_error_views(design_errors@) =~= design_error_views(before).push(
                (no_target_message(), p.value.ident.span),
            ));
            return ;
        },
    };
    let name = &p.value.ident.value.text;
    match resolved_value {
        Err(errs) => {
            let ghost start = errors.parameter_view();
            let ghost all = errs@;
            let mut rest = errs;
            let n = rest.len();
            let mut k: usize = 0;
            assert(all.take(0) =~= Seq::<ParameterResolutionError>::empty());
            while rest.len() > 0
                invariant
                    k + rest@.len() == all.len(),
                    all.len() == n,
                    forall|j: int| 0 <= j < rest@.len() ==> rest@[j] == all[k + j],
                    errors.parameter_view() == add_parameter_errors(start, name@, all.take(k as int)),
                    errors.circular_dependency@ == old(errors).circular_dependency@,
                    errors.python_import.deep_view() == old(errors).python_import.deep_view(),
                    errors.model_import.deep_view() == old(errors).model_import.deep_view(),
                    errors.test_view() == old(errors).test_view(),
                decreases rest@.len(),
            {
                let e = rest.remove(0);
                proof {
                    assert(e == all[k as int]);
                    assert(all.take(k + 1) =~= all.take(k as int).push(e));
                    lemma_add_one_more_error(start, name@, all.take(k as int), e);
                }
                errors.add_parameter_error(name.clone(), e);
                k = k + 1;
            }
            assert(all.take(k as int) =~= all);
        },
        Ok((value, dependencies)) => {
            let design_span = p.value.ident.span;
            let is_local = match p.value.instance {
                None => contains_name(design_local_names, name),
                Some(_) => false,
            };
            if is_local {
                let param = Parameter {
                    name: name.clone(),
                    name_span: design_span,
                    span: design_span,
                    value,
                    limits: Limits::Default,
                    dependencies,
                };
                running.parameter_additions.insert(name.clone(), param);
                return ;
            }
            let original_model_span = span_of_parameter_on_model(ctx, target, name, design_span);
            let overlay = OverlayParameterValue { value, design_span, original_model_span };
            match &p.value.instance {
                Some(r) => {
                    let mut path: Vec<String> = Vec::new();
                    path.push(r.value.text.clone());
                    assert(path.deep_view() =~= seq![r.value.text@]);
                    scoped_insert_exec(&mut running.scoped_overrides, path, name.clone(), overlay);
                },
                None => {
                    running.parameter_overrides.insert(name.clone(), overlay);
                },
            }
        },
    }
}

/// Whether `name` is one of `names`.
pub(crate) fn contains_name(names: &Vec<String>, name: &String) -> (r: bool)
    ensures
        r == names.deep_view().contains(name@),
{
    let mut i: usize = 0;
    while i < names.len()
        invariant
            i <= names@.len(),
            forall|j: int| 0 <= j < i ==> names@[j]@ != name@,
        decreases names@.len() - i,
    {
        if names[i] == *name {
            assert(names.deep_view()[i as int] == name@);
            return true;
        }
        i = i + 1;
    }
    proof {
        if names.deep_view().contains(name@) {
            let j = choose|j: int| 0 <= j < names.deep_view().len() && names.deep_view()[j] == name@;
            assert(names@[j]@ == name@);
        }
    }
    false
}

/// Whether two paths of reference names are the same.
pub(crate) fn same_path(a: &Vec<String>, b: &Vec<String>) -> (r: bool)
    ensures
        r == (a.deep_view() == b.deep_view()),
{
    if a.len() != b.len() {
        assert(a.deep_view().len() != b.deep_view().len());
        return false;
    }
    let mut i: usize = 0;
    while i < a.len()
        invariant
            a@.len() == b@.len(),
            i <= a@.len(),
            forall|j: int| 0 <= j < i ==> a@[j]@ == b@[j]@,
        decreases a@.len() - i,
    {
        if a[i] != b[i] {
            assert(a.deep_view()[i as int] != b.deep_view()[i as int]);
            return false;
        }
        i = i + 1;
    }
    assert(a.deep_view() =~= b.deep_view());
    true
}

/// Gives `name` the value `v` under the scope `path`.
fn scoped_insert_exec<V: DeepView>(s: &mut Vec<(Vec<String>, OrderedMap<V>)>, path: Vec<String>, name: String, v: V)
    ensures
        scoped_view(final(s)@) == scoped_insert(scoped_view(old(s)@), path.deep_view(), name@, v.deep_view()),
{
    let ghost sv = scoped_view(s@);
    let mut i: usize = 0;
    while i < s.len()
        invariant
            i <= s@.len(),
            s@ == old(s)@,
            sv == scoped_view(s@),
            scope_index_from(sv, path.deep_view(), i as int) == scope_index_from(sv, path.deep_view(), 0),
        decreases s@.len() - i,
    {
        if same_path(&s[i].0, &path) {
            assert(sv[i as int].0 == path.deep_view());
            assert(scope_index_from(sv, path.deep_view(), i as int) == i);
            let ghost old_s = s@;
            let (k, mut m) = s.remove(i);
            m.insert(name, v);
            s.insert(i, (k, m));
            proof {
                assert(s@ =~= old_s.update(i as int, (k, m)));
                assert(scoped_view(s@) =~= sv.update(i as int, (path.deep_view(), map_insert(sv[i as int].1, name@, v.deep_view()))));
            }
            return ;
        }
        i = i + 1;
    }
    let mut m: OrderedMap<V> = OrderedMap::new();
    m.insert(name, v);
    let ghost old_s = s@;
    s.push((path, m));
    proof {
        assert(scoped_view(s@) =~= sv.push((path.deep_view(), map_insert(Seq::empty(), name@, v.deep_view()))));
    }
}


/// A design applied by a model to one of its instances: the design file,
/// the path of reference names from the model to the instance, and the
/// span of the declaration.
#[derive(Debug)]
pub struct ApplyDesign {
    pub design_path: ModelPath,
    pub target: Vec<String>,
    pub span: Span,
}

/// The views of applied designs.
pub open spec fn apply_views(v: Seq<ApplyDesign>) -> Seq<(Seq<char>, Seq<Seq<char>>, Span)> {
    v.map_values(|a: ApplyDesign| (a.design_path.deep_view(), a.target.deep_view(), a.span))
}

/// What recording design applications has produced so far: the
/// applications, for each reference the design file whose added parameters
/// it gains, and the errors.
pub struct SpecApplyState {
    pub applied: Seq<(Seq<char>, Seq<Seq<char>>, Span)>,
    pub augmented: Seq<(Seq<char>, Seq<char>)>,
    pub design_errors: Seq<(Seq<char>, Span)>,
}

/// The path the reference `name` of the model at `consuming` leads to.
pub open spec fn referenced_path(reg: SpecRegistry, consuming: Seq<char>, name: Seq<char>) -> Option<Seq<char>> {
    match lookup(reg, consuming) {
        SpecLookup::Found(m) => match map_get(m.references, name) {
            Some(r) => Some(r.path),
            None => None,
        },
        _ => None,
    }
}

/// The message for a design whose target is not the model the reference
/// leads to.
pub open spec fn mismatch_message(design: Seq<char>, reference: Seq<char>, design_target: Seq<char>, ref_target: Seq<char>) -> Seq<
    char,
> {
    "`apply "@ + displayed_path(design) + " to "@ + reference + "`: design `"@ + displayed_path(design)
        + "` targets `"@ + displayed_path(design_target) + "`, but `"@ + reference + "` resolves to `"@
        + displayed_path(ref_target) + "`. Use a design whose `design <model>` matches `"@ + displayed_path(
        ref_target,
    ) + "`."@
}

/// Recording the application of the design declared at `node`, in the model
/// at `model_path` whose declarations are read against `consuming`, under
/// the path `outer` of outer applications.
///
/// An application without a reference part records nothing. The reference
/// part is resolved against `consuming` (by reference name, then by model
/// name); a failure is an error. At the top level, when the reference leads
/// to a model and the design declares a different target, that is an
/// error; otherwise, when the design adds parameters, the reference gains
/// them. The application is then recorded with its full target path.
pub open spec fn spec_record_apply(
    node: crate::ast::SpecNode<crate::ast::SpecUseDesign>,
    outer: Seq<Seq<char>>,
    model_path: Seq<char>,
    consuming: Seq<char>,
    reg: SpecRegistry,
    st: SpecApplyState,
) -> SpecApplyState {
    match node.value.instance {
        None => st,
        Some(seg) => match spec_resolve_segment(reg, consuming, seg.value) {
            Err(m) => SpecApplyState { design_errors: st.design_errors.push((m, seg.span)), ..st },
            Ok(first) => {
                let dpath = sibling_path(
                    model_path,
                    relative_path(node.value.directory_path, node.value.design_file.value),
                );
                let design = lookup(reg, dpath);
                let recorded = st.applied.push((dpath, outer.push(first), node.span));
                if outer.len() == 0 && referenced_path(reg, consuming, first) is Some {
                    let ref_target = referenced_path(reg, consuming, first)->0;
                    match design {
                        SpecLookup::Found(m) => if m.design_export.target_model is Some
                            && m.design_export.target_model->0 != ref_target {
                            SpecApplyState {
                                design_errors: st.design_errors.push(
                                    (mismatch_message(dpath, first, m.design_export.target_model->0, ref_target), node.span),
                                ),
                                ..st
                            }
                        } else if m.design_export.parameter_additions.len() > 0 {
                            SpecApplyState { applied: recorded, augmented: map_insert(st.augmented, first, dpath), ..st }
                        } else {
                            SpecApplyState { applied: recorded, ..st }
                        },
                        _ => SpecApplyState { applied: recorded, ..st },
                    }
                } else {
                    SpecApplyState { applied: recorded, ..st }
                }
            },
        },
    }
}

/// Records the application of the design declared at `node` (see
/// [`spec_record_apply`]).
pub fn record_apply(
    node: &UseDesignNode,
    outer_target: &Vec<String>,
    model_path: &ModelPath,
    consuming_model: &ModelPath,
    ctx: &ResolutionContext,
    applied: &mut Vec<ApplyDesign>,
    augmented: &mut OrderedMap<ModelPath>,
    design_errors: &mut Vec<DesignResolutionError>,
)
    ensures
        ({
            let after = spec_record_apply(
                node.deep_view(),
                outer_target.deep_view(),
                model_path.deep_view(),
                consuming_model.deep_view(),
                ctx.registry(),
                SpecApplyState {
                    applied: apply_views(old(applied)@),
                    augmented: old(augmented).deep_view(),
                    design_errors: design_error_views(old(design_errors)@),
                },
            );
            &&& apply_views(final(applied)@) == after.applied
            &&& final(augmented).deep_view() == after.augmented
            &&& design_error_views(final(design_errors)@) == after.design_errors
        }),
{
    let seg = match &node.value.instance {
        Some(seg) => seg,
        None => {
            return ;
        },
    };
    let first = match resolve_segment_in(consuming_model, seg.value.as_str(), ctx) {
        Ok(n) => n,
        Err(m) => {
            let ghost before = design_errors@;
            design_errors.push(DesignResolutionError::new(m, seg.span));
            assert(design_error_views(design_errors@) =~= design_error_views(before).push((m@, seg.span)));
            return ;
        },
    };
    let relative = node.value.get_design_relative_path();
    let dpath = model_path.get_sibling_model_path(&relative);
    let mut target: Vec<String> = Vec::new();
    let mut i: usize = 0;
    while i < outer_target.len()
        invariant
            i <= outer_target@.len(),
            target@.len() == i,
            forall|j: int| 0 <= j < i ==> #[trigger] target@[j]@ == outer_target@[j]@,
        decreases outer_target@.len() - i,
    {
        target.push(outer_target[i].clone());
        i = i + 1;
    }
    target.push(first.clone());
    assert(target.deep_view() =~= outer_target.deep_view().push(first@));
    if outer_target.len() == 0 {
        if let Some(ref_target) = lookup_referenced_model_path(consuming_model, &first, ctx) {
            match ctx.lookup_model(&dpath) {
                ModelResult::Found(m) => {
                    let export = m.design_export();
                    let mismatch = match &export.target_model {
                        Some(dt) => !dt.same_as(&ref_target),
                        None => false,
                    };
                    if mismatch {
                        let dt = match &export.target_model {
                            Some(dt) => dt,
                            None => {
                                return ;
                            },
                        };
                        let shown_design = display_model_path(&dpath);
                        let shown_target = display_model_path(dt);
                        let shown_ref = display_model_path(&ref_target);
                        let mut msg = string_of("`apply ");
                        msg.append(shown_design.as_str());
                        msg.append(" to ");
                        msg.append(first.as_str());
                        msg.append("`: design `");
                        msg.append(shown_design.as_str());
                        msg.append("` targets `");
                        msg.append(shown_target.as_str());
                        msg.append("`, but `");
                        msg.append(first.as_str());
                        msg.append("` resolves to `");
                        msg.append(shown_ref.as_str());
                        msg.append("`. Use a design whose `design <model>` matches `");
                        msg.append(shown_ref.as_str());
                        msg.append("`.");
                        let ghost before = design_errors@;
                        design_errors.push(DesignResolutionError::new(msg, node.span));
                        assert(design_error_views(design_errors@) =~= design_error_views(before).push(
                            (msg@, node.span),
                        ));
                        return ;
                    }
                    if export.parameter_additions.len() > 0 {
                        augmented.insert(first.clone(), dpath.duplicate());
                    }
                },
                _ => {},
            }
        }
    }
    let ghost before = applied@;
    let span = node.span;
    applied.push(ApplyDesign { design_path: dpath, target, span });
    assert(apply_views(applied@) =~= apply_views(before).push((dpath.deep_view(), target.deep_view(), span)));
}


/// The message for a second `design` declaration in a file.
pub open spec fn second_target_message() -> Seq<char> {
    "only one `design` declaration is allowed per file"@
}

/// The model a `design <model>` declaration of the file at `model_path`
/// names.
pub open spec fn target_path_of(model_path: Seq<char>, node: crate::ast::SpecNode<crate::ast::SpecDesignTarget>) -> Seq<char> {
    sibling_path(model_path, relative_path(node.value.directory_path, node.value.target.value))
}

/// Records a `design <model>` declaration of the file at `model_path`: the
/// first one sets the target of the design; any later one is an error.
pub fn handle_design_target(
    node: &DesignTargetNode,
    model_path: &ModelPath,
    explicit_target: &mut Option<ModelPath>,
    design_target_declared: &mut bool,
    running: &mut ResolvedDesign,
    design_errors: &mut Vec<DesignResolutionError>,
)
    ensures
        if *old(design_target_declared) {
            &&& design_error_views(final(design_errors)@) == design_error_views(old(design_errors)@).push(
                (second_target_message(), node.span),
            )
            &&& final(explicit_target).deep_view() == old(explicit_target).deep_view()
            &&& *final(design_target_declared)
            &&& design_view(final(running)) == design_view(old(running))
        } else {
            &&& final(design_errors)@ == old(design_errors)@
            &&& final(explicit_target).deep_view() == Some(target_path_of(model_path.deep_view(), node.deep_view()))
            &&& *final(design_target_declared)
            &&& design_view(final(running)) == (SpecDesign {
                target_model: Some(target_path_of(model_path.deep_view(), node.deep_view())),
                ..design_view(old(running))
            })
        },
{
    if *design_target_declared {
        let ghost before = design_errors@;
        design_errors.push(
            DesignResolutionError::new(string_of("only one `design` declaration is allowed per file"), node.span),
        );
        assert(design_error_views(design_errors@) =~= design_error_views(before).push(
            (second_target_message(), node.span),
        ));
        return ;
    }
    *design_target_declared = true;
    let relative = node.value.get_target_relative_path();
    let p = model_path.get_sibling_model_path(&relative);
    running.target_model = Some(p.duplicate());
    *explicit_target = Some(p);
}

/// The target of a design surface: the model the last `design <model>`
/// declaration names, if any.
pub open spec fn surface_target(model_path: Seq<char>, items: Seq<SpecSurfaceItem>) -> Option<Seq<char>>
    decreases items.len(),
{
    if items.len() == 0 {
        None
    } else {
        match items.last() {
            SpecSurfaceItem::Target(n) => Some(target_path_of(model_path, n)),
            _ => surface_target(model_path, items.drop_last()),
        }
    }
}

/// The names given by the parameter lines of a design surface that have no
/// reference part, each once, in order of first appearance.
pub open spec fn surface_parameter_names(items: Seq<SpecSurfaceItem>) -> Seq<Seq<char>>
    decreases items.len(),
{
    if items.len() == 0 {
        Seq::empty()
    } else {
        let before = surface_parameter_names(items.drop_last());
        match items.last() {
            SpecSurfaceItem::Parameter(n) => if n.value.instance is None {
                set_insert(before, n.value.ident.value)
            } else {
                before
            },
            _ => before,
        }
    }
}

/// Whether the model at `path` is known and has a parameter `name`.
pub open spec fn target_has_parameter(reg: SpecRegistry, path: Seq<char>, name: Seq<char>) -> bool {
    lookup(reg, path) matches SpecLookup::Found(m) && map_get(m.parameters, name) is Some
}

/// The design's own names: those of `names` that the target does not have.
pub open spec fn local_names(reg: SpecRegistry, target: Seq<char>, names: Seq<Seq<char>>) -> Seq<Seq<char>>
    decreases names.len(),
{
    if names.len() == 0 {
        Seq::empty()
    } else {
        let before = local_names(reg, target, names.drop_last());
        if target_has_parameter(reg, target, names.last()) {
            before
        } else {
            before.push(names.last())
        }
    }
}

/// The views of the surface items.
pub open spec fn surface_views(items: Seq<DesignSurfaceItem>) -> Seq<SpecSurfaceItem> {
    items.map_values(|x: DesignSurfaceItem| x.deep_view())
}

/// Finds the target of a design surface and the names its parameter lines
/// introduce that its target does not have (none where there is no target).
pub fn scan_design_locals(
    model_path: &ModelPath,
    surface: &Vec<DesignSurfaceItem>,
    ctx: &ResolutionContext,
) -> (r: (Option<ModelPath>, Vec<String>))
    ensures
        r.0.deep_view() == surface_target(model_path.deep_view(), surface_views(surface@)),
        r.1.deep_view() == match surface_target(model_path.deep_view(), surface_views(surface@)) {
            Some(t) => local_names(ctx.registry(), t, surface_parameter_names(surface_views(surface@))),
            None => Seq::empty(),
        },
{
    let ghost sv = surface_views(surface@);
    let mut explicit_target: Option<ModelPath> = None;
    let mut names: Vec<String> = Vec::new();
    let mut i: usize = 0;
    assert(sv.take(0) =~= Seq::<SpecSurfaceItem>::empty());
    assert(names.deep_view() =~= Seq::<Seq<char>>::empty());
    while i < surface.len()
        invariant
            i <= surface@.len(),
            sv == surface_views(surface@),
            explicit_target.deep_view() == surface_target(model_path.deep_view(), sv.take(i as int)),
            names.deep_view() == surface_parameter_names(sv.take(i as int)),
        decreases surface@.len() - i,
    {
        proof {
            assert(sv.take(i + 1).drop_last() =~= sv.take(i as int));
            assert(sv.take(i + 1).last() == surface@[i as int].deep_view());
        }
        match surface[i] {
            DesignSurfaceItem::Target(node) => {
                let relative = node.value.get_target_relative_path();
                explicit_target = Some(model_path.get_sibling_model_path(&relative));
            },
            DesignSurfaceItem::Parameter(p) => {
                if p.value.instance.is_none() {
                    crate::analysis::insert_name(&mut names, p.value.ident.value.text.clone());
                }
            },
            DesignSurfaceItem::Apply(_) => {},
        }
        i = i + 1;
    }
    assert(sv.take(surface@.len() as int) =~= sv);
    let mut locals: Vec<String> = Vec::new();
    let ghost nv = names.deep_view();
    match &explicit_target {
        Some(tgt) => {
            let mut j: usize = 0;
            assert(nv.take(0) =~= Seq::<Seq<char>>::empty());
            assert(locals.deep_view() =~= Seq::<Seq<char>>::empty());
            while j < names.len()
                invariant
                    j <= names@.len(),
                    nv == names.deep_view(),
                    locals.deep_view() == local_names(ctx.registry(), tgt.deep_view(), nv.take(j as int)),
                decreases names@.len() - j,
            {
                let exists = match ctx.lookup_model(tgt) {
                    ModelResult::Found(m) => m.get_parameter(&names[j]).is_some(),
                    _ => false,
                };
                let ghost before = locals.deep_view();
                if !exists {
                    locals.push(names[j].clone());
                }
                proof {
                    let t = nv.take(j + 1);
                    assert(t.drop_last() =~= nv.take(j as int));
                    assert(t.last() == names@[j as int]@);
                    assert(locals.deep_view() =~= local_names(ctx.registry(), tgt.deep_view(), t));
                }
                j = j + 1;
            }
            assert(nv.take(names@.len() as int) =~= nv);
        },
        None => {
            assert(locals.deep_view() =~= Seq::<Seq<char>>::empty());
        },
    }
    (explicit_target, locals)
}

/// Whether a design surface has design content: a target or a parameter
/// line.
pub open spec fn has_design_content(target: Option<Seq<char>>, items: Seq<SpecSurfaceItem>) -> bool {
    target is Some || exists|i: int| 0 <= i < items.len() && items[i] is Parameter
}

/// Stores the design of a file on its model: with design content, the
/// file's target and the design (with that target); otherwise an empty
/// design.
pub fn store_design_export(
    surface: &Vec<DesignSurfaceItem>,
    explicit_target: Option<ModelPath>,
    running: ResolvedDesign,
    active: &mut Model,
)
    ensures
        if has_design_content(explicit_target.deep_view(), surface_views(surface@)) {
            &&& final(active).deep_view().design_target == explicit_target.deep_view()
            &&& final(active).deep_view().design_export == (SpecDesign {
                target_model: explicit_target.deep_view(),
                ..design_view(&running)
            })
        } else {
            &&& final(active).deep_view().design_target == old(active).deep_view().design_target
            &&& design_is_empty(final(active).deep_view().design_export)
        },
        final(active).deep_view().path == old(active).deep_view().path,
        final(active).deep_view().python_imports == old(active).deep_view().python_imports,
        final(active).deep_view().submodels == old(active).deep_view().submodels,
        final(active).deep_view().references == old(active).deep_view().references,
        final(active).deep_view().parameters == old(active).deep_view().parameters,
        final(active).deep_view().tests == old(active).deep_view().tests,
        final(active).deep_view().note == old(active).deep_view().note,
{
    let ghost sv = surface_views(surface@);
    let mut has_parameter = false;
    let mut i: usize = 0;
    while i < surface.len()
        invariant
            i <= surface@.len(),
            sv == surface_views(surface@),
            has_parameter == exists|k: int| 0 <= k < i && sv[k] is Parameter,
        decreases surface@.len() - i,
    {
        let ghost before = has_parameter;
        if let DesignSurfaceItem::Parameter(_) = surface[i] {
            has_parameter = true;
        }
        proof {
            assert(sv[i as int] == surface@[i as int].deep_view());
            if has_parameter && !before {
                assert(sv[i as int] is Parameter);
            }
            if !has_parameter {
                assert forall|k: int| 0 <= k < i + 1 implies !(sv[k] is Parameter) by {
                    if k == i {
                    }
                }
            }
        }
        i = i + 1;
    }
    if explicit_target.is_some() || has_parameter {
        let mut running = running;
        let target_copy = match &explicit_target {
            Some(t) => Some(t.duplicate()),
            None => None,
        };
        active.set_design_target(target_copy);
        running.target_model = explicit_target;
        active.set_design_export(running);
    } else {
        active.set_design_export(Design::new());
    }
}


/// Recording every design application of a surface in turn, each at the top
/// level.
pub open spec fn spec_record_applies(
    items: Seq<SpecSurfaceItem>,
    model_path: Seq<char>,
    consuming: Seq<char>,
    reg: SpecRegistry,
    st: SpecApplyState,
) -> SpecApplyState
    decreases items.len(),
{
    if items.len() == 0 {
        st
    } else {
        let before = spec_record_applies(items.drop_last(), model_path, consuming, reg, st);
        match items.last() {
            SpecSurfaceItem::Apply(n) => spec_record_apply(n, Seq::empty(), model_path, consuming, reg, before),
            _ => before,
        }
    }
}

/// Records the design applications of a surface (see [`record_apply`]);
/// their references are read against the design's target, or against the
/// file itself where it has none.
pub fn record_applied_designs(
    surface: &Vec<DesignSurfaceItem>,
    model_path: &ModelPath,
    explicit_target: Option<&ModelPath>,
    ctx: &ResolutionContext,
    applied: &mut Vec<ApplyDesign>,
    augmented: &mut OrderedMap<ModelPath>,
    design_errors: &mut Vec<DesignResolutionError>,
)
    ensures
        ({
            let consuming = match explicit_target {
                Some(t) => t.deep_view(),
                None => model_path.deep_view(),
            };
            let after = spec_record_applies(
                surface_views(surface@),
                model_path.deep_view(),
                consuming,
                ctx.registry(),
                SpecApplyState {
                    applied: apply_views(old(applied)@),
                    augmented: old(augmented).deep_view(),
                    design_errors: design_error_views(old(design_errors)@),
                },
            );
            &&& apply_views(final(applied)@) == after.applied
            &&& final(augmented).deep_view() == after.augmented
            &&& design_error_views(final(design_errors)@) == after.design_errors
        }),
{
    let consuming = match explicit_target {
        Some(t) => t.duplicate(),
        None => model_path.duplicate(),
    };
    let ghost sv = surface_views(surface@);
    let ghost start = SpecApplyState {
        applied: apply_views(applied@),
        augmented: augmented.deep_view(),
        design_errors: design_error_views(design_errors@),
    };
    let root: Vec<String> = Vec::new();
    assert(root.deep_view() =~= Seq::<Seq<char>>::empty());
    let mut i: usize = 0;
    assert(sv.take(0) =~= Seq::<SpecSurfaceItem>::empty());
    while i < surface.len()
        invariant
            i <= surface@.len(),
            sv == surface_views(surface@),
            root.deep_view() == Seq::<Seq<char>>::empty(),
            ({
                let now = spec_record_applies(sv.take(i as int), model_path.deep_view(), consuming.deep_view(), ctx.registry(), start);
                &&& apply_views(applied@) == now.applied
                &&& augmented.deep_view() == now.augmented
                &&& design_error_views(design_errors@) == now.design_errors
            }),
        decreases surface@.len() - i,
    {
        proof {
            assert(sv.take(i + 1).drop_last() =~= sv.take(i as int));
            assert(sv.take(i + 1).last() == surface@[i as int].deep_view());
        }
        if let DesignSurfaceItem::Apply(node) = surface[i] {
            record_apply(node, &root, model_path, &consuming, ctx, applied, augmented, design_errors);
        }
        i = i + 1;
    }
    assert(sv.take(surface@.len() as int) =~= sv);
}


/// A design with no target and no content.
pub open spec fn empty_design() -> SpecDesign {
    SpecDesign {
        target_model: None,
        parameter_overrides: Seq::empty(),
        parameter_additions: Seq::empty(),
        reference_replacements: Seq::empty(),
        scoped_overrides: Seq::empty(),
        scoped_replacements: Seq::empty(),
        scoped_additions: Seq::empty(),
    }
}

/// What the expression resolver gives for the value of a design parameter
/// line: the value with what it reads, or its errors.
pub type ResolvedValue = Result<(ParameterValue, Dependencies), Vec<ParameterResolutionError>>;

/// What is recorded while walking the lines of a design file: the target
/// seen so far, whether a `design` declaration was met, the design, the
/// design errors and the parameter errors.
pub struct SpecSurfaceState {
    pub target: Option<Seq<char>>,
    pub declared: bool,
    pub running: SpecDesign,
    pub design_errors: Seq<(Seq<char>, Span)>,
    pub parameter_errors: Seq<(Seq<char>, Seq<ParameterResolutionError>)>,
}

/// The number of parameter lines among `items`.
pub open spec fn parameter_lines(items: Seq<DesignSurfaceItem>) -> nat
    decreases items.len(),
{
    if items.len() == 0 {
        0
    } else {
        parameter_lines(items.drop_last()) + if items.last() is Parameter {
            1nat
        } else {
            0nat
        }
    }
}

/// One line of a design file (see [`handle_design_target`] and
/// [`handle_design_parameter`]); `value` is the resolved value of a parameter
/// line. `use design` lines are recorded afterwards.
pub open spec fn surface_step(
    model_path: Seq<char>,
    st: SpecSurfaceState,
    item: DesignSurfaceItem,
    locals: Seq<Seq<char>>,
    value: ResolvedValue,
    reg: SpecRegistry,
) -> SpecSurfaceState {
    match item {
        DesignSurfaceItem::Target(node) => if st.declared {
            SpecSurfaceState { design_errors: st.design_errors.push((second_target_message(), node.span)), ..st }
        } else {
            let t = target_path_of(model_path, node.deep_view());
            SpecSurfaceState {
                target: Some(t),
                declared: true,
                running: SpecDesign { target_model: Some(t), ..st.running },
                ..st
            }
        },
        DesignSurfaceItem::Parameter(p) => match st.target {
            None => SpecSurfaceState {
                design_errors: st.design_errors.push((no_target_message(), p.value.ident.span)),
                ..st
            },
            Some(t) => match value {
                Err(errs) => SpecSurfaceState {
                    parameter_errors: add_parameter_errors(st.parameter_errors, p.value.ident.value.text@, errs@),
                    ..st
                },
                Ok((v, deps)) => SpecSurfaceState {
                    running: spec_place_value(st.running, *p, locals, v, deps, reg, t),
                    ..st
                },
            },
        },
        DesignSurfaceItem::Apply(_) => st,
    }
}

/// The lines `items` walked in order from `st`; the `k`-th parameter line
/// takes the `k`-th of `values`.
pub open spec fn surface_walk(
    model_path: Seq<char>,
    items: Seq<DesignSurfaceItem>,
    locals: Seq<Seq<char>>,
    values: Seq<ResolvedValue>,
    reg: SpecRegistry,
    st: SpecSurfaceState,
) -> SpecSurfaceState
    decreases items.len(),
{
    if items.len() == 0 {
        st
    } else {
        let before = surface_walk(model_path, items.drop_last(), locals, values, reg, st);
        surface_step(model_path, before, items.last(), locals, values[parameter_lines(items.drop_last()) as int], reg)
    }
}

proof fn lemma_parameter_lines_prefix(s: Seq<DesignSurfaceItem>, j: int)
    requires
        0 <= j <= s.len(),
    ensures
        parameter_lines(s.take(j)) <= parameter_lines(s),
    decreases s.len() - j,
{
    if j < s.len() {
        lemma_parameter_lines_prefix(s, j + 1);
        assert(s.take(j + 1).drop_last() =~= s.take(j));
    } else {
        assert(s.take(j) =~= s);
    }
}

/// Resolves the lines of the file at `model_path`, given its design surface
/// (see [`crate::surface::collect_design_surface`]) and `values`, the
/// resolved value of each parameter line in order.
///
/// The target is first taken from the last `design` declaration, so that
/// lines before it are read against it; the first `design` declaration then
/// sets it. Each line is recorded as [`surface_step`] says, the design is
/// stored on `active` (see [`store_design_export`]) and the `use design`
/// lines are recorded against the target (see [`record_applied_designs`]).
pub fn resolve_design_surface<C, P: DeepView>(
    model_path: &ModelPath,
    surface: &Vec<DesignSurfaceItem>,
    values: Vec<ResolvedValue>,
    ctx: &ResolutionContext,
    active: &mut Model,
    applied: &mut Vec<ApplyDesign>,
    augmented: &mut OrderedMap<ModelPath>,
    design_errors: &mut Vec<DesignResolutionError>,
    errors: &mut ResolutionErrorCollection<C, P>,
)
    requires
        values@.len() == parameter_lines(surface@),
    ensures
        ({
            let mp = model_path.deep_view();
            let sv = surface_views(surface@);
            let reg = ctx.registry();
            let target0 = surface_target(mp, sv);
            let locals = match target0 {
                Some(t) => local_names(reg, t, surface_parameter_names(sv)),
                None => Seq::empty(),
            };
            let st = surface_walk(
                mp,
                surface@,
                locals,
                values@,
                reg,
                SpecSurfaceState {
                    target: target0,
                    declared: false,
                    running: empty_design(),
                    design_errors: design_error_views(old(design_errors)@),
                    parameter_errors: old(errors).parameter_view(),
                },
            );
            let consuming = match st.target {
                Some(t) => t,
                None => mp,
            };
            let after = spec_record_applies(
                sv,
                mp,
                consuming,
                reg,
                SpecApplyState {
                    applied: apply_views(old(applied)@),
                    augmented: old(augmented).deep_view(),
                    design_errors: st.design_errors,
                },
            );
            &&& final(errors).parameter_view() == st.parameter_errors
            &&& design_error_views(final(design_errors)@) == after.design_errors
            &&& apply_views(final(applied)@) == after.applied
            &&& final(augmented).deep_view() == after.augmented
            &&& if has_design_content(st.target, sv) {
                &&& final(active).deep_view().design_target == st.target
                &&& final(active).deep_view().design_export == (SpecDesign { target_model: st.target, ..st.running })
            } else {
                &&& final(active).deep_view().design_target == old(active).deep_view().design_target
                &&& design_is_empty(final(active).deep_view().design_export)
            }
        }),
        final(active).deep_view().path == old(active).deep_view().path,
        final(active).deep_view().references == old(active).deep_view().references,
        final(active).deep_view().submodels == old(active).deep_view().submodels,
        final(active).deep_view().parameters == old(active).deep_view().parameters,
        final(active).deep_view().tests == old(active).deep_view().tests,
        final(errors).circular_dependency@ == old(errors).circular_dependency@,
        final(errors).python_import.deep_view() == old(errors).python_import.deep_view(),
        final(errors).model_import.deep_view() == old(errors).model_import.deep_view(),
        final(errors).test_view() == old(errors).test_view(),
{
    let ghost mp = model_path.deep_view();
    let ghost reg = ctx.registry();
    let ghost all_values = values@;
    let (mut explicit_target, locals) = scan_design_locals(model_path, surface, ctx);
    let ghost st0 = SpecSurfaceState {
        target: explicit_target.deep_view(),
        declared: false,
        running: empty_design(),
        design_errors: design_error_views(design_errors@),
        parameter_errors: errors.parameter_view(),
    };
    let ghost ld = locals.deep_view();
    let mut running: ResolvedDesign = Design::new();
    assert(design_view(&running) == empty_design()) by {
        assert(design_view(&running).parameter_overrides =~= Seq::empty());
        assert(design_view(&running).parameter_additions =~= Seq::empty());
        assert(design_view(&running).reference_replacements =~= Seq::empty());
        assert(design_view(&running).scoped_overrides =~= Seq::empty());
        assert(design_view(&running).scoped_replacements =~= Seq::empty());
        assert(design_view(&running).scoped_additions =~= Seq::empty());
    }
    let mut declared = false;
    let mut rest = values;
    let mut i: usize = 0;
    let ghost mut k: nat = 0;
    assert(surface@.take(0) =~= Seq::<DesignSurfaceItem>::empty());
    assert(rest@ =~= all_values.subrange(0, all_values.len() as int));
    while i < surface.len()
        invariant
            i <= surface@.len(),
            all_values.len() == parameter_lines(surface@),
            k == parameter_lines(surface@.take(i as int)),
            k <= all_values.len(),
            rest@ == all_values.subrange(k as int, all_values.len() as int),
            locals.deep_view() == ld,
            mp == model_path.deep_view(),
            reg == ctx.registry(),
            ({
                let now = surface_walk(mp, surface@.take(i as int), ld, all_values, reg, st0);
                &&& explicit_target.deep_view() == now.target
                &&& declared == now.declared
                &&& design_view(&running) == now.running
                &&& design_error_views(design_errors@) == now.design_errors
                &&& errors.parameter_view() == now.parameter_errors
            }),
            errors.circular_dependency@ == old(errors).circular_dependency@,
            errors.python_import.deep_view() == old(errors).python_import.deep_view(),
            errors.model_import.deep_view() == old(errors).model_import.deep_view(),
            errors.test_view() == old(errors).test_view(),
        decreases surface@.len() - i,
    {
        proof {
            assert(surface@.take(i + 1).drop_last() =~= surface@.take(i as int));
            assert(surface@.take(i + 1).last() == surface@[i as int]);
            lemma_parameter_lines_prefix(surface@, i + 1);
        }
        match surface[i] {
            DesignSurfaceItem::Target(node) => {
                handle_design_target(node, model_path, &mut explicit_target, &mut declared, &mut running, design_errors);
            },
            DesignSurfaceItem::Parameter(p) => {
                let v = rest.remove(0);
                proof {
                    assert(v == all_values[k as int]);
                    k = k + 1;
                    assert(rest@ =~= all_values.subrange(k as int, all_values.len() as int));
                }
                let target = match &explicit_target {
                    Some(t) => Some(t),
                    None => None,
                };
                handle_design_parameter(p, target, &locals, v, &mut running, ctx, design_errors, errors);
            },
            DesignSurfaceItem::Apply(_) => {},
        }
        i = i + 1;
    }
    assert(surface@.take(surface@.len() as int) =~= surface@);
    let exported = match &explicit_target {
        Some(t) => Some(t.duplicate()),
        None => None,
    };
    store_design_export(surface, explicit_target, running, active);
    let target_ref = match &exported {
        Some(t) => Some(t),
        None => None,
    };
    record_applied_designs(surface, model_path, target_ref, ctx, applied, augmented, design_errors);
}

} // verus!
