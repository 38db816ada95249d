//! The instance graph: every model instance reachable from a root model,
//! with the designs that reach each instance combined onto it.
//!
//! Building the graph walks the instances once from the root. At each
//! instance the model's own applied designs join the contributions that
//! reached it, the contributions are re-routed through extracted submodel
//! aliases, the parameters and overrides are composed, the references are
//! wired after the reference replacements, and each child receives only the
//! contributions forwarded to it. Values copied onto instances are read by
//! their structure (see [`crate::ir_copy`]).
use vstd::prelude::*;

use crate::contribution::{
    spec_rewrite, rewrite_extracted_aliases, Design, DesignContribution, InstanceKey, SpecContribution, SpecLeaf, add_scoped, empty_contribution, spec_from_design,
};
use crate::ir_copy::{
    LandedOverride, LandedParameter, OverlayShape, ParameterShape, TestShape, ValueShape, copy_overlay, copy_parameter,
    copy_test, copy_value, overlay_shape, parameter_shape, test_shape,
};
use crate::analysis::set_insert;
use crate::design_resolution::{ResolvedDesign, SpecDesign, contains_name, design_view, same_path, scoped_view};
use crate::imports::{SpecReferenceImport, SpecSubmodelImport, SubmodelImport};
use crate::ir::{DesignApplication, Model, OverlayParameterValue, Parameter, ParameterValue, ReferenceReplacement, SpecApplication, SpecModel, Test};
use crate::span::Span;
use crate::ordmap::{OrderedMap, key_index, map_get, map_insert};
use crate::paths::ModelPath;

verus! {

/// A design contribution as it lands on instances: overrides and added
/// parameters read by their structure.
pub type ResolvedContribution = DesignContribution<LandedOverride, LandedParameter, ReferenceReplacement>;

/// The view of a [`ResolvedContribution`].
pub type SpecResolvedContribution = SpecContribution<OverlayShape, ParameterShape, Seq<char>>;

/// A design as it lands on instances.
pub type LandedDesign = Design<LandedOverride, LandedParameter, ReferenceReplacement>;

/// The view of a [`LandedDesign`].
pub struct LandedDesignView {
    pub target_model: Option<Seq<char>>,
    pub overrides: Seq<(Seq<char>, OverlayShape)>,
    pub additions: Seq<(Seq<char>, ParameterShape)>,
    pub replacements: Seq<(Seq<char>, Seq<char>)>,
    pub scoped_overrides: Seq<(Seq<Seq<char>>, Seq<(Seq<char>, OverlayShape)>)>,
    pub scoped_replacements: Seq<(Seq<Seq<char>>, Seq<(Seq<char>, Seq<char>)>)>,
    pub scoped_additions: Seq<(Seq<Seq<char>>, Seq<(Seq<char>, ParameterShape)>)>,
}

/// The view of a landed design.
pub open spec fn landed_view(d: &LandedDesign) -> LandedDesignView {
    LandedDesignView {
        target_model: d.target_model.deep_view(),
        overrides: d.parameter_overrides.deep_view(),
        additions: d.parameter_additions.deep_view(),
        replacements: d.reference_replacements.deep_view(),
        scoped_overrides: scoped_view(d.scoped_overrides@),
        scoped_replacements: scoped_view(d.scoped_replacements@),
        scoped_additions: scoped_view(d.scoped_additions@),
    }
}

/// Overrides read by their structure.
pub open spec fn shape_overrides(e: Seq<(Seq<char>, OverlayParameterValue)>) -> Seq<(Seq<char>, OverlayShape)> {
    e.map_values(|p: (Seq<char>, OverlayParameterValue)| (p.0, overlay_shape(p.1)))
}

/// Parameters read by their structure.
pub open spec fn shape_parameters(e: Seq<(Seq<char>, Parameter)>) -> Seq<(Seq<char>, ParameterShape)> {
    e.map_values(|p: (Seq<char>, Parameter)| (p.0, parameter_shape(p.1)))
}

/// A resolved design as it lands: its overrides and additions read by their
/// structure.
pub open spec fn landed_design(d: SpecDesign) -> LandedDesignView {
    LandedDesignView {
        target_model: d.target_model,
        overrides: shape_overrides(d.parameter_overrides),
        additions: shape_parameters(d.parameter_additions),
        replacements: d.reference_replacements,
        scoped_overrides: d.scoped_overrides.map_values(
            |p: (Seq<Seq<char>>, Seq<(Seq<char>, OverlayParameterValue)>)| (p.0, shape_overrides(p.1)),
        ),
        scoped_replacements: d.scoped_replacements,
        scoped_additions: d.scoped_additions.map_values(
            |p: (Seq<Seq<char>>, Seq<(Seq<char>, Parameter)>)| (p.0, shape_parameters(p.1)),
        ),
    }
}

/// The contribution of a landed design anchored at `anchor` (as
/// [`spec_from_design`] says, read from the design's view).
pub open spec fn from_design_view(d: LandedDesignView, anchor: (Seq<char>, Seq<Seq<char>>)) -> SpecResolvedContribution {
    let flat = SpecContribution {
        anchor_key: anchor,
        overrides: d.overrides,
        additions: d.additions,
        replacements: d.replacements,
        nested_by_ref: Seq::empty(),
    };
    let o = Seq::new(
        d.scoped_overrides.len(),
        |i: int| (d.scoped_overrides[i].0, SpecLeaf::<OverlayShape, ParameterShape, Seq<char>>::Overrides(d.scoped_overrides[i].1)),
    );
    let r = Seq::new(
        d.scoped_replacements.len(),
        |i: int|
            (d.scoped_replacements[i].0, SpecLeaf::<OverlayShape, ParameterShape, Seq<char>>::Replacements(d.scoped_replacements[i].1)),
    );
    let a = Seq::new(
        d.scoped_additions.len(),
        |i: int| (d.scoped_additions[i].0, SpecLeaf::<OverlayShape, ParameterShape, Seq<char>>::Additions(d.scoped_additions[i].1)),
    );
    add_scoped(add_scoped(add_scoped(flat, o, anchor), r, anchor), a, anchor)
}

proof fn lemma_from_design_view(d: &LandedDesign, anchor: (Seq<char>, Seq<Seq<char>>))
    ensures
        spec_from_design(d, anchor) == from_design_view(landed_view(d), anchor),
{
    let v = landed_view(d);
    assert(crate::contribution::override_parts(d) =~= Seq::new(
        v.scoped_overrides.len(),
        |i: int| (v.scoped_overrides[i].0, SpecLeaf::<OverlayShape, ParameterShape, Seq<char>>::Overrides(v.scoped_overrides[i].1)),
    ));
    assert(crate::contribution::replacement_parts(d) =~= Seq::new(
        v.scoped_replacements.len(),
        |i: int|
            (v.scoped_replacements[i].0, SpecLeaf::<OverlayShape, ParameterShape, Seq<char>>::Replacements(v.scoped_replacements[i].1)),
    ));
    assert(crate::contribution::addition_parts(d) =~= Seq::new(
        v.scoped_additions.len(),
        |i: int| (v.scoped_additions[i].0, SpecLeaf::<OverlayShape, ParameterShape, Seq<char>>::Additions(v.scoped_additions[i].1)),
    ));
}

/// A copy of a list of names.
fn copy_names(v: &Vec<String>) -> (r: Vec<String>)
    ensures
        r@ == v@,
{
    let mut out: Vec<String> = Vec::new();
    let mut i: usize = 0;
    while i < v.len()
        invariant
            i <= v@.len(),
            out@ == v@.take(i as int),
        decreases v@.len() - i,
    {
        out.push(v[i].clone());
        assert(v@.take(i + 1) =~= v@.take(i as int).push(v@[i as int]));
        i = i + 1;
    }
    assert(v@.take(i as int) =~= v@);
    out
}

/// The overrides of a map, as they land.
fn land_overrides(m: &OrderedMap<OverlayParameterValue>) -> (r: OrderedMap<LandedOverride>)
    ensures
        r.deep_view() == shape_overrides(m.deep_view()),
{
    let ghost t = shape_overrides(m.deep_view());
    let mut out: Vec<(String, LandedOverride)> = Vec::new();
    let mut i: usize = 0;
    while i < m.entries.len()
        invariant
            i <= m.entries@.len(),
            t == shape_overrides(m.deep_view()),
            crate::ordmap::entries_view(out@) =~= t.take(i as int),
        decreases m.entries@.len() - i,
    {
        let (k, v) = &m.entries[i];
        let ghost before = crate::ordmap::entries_view(out@);
        out.push((k.clone(), LandedOverride(copy_overlay(v))));
        assert(crate::ordmap::entries_view(out@) =~= before.push(t[i as int]));
        assert(t.take(i + 1) =~= t.take(i as int).push(t[i as int]));
        i = i + 1;
    }
    OrderedMap { entries: out }
}

/// The added parameters of a map, as they land.
fn land_parameters(m: &OrderedMap<Parameter>) -> (r: OrderedMap<LandedParameter>)
    ensures
        r.deep_view() == shape_parameters(m.deep_view()),
{
    let ghost t = shape_parameters(m.deep_view());
    let mut out: Vec<(String, LandedParameter)> = Vec::new();
    let mut i: usize = 0;
    while i < m.entries.len()
        invariant
            i <= m.entries@.len(),
            t == shape_parameters(m.deep_view()),
            crate::ordmap::entries_view(out@) =~= t.take(i as int),
        decreases m.entries@.len() - i,
    {
        let (k, v) = &m.entries[i];
        let ghost before = crate::ordmap::entries_view(out@);
        out.push((k.clone(), LandedParameter(copy_parameter(v))));
        assert(crate::ordmap::entries_view(out@) =~= before.push(t[i as int]));
        assert(t.take(i + 1) =~= t.take(i as int).push(t[i as int]));
        i = i + 1;
    }
    OrderedMap { entries: out }
}

/// A copy of reference replacements.
fn copy_replacements(m: &OrderedMap<ReferenceReplacement>) -> (r: OrderedMap<ReferenceReplacement>)
    ensures
        r.deep_view() == m.deep_view(),
{
    let mut out: Vec<(String, ReferenceReplacement)> = Vec::new();
    let mut i: usize = 0;
    while i < m.entries.len()
        invariant
            i <= m.entries@.len(),
            crate::ordmap::entries_view(out@) =~= m.deep_view().take(i as int),
        decreases m.entries@.len() - i,
    {
        let (k, v) = &m.entries[i];
        let ghost before = crate::ordmap::entries_view(out@);
        out.push((k.clone(), ReferenceReplacement { replacement_path: v.replacement_path.duplicate() }));
        assert(crate::ordmap::entries_view(out@) =~= before.push(m.deep_view()[i as int]));
        assert(m.deep_view().take(i + 1) =~= m.deep_view().take(i as int).push(m.deep_view()[i as int]));
        i = i + 1;
    }
    OrderedMap { entries: out }
}

/// A resolved design as it lands on instances: a copy whose overrides and
/// additions keep their structure.
pub fn copy_design(d: &ResolvedDesign) -> (r: LandedDesign)
    ensures
        landed_view(&r) == landed_design(design_view(d)),
{
    let ghost dv = design_view(d);
    let mut so: Vec<(Vec<String>, OrderedMap<LandedOverride>)> = Vec::new();
    let mut i: usize = 0;
    while i < d.scoped_overrides.len()
        invariant
            i <= d.scoped_overrides@.len(),
            dv == design_view(d),
            scoped_view(so@) =~= landed_design(dv).scoped_overrides.take(i as int),
        decreases d.scoped_overrides@.len() - i,
    {
        let (p, m) = &d.scoped_overrides[i];
        let np = copy_names(p);
        assert(np.deep_view() =~= p.deep_view());
        let ghost before = scoped_view(so@);
        so.push((np, land_overrides(m)));
        assert(scoped_view(so@) =~= before.push(landed_design(dv).scoped_overrides[i as int]));
        assert(landed_design(dv).scoped_overrides.take(i + 1) =~= landed_design(dv).scoped_overrides.take(i as int).push(landed_design(dv).scoped_overrides[i as int]));
        i = i + 1;
    }
    let mut sr: Vec<(Vec<String>, OrderedMap<ReferenceReplacement>)> = Vec::new();
    let mut j: usize = 0;
    while j < d.scoped_replacements.len()
        invariant
            j <= d.scoped_replacements@.len(),
            dv == design_view(d),
            scoped_view(sr@) =~= landed_design(dv).scoped_replacements.take(j as int),
        decreases d.scoped_replacements@.len() - j,
    {
        let (p, m) = &d.scoped_replacements[j];
        let np = copy_names(p);
        assert(np.deep_view() =~= p.deep_view());
        let ghost before = scoped_view(sr@);
        sr.push((np, copy_replacements(m)));
        assert(scoped_view(sr@) =~= before.push(landed_design(dv).scoped_replacements[j as int]));
        assert(landed_design(dv).scoped_replacements.take(j + 1) =~= landed_design(dv).scoped_replacements.take(j as int).push(landed_design(dv).scoped_replacements[j as int]));
        j = j + 1;
    }
    let mut sa: Vec<(Vec<String>, OrderedMap<LandedParameter>)> = Vec::new();
    let mut k: usize = 0;
    while k < d.scoped_additions.len()
        invariant
            k <= d.scoped_additions@.len(),
            dv == design_view(d),
            scoped_view(sa@) =~= landed_design(dv).scoped_additions.take(k as int),
        decreases d.scoped_additions@.len() - k,
    {
        let (p, m) = &d.scoped_additions[k];
        let np = copy_names(p);
        assert(np.deep_view() =~= p.deep_view());
        let ghost before = scoped_view(sa@);
        sa.push((np, land_parameters(m)));
        assert(scoped_view(sa@) =~= before.push(landed_design(dv).scoped_additions[k as int]));
        assert(landed_design(dv).scoped_additions.take(k + 1) =~= landed_design(dv).scoped_additions.take(k as int).push(landed_design(dv).scoped_additions[k as int]));
        k = k + 1;
    }
    let target = match &d.target_model {
        Some(t) => Some(t.duplicate()),
        None => None,
    };
    let r = Design {
        target_model: target,
        parameter_overrides: land_overrides(&d.parameter_overrides),
        parameter_additions: land_parameters(&d.parameter_additions),
        reference_replacements: copy_replacements(&d.reference_replacements),
        scoped_overrides: so,
        scoped_replacements: sr,
        scoped_additions: sa,
    };
    assert(landed_design(dv).scoped_overrides.take(i as int) =~= landed_design(dv).scoped_overrides);
    assert(landed_design(dv).scoped_replacements.take(j as int) =~= landed_design(dv).scoped_replacements);
    assert(landed_design(dv).scoped_additions.take(k as int) =~= landed_design(dv).scoped_additions);
    r
}

/// The view of a model that may be missing.
pub open spec fn opt_model_view(m: Option<&Model>) -> Option<SpecModel> {
    match m {
        Some(m) => Some(m.deep_view()),
        None => None,
    }
}

/// The instance a design with target `design_target`, applied to the
/// reference `ref_name` of the instance `consuming`, lands on: the child
/// instance of a direct submodel, the shared root instance of a plain
/// reference, and none where the design has no target, the consuming model
/// is not known, or the name is neither.
pub open spec fn spec_target_instance_key(
    design_target: Option<Seq<char>>,
    ref_name: Seq<char>,
    consuming: (Seq<char>, Seq<Seq<char>>),
    consumer: Option<SpecModel>,
) -> Option<(Seq<char>, Seq<Seq<char>>)> {
    match design_target {
        None => None,
        Some(t) => match consumer {
            None => None,
            Some(m) => if key_index(m.submodels, ref_name) >= 0 {
                Some((t, consuming.1.push(ref_name)))
            } else if key_index(m.references, ref_name) >= 0 {
                Some((t, Seq::empty()))
            } else {
                None
            },
        },
    }
}

/// Finds the instance a design applied to `ref_name` of `consuming_key`
/// lands on (see [`spec_target_instance_key`]); `consumer` is the model of
/// the consuming instance, where it is known.
pub fn target_instance_key_for(
    design_target: &Option<ModelPath>,
    ref_name: &String,
    consuming_key: &InstanceKey,
    consumer: Option<&Model>,
) -> (r: Option<InstanceKey>)
    ensures
        r.deep_view() == spec_target_instance_key(
            design_target.deep_view(),
            ref_name@,
            consuming_key.deep_view(),
            opt_model_view(consumer),
        ),
{
    let t = match design_target {
        Some(t) => t,
        None => return None,
    };
    let m = match consumer {
        Some(m) => m,
        None => return None,
    };
    if m.submodels.contains_key(ref_name) {
        let mut path = consuming_key.duplicate().instance_path;
        let ghost before = path.deep_view();
        path.push(ref_name.clone());
        assert(path.deep_view() =~= before.push(ref_name@));
        Some(InstanceKey { model_path: t.duplicate(), instance_path: path })
    } else if m.references.contains_key(ref_name) {
        let path: Vec<String> = Vec::new();
        assert(path.deep_view() =~= Seq::<Seq<char>>::empty());
        Some(InstanceKey { model_path: t.duplicate(), instance_path: path })
    } else {
        None
    }
}

/// The contribution of design `d` applied at the instance `consuming`,
/// optionally to its reference `applied_to`: anchored where the design
/// lands (or at `consuming` where that cannot be found), and, for an
/// application to a reference, forwarded to that reference from an empty
/// contribution anchored at `consuming`.
pub open spec fn spec_contribution_for(
    applied_to: Option<Seq<char>>,
    d: LandedDesignView,
    consuming: (Seq<char>, Seq<Seq<char>>),
    consumer: Option<SpecModel>,
) -> SpecResolvedContribution {
    let inner = match applied_to {
        None => consuming,
        Some(r) => match spec_target_instance_key(d.target_model, r, consuming, consumer) {
            Some(k) => k,
            None => consuming,
        },
    };
    let c = from_design_view(d, inner);
    match applied_to {
        None => c,
        Some(r) => SpecContribution { nested_by_ref: seq![(r, c)], ..empty_contribution(consuming) },
    }
}

/// The contribution of a design application at `consuming_key`: `design`
/// is the design of the applied file where it could be loaded, and
/// `consumer` the model of the consuming instance. No design gives no
/// contribution.
pub fn contribution_for_application(
    applied_to: Option<&String>,
    design: Option<LandedDesign>,
    consuming_key: &InstanceKey,
    consumer: Option<&Model>,
) -> (r: Option<ResolvedContribution>)
    ensures
        match design {
            None => r is None,
            Some(d) => r matches Some(c) && c.deep_view() == spec_contribution_for(
                match applied_to {
                    Some(n) => Some(n@),
                    None => None,
                },
                landed_view(&d),
                consuming_key.deep_view(),
                opt_model_view(consumer),
            ),
        },
{
    let d = match design {
        Some(d) => d,
        None => return None,
    };
    let ghost d0 = d;
    match applied_to {
        None => {
            proof {
                lemma_from_design_view(&d0, consuming_key.deep_view());
            }
            Some(DesignContribution::from_design(d, consuming_key))
        },
        Some(name) => {
            let inner = match target_instance_key_for(&d.target_model, name, consuming_key, consumer) {
                Some(k) => k,
                None => consuming_key.duplicate(),
            };
            proof {
                lemma_from_design_view(&d0, inner.deep_view());
            }
            let c = DesignContribution::from_design(d, &inner);
            let mut wrapped: ResolvedContribution = DesignContribution::empty(consuming_key.duplicate());
            let ghost cv = c.deep_view();
            wrapped.nested_by_ref.push((name.clone(), c));
            assert(wrapped.deep_view().nested_by_ref =~= seq![(name@, cv)]);
            Some(wrapped)
        },
    }
}

/// Copies of overrides as they landed.
fn copy_landed_overrides(m: &OrderedMap<LandedOverride>) -> (r: OrderedMap<LandedOverride>)
    ensures
        r.deep_view() == m.deep_view(),
{
    let mut out: Vec<(String, LandedOverride)> = Vec::new();
    let mut i: usize = 0;
    while i < m.entries.len()
        invariant
            i <= m.entries@.len(),
            crate::ordmap::entries_view(out@) =~= m.deep_view().take(i as int),
        decreases m.entries@.len() - i,
    {
        let (k, v) = &m.entries[i];
        let ghost before = crate::ordmap::entries_view(out@);
        out.push((k.clone(), LandedOverride(copy_overlay(&v.0))));
        assert(crate::ordmap::entries_view(out@) =~= before.push(m.deep_view()[i as int]));
        assert(m.deep_view().take(i + 1) =~= m.deep_view().take(i as int).push(m.deep_view()[i as int]));
        i = i + 1;
    }
    OrderedMap { entries: out }
}

/// Copies of added parameters as they landed.
fn copy_landed_parameters(m: &OrderedMap<LandedParameter>) -> (r: OrderedMap<LandedParameter>)
    ensures
        r.deep_view() == m.deep_view(),
{
    let mut out: Vec<(String, LandedParameter)> = Vec::new();
    let mut i: usize = 0;
    while i < m.entries.len()
        invariant
            i <= m.entries@.len(),
            crate::ordmap::entries_view(out@) =~= m.deep_view().take(i as int),
        decreases m.entries@.len() - i,
    {
        let (k, v) = &m.entries[i];
        let ghost before = crate::ordmap::entries_view(out@);
        out.push((k.clone(), LandedParameter(copy_parameter(&v.0))));
        assert(crate::ordmap::entries_view(out@) =~= before.push(m.deep_view()[i as int]));
        assert(m.deep_view().take(i + 1) =~= m.deep_view().take(i as int).push(m.deep_view()[i as int]));
        i = i + 1;
    }
    OrderedMap { entries: out }
}

/// A copy of a contribution, with the contributions it forwards.
#[verifier::loop_isolation(false)]
pub fn copy_contribution(c: &ResolvedContribution) -> (r: ResolvedContribution)
    ensures
        r.deep_view() == c.deep_view(),
    decreases c,
{
    let ghost nv = c.deep_view().nested_by_ref;
    assert(nv =~= crate::ordmap::entries_view(c.nested_by_ref@));
    let mut nested: Vec<(String, ResolvedContribution)> = Vec::new();
    let mut i: usize = 0;
    while i < c.nested_by_ref.len()
        invariant
            i <= c.nested_by_ref@.len(),
            nv == crate::ordmap::entries_view(c.nested_by_ref@),
            crate::ordmap::entries_view(nested@) =~= nv.take(i as int),
        decreases c.nested_by_ref@.len() - i,
    {
        proof {
            assert(decreases_to!(*c => c.nested_by_ref));
            assert(decreases_to!(c.nested_by_ref => c.nested_by_ref@));
            assert(decreases_to!(c.nested_by_ref@ => c.nested_by_ref@[i as int]));
            assert(decreases_to!(c.nested_by_ref@[i as int] => c.nested_by_ref@[i as int].1));
        }
        let (k, child) = &c.nested_by_ref[i];
        let copied = copy_contribution(child);
        let ghost before = crate::ordmap::entries_view(nested@);
        nested.push((k.clone(), copied));
        assert(crate::ordmap::entries_view(nested@) =~= before.push(nv[i as int]));
        assert(nv.take(i + 1) =~= nv.take(i as int).push(nv[i as int]));
        i = i + 1;
    }
    let r = DesignContribution {
        anchor_key: c.anchor_key.duplicate(),
        overrides: copy_landed_overrides(&c.overrides),
        additions: copy_landed_parameters(&c.additions),
        replacements: copy_replacements(&c.replacements),
        nested_by_ref: nested,
    };
    assert(nv.take(i as int) =~= nv);
    assert(r.deep_view().nested_by_ref =~= crate::ordmap::entries_view(r.nested_by_ref@));
    r
}

/// The contributions that `cs` forward to the reference `name`, in order.
pub open spec fn landed_for(cs: Seq<SpecResolvedContribution>, name: Seq<char>) -> Seq<SpecResolvedContribution>
    decreases cs.len(),
{
    if cs.len() == 0 {
        Seq::empty()
    } else {
        let before = landed_for(cs.drop_last(), name);
        match map_get(cs.last().nested_by_ref, name) {
            Some(c) => before.push(c),
            None => before,
        }
    }
}

/// Copies of the contributions that `landed` forward to the reference
/// `name`.
fn landed_for_child(landed: &Vec<ResolvedContribution>, name: &String) -> (r: Vec<ResolvedContribution>)
    ensures
        contribution_views(r@) == landed_for(contribution_views(landed@), name@),
{
    let ghost cs = contribution_views(landed@);
    let mut out: Vec<ResolvedContribution> = Vec::new();
    let mut i: usize = 0;
    assert(cs.take(0) =~= Seq::<SpecResolvedContribution>::empty());
    assert(contribution_views(out@) =~= Seq::<SpecResolvedContribution>::empty());
    while i < landed.len()
        invariant
            i <= landed@.len(),
            cs == contribution_views(landed@),
            contribution_views(out@) == landed_for(cs.take(i as int), name@),
        decreases landed@.len() - i,
    {
        let c = &landed[i];
        proof {
            assert(cs.take(i + 1).drop_last() =~= cs.take(i as int));
            assert(cs.take(i + 1).last() == c.deep_view());
            assert(c.deep_view().nested_by_ref =~= crate::ordmap::entries_view(c.nested_by_ref@));
        }
        match crate::ordmap::entries_index_of(&c.nested_by_ref, name) {
            Some(j) => {
                let copied = copy_contribution(&c.nested_by_ref[j].1);
                let ghost before = contribution_views(out@);
                out.push(copied);
                proof {
                    crate::ordmap::lemma_key_index_from(c.deep_view().nested_by_ref, name@, 0);
                    assert(contribution_views(out@) =~= before.push(copied.deep_view()));
                }
            },
            None => {},
        }
        i = i + 1;
    }
    assert(cs.take(landed@.len() as int) =~= cs);
    out
}

/// The contributions of the designs `apps` applied at the instance `key`:
/// one for each whose design file is loaded.
pub open spec fn spec_applications(
    models: Seq<(Seq<char>, SpecModel)>,
    apps: Seq<SpecApplication>,
    key: (Seq<char>, Seq<Seq<char>>),
) -> Seq<SpecResolvedContribution>
    decreases apps.len(),
{
    if apps.len() == 0 {
        Seq::empty()
    } else {
        let before = spec_applications(models, apps.drop_last(), key);
        let app = apps.last();
        match map_get(models, app.design_path) {
            None => before,
            Some(dm) => before.push(
                spec_contribution_for(app.applied_to, landed_design(dm.design_export), key, map_get(models, key.0)),
            ),
        }
    }
}

/// The contributions of the designs `apps` applied at `key`, each design
/// read from the loaded model of its file.
pub fn contributions_of_applications(apps: &Vec<DesignApplication>, key: &InstanceKey, models: &OrderedMap<Model>) -> (r:
    Vec<ResolvedContribution>)
    ensures
        contribution_views(r@) == spec_applications(
            models.deep_view(),
            apps@.map_values(|a: DesignApplication| a.deep_view()),
            key.deep_view(),
        ),
{
    let ghost av = apps@.map_values(|a: DesignApplication| a.deep_view());
    let ghost mv = models.deep_view();
    let consumer = models.get(&key.model_path.path);
    assert(opt_model_view(consumer) == map_get(mv, key.deep_view().0));
    let mut out: Vec<ResolvedContribution> = Vec::new();
    let mut i: usize = 0;
    assert(av.take(0) =~= Seq::<SpecApplication>::empty());
    assert(contribution_views(out@) =~= Seq::<SpecResolvedContribution>::empty());
    while i < apps.len()
        invariant
            i <= apps@.len(),
            av == apps@.map_values(|a: DesignApplication| a.deep_view()),
            mv == models.deep_view(),
            opt_model_view(consumer) == map_get(mv, key.deep_view().0),
            contribution_views(out@) == spec_applications(mv, av.take(i as int), key.deep_view()),
        decreases apps@.len() - i,
    {
        let app = &apps[i];
        proof {
            assert(av.take(i + 1).drop_last() =~= av.take(i as int));
            assert(av.take(i + 1).last() == app.deep_view());
        }
        match models.get(&app.design_path.path) {
            Some(dm) => {
                let d = copy_design(&dm.design_export);
                let applied_to = match &app.applied_to {
                    Some(n) => Some(n),
                    None => None,
                };
                let c = contribution_for_application(applied_to, Some(d), key, consumer);
                match c {
                    Some(c) => {
                        let ghost before = contribution_views(out@);
                        out.push(c);
                        assert(contribution_views(out@) =~= before.push(c.deep_view()));
                    },
                    None => {},
                }
            },
            None => {},
        }
        i = i + 1;
    }
    assert(av.take(apps@.len() as int) =~= av);
    out
}

/// The parameters of an instance: its model's own, then the additions of
/// each landed contribution in turn (a later one wins).
pub open spec fn spec_compose_parameters(
    own: Seq<(Seq<char>, ParameterShape)>,
    cs: Seq<SpecResolvedContribution>,
) -> Seq<(Seq<char>, ParameterShape)>
    decreases cs.len(),
{
    if cs.len() == 0 {
        own
    } else {
        crate::contribution::insert_all(spec_compose_parameters(own, cs.drop_last()), cs.last().additions)
    }
}

/// Combines a model's own parameters with the additions of the landed
/// contributions (see [`spec_compose_parameters`]).
pub fn compose_parameters(own: &OrderedMap<Parameter>, landed: &Vec<ResolvedContribution>) -> (r: OrderedMap<
    LandedParameter,
>)
    ensures
        r.deep_view() == spec_compose_parameters(shape_parameters(own.deep_view()), contribution_views(landed@)),
{
    let ghost cs = contribution_views(landed@);
    let ghost start = shape_parameters(own.deep_view());
    let mut out = land_parameters(own);
    let mut i: usize = 0;
    assert(cs.take(0) =~= Seq::<SpecResolvedContribution>::empty());
    while i < landed.len()
        invariant
            i <= landed@.len(),
            cs == contribution_views(landed@),
            out.deep_view() == spec_compose_parameters(start, cs.take(i as int)),
        decreases landed@.len() - i,
    {
        let c = &landed[i];
        let ghost base = out.deep_view();
        let ghost av = c.additions.deep_view();
        let mut j: usize = 0;
        assert(av.take(0) =~= Seq::<(Seq<char>, ParameterShape)>::empty());
        while j < c.additions.entries.len()
            invariant
                j <= c.additions.entries@.len(),
                av == c.additions.deep_view(),
                av == crate::ordmap::entries_view(c.additions.entries@),
                out.deep_view() == crate::contribution::insert_all(base, av.take(j as int)),
            decreases c.additions.entries@.len() - j,
        {
            let (name, p) = &c.additions.entries[j];
            out.insert(name.clone(), LandedParameter(copy_parameter(&p.0)));
            proof {
                assert(av.take(j + 1).drop_last() =~= av.take(j as int));
                assert(av.take(j + 1).last() == (name@, p.deep_view()));
            }
            j = j + 1;
        }
        proof {
            assert(av.take(j as int) =~= av);
            assert(cs.take(i + 1).drop_last() =~= cs.take(i as int));
            assert(cs.take(i + 1).last() == c.deep_view());
        }
        i = i + 1;
    }
    assert(cs.take(landed@.len() as int) =~= cs);
    out
}

/// An override on an instance: the value, the spans of the design
/// assignment and of the parameter's own definition, and the instance in
/// whose scope the value is read (where the design landed).
#[derive(Debug)]
pub struct OverlayBinding {
    pub value: ParameterValue,
    pub design_span: Span,
    pub original_model_span: Span,
    pub anchor_key: InstanceKey,
}

/// The view of an [`OverlayBinding`].
pub struct BindingShape {
    pub value: ValueShape,
    pub design_span: Span,
    pub original_model_span: Span,
    pub anchor_key: (Seq<char>, Seq<Seq<char>>),
}

impl DeepView for OverlayBinding {
    type V = BindingShape;

    open spec fn deep_view(&self) -> BindingShape {
        BindingShape {
            value: crate::ir_copy::value_shape(self.value),
            design_span: self.design_span,
            original_model_span: self.original_model_span,
            anchor_key: self.anchor_key.deep_view(),
        }
    }
}

/// The bindings `out` after binding each override of `entries`, read in
/// the scope `anchor`.
pub open spec fn bind_all(
    out: Seq<(Seq<char>, BindingShape)>,
    entries: Seq<(Seq<char>, OverlayShape)>,
    anchor: (Seq<char>, Seq<Seq<char>>),
) -> Seq<(Seq<char>, BindingShape)>
    decreases entries.len(),
{
    if entries.len() == 0 {
        out
    } else {
        let (name, o) = entries.last();
        map_insert(
            bind_all(out, entries.drop_last(), anchor),
            name,
            BindingShape {
                value: o.value,
                design_span: o.design_span,
                original_model_span: o.original_model_span,
                anchor_key: anchor,
            },
        )
    }
}

/// The overrides of an instance: those of each landed contribution in
/// turn, each read in its contribution's scope (a later one wins).
pub open spec fn spec_compose_overlays(cs: Seq<SpecResolvedContribution>) -> Seq<(Seq<char>, BindingShape)>
    decreases cs.len(),
{
    if cs.len() == 0 {
        Seq::empty()
    } else {
        bind_all(spec_compose_overlays(cs.drop_last()), cs.last().overrides, cs.last().anchor_key)
    }
}

/// Combines the overrides of the landed contributions (see
/// [`spec_compose_overlays`]).
pub fn compose_overlays(landed: &Vec<ResolvedContribution>) -> (r: OrderedMap<OverlayBinding>)
    ensures
        r.deep_view() == spec_compose_overlays(contribution_views(landed@)),
{
    let ghost cs = contribution_views(landed@);
    let mut out: OrderedMap<OverlayBinding> = OrderedMap::new();
    let mut i: usize = 0;
    assert(cs.take(0) =~= Seq::<SpecResolvedContribution>::empty());
    while i < landed.len()
        invariant
            i <= landed@.len(),
            cs == contribution_views(landed@),
            out.deep_view() == spec_compose_overlays(cs.take(i as int)),
        decreases landed@.len() - i,
    {
        let c = &landed[i];
        let ghost base = out.deep_view();
        let ghost ov = c.overrides.deep_view();
        let mut j: usize = 0;
        assert(ov.take(0) =~= Seq::<(Seq<char>, OverlayShape)>::empty());
        while j < c.overrides.entries.len()
            invariant
                j <= c.overrides.entries@.len(),
                ov == c.overrides.deep_view(),
                ov == crate::ordmap::entries_view(c.overrides.entries@),
                out.deep_view() == bind_all(base, ov.take(j as int), c.anchor_key.deep_view()),
            decreases c.overrides.entries@.len() - j,
        {
            let (name, o) = &c.overrides.entries[j];
            let b = OverlayBinding {
                value: copy_value(&o.0.value),
                design_span: o.0.design_span,
                original_model_span: o.0.original_model_span,
                anchor_key: c.anchor_key.duplicate(),
            };
            out.insert(name.clone(), b);
            proof {
                assert(ov.take(j + 1).drop_last() =~= ov.take(j as int));
                assert(ov.take(j + 1).last() == (name@, o.deep_view()));
            }
            j = j + 1;
        }
        proof {
            assert(ov.take(j as int) =~= ov);
            assert(cs.take(i + 1).drop_last() =~= cs.take(i as int));
            assert(cs.take(i + 1).last() == c.deep_view());
        }
        i = i + 1;
    }
    assert(cs.take(landed@.len() as int) =~= cs);
    out
}

/// Tests read by their structure.
pub open spec fn shape_tests(ts: Seq<(usize, Test)>) -> Seq<(usize, TestShape)> {
    ts.map_values(|t: (usize, Test)| (t.0, test_shape(t.1)))
}

/// Copies of a model's tests.
fn copy_tests(ts: &Vec<(usize, Test)>) -> (r: Vec<(usize, Test)>)
    ensures
        shape_tests(r@) == shape_tests(ts@),
{
    let mut out: Vec<(usize, Test)> = Vec::new();
    let mut i: usize = 0;
    while i < ts.len()
        invariant
            i <= ts@.len(),
            shape_tests(out@) =~= shape_tests(ts@).take(i as int),
        decreases ts@.len() - i,
    {
        let ghost before = shape_tests(out@);
        out.push((ts[i].0, copy_test(&ts[i].1)));
        assert(shape_tests(out@) =~= before.push(shape_tests(ts@)[i as int]));
        assert(shape_tests(ts@).take(i + 1) =~= shape_tests(ts@).take(i as int).push(shape_tests(ts@)[i as int]));
        i = i + 1;
    }
    out
}

/// The entries `out` after inserting each of `entries` in turn.
pub open spec fn insert_all(out: Seq<(Seq<char>, Seq<char>)>, entries: Seq<(Seq<char>, Seq<char>)>) -> Seq<
    (Seq<char>, Seq<char>),
>
    decreases entries.len(),
{
    if entries.len() == 0 {
        out
    } else {
        map_insert(insert_all(out, entries.drop_last()), entries.last().0, entries.last().1)
    }
}

/// The reference replacements of the contributions `cs`, by reference
/// name; a later contribution wins.
pub open spec fn spec_collect_replacements(cs: Seq<SpecResolvedContribution>) -> Seq<(Seq<char>, Seq<char>)>
    decreases cs.len(),
{
    if cs.len() == 0 {
        Seq::empty()
    } else {
        insert_all(spec_collect_replacements(cs.drop_last()), cs.last().replacements)
    }
}

/// The views of contributions.
pub open spec fn contribution_views(cs: Seq<ResolvedContribution>) -> Seq<SpecResolvedContribution> {
    cs.map_values(|c: ResolvedContribution| c.deep_view())
}

/// Collects the paths that the landed contributions replace references
/// with, by reference name (see [`spec_collect_replacements`]).
pub fn collect_replacements(landed: &Vec<ResolvedContribution>) -> (r: OrderedMap<ModelPath>)
    ensures
        r.deep_view() == spec_collect_replacements(contribution_views(landed@)),
{
    let ghost cs = contribution_views(landed@);
    let mut out: OrderedMap<ModelPath> = OrderedMap::new();
    let mut i: usize = 0;
    assert(cs.take(0) =~= Seq::<SpecResolvedContribution>::empty());
    while i < landed.len()
        invariant
            i <= landed@.len(),
            cs == contribution_views(landed@),
            out.deep_view() == spec_collect_replacements(cs.take(i as int)),
        decreases landed@.len() - i,
    {
        let c = &landed[i];
        let entries = &c.replacements.entries;
        let ghost base = out.deep_view();
        let ghost rv = c.replacements.deep_view();
        let mut j: usize = 0;
        assert(rv.take(0) =~= Seq::<(Seq<char>, Seq<char>)>::empty());
        while j < entries.len()
            invariant
                j <= entries@.len(),
                rv == c.replacements.deep_view(),
                rv == crate::ordmap::entries_view(entries@),
                out.deep_view() == insert_all(base, rv.take(j as int)),
            decreases entries@.len() - j,
        {
            let (name, repl) = &entries[j];
            out.insert(name.clone(), repl.replacement_path.duplicate());
            proof {
                assert(rv.take(j + 1).drop_last() =~= rv.take(j as int));
                assert(rv.take(j + 1).last() == (name@, repl.deep_view()));
            }
            j = j + 1;
        }
        proof {
            assert(rv.take(j as int) =~= rv);
            assert(cs.take(i + 1).drop_last() =~= cs.take(i as int));
            assert(cs.take(i + 1).last() == c.deep_view());
        }
        i = i + 1;
    }
    assert(cs.take(landed@.len() as int) =~= cs);
    out
}

/// The aliases of the direct (not extracted) submodels, in order.
pub open spec fn direct_submodels(subs: Seq<(Seq<char>, SpecSubmodelImport)>) -> Seq<Seq<char>>
    decreases subs.len(),
{
    if subs.len() == 0 {
        Seq::empty()
    } else {
        let before = direct_submodels(subs.drop_last());
        if subs.last().1.submodel_path.len() == 0 {
            before.push(subs.last().0)
        } else {
            before
        }
    }
}

/// The references of the instance `key` of a model with references `refs`,
/// after the replacements `repl`: each leads to its replacement path, or
/// else to its own path; a direct submodel's to the child instance under
/// `key`, any other to the shared root instance.
pub open spec fn wired_references(
    key: (Seq<char>, Seq<Seq<char>>),
    refs: Seq<(Seq<char>, SpecReferenceImport)>,
    repl: Seq<(Seq<char>, Seq<char>)>,
    direct: Seq<Seq<char>>,
) -> Seq<(Seq<char>, (Seq<char>, Seq<Seq<char>>))>
    decreases refs.len(),
{
    if refs.len() == 0 {
        Seq::empty()
    } else {
        let before = wired_references(key, refs.drop_last(), repl, direct);
        let (name, r) = refs.last();
        let child_path = match map_get(repl, name) {
            Some(p) => p,
            None => r.path,
        };
        let instance = if direct.contains(name) {
            key.1.push(name)
        } else {
            Seq::empty()
        };
        map_insert(before, name, (child_path, instance))
    }
}

/// The true references of the instance `key` of `model` after the
/// replacements `replacements` (see [`wired_references`]), with the aliases
/// of its direct submodels.
pub fn instance_references(key: &InstanceKey, model: &Model, replacements: &OrderedMap<ModelPath>) -> (r: (
    OrderedMap<InstanceKey>,
    Vec<String>,
))
    ensures
        r.1.deep_view() == direct_submodels(model.deep_view().submodels),
        r.0.deep_view() == wired_references(
            key.deep_view(),
            model.deep_view().references,
            replacements.deep_view(),
            direct_submodels(model.deep_view().submodels),
        ),
{
    let ghost mv = model.deep_view();
    let subs = &model.submodels.entries;
    let mut direct: Vec<String> = Vec::new();
    let mut i: usize = 0;
    assert(mv.submodels.take(0) =~= Seq::<(Seq<char>, SpecSubmodelImport)>::empty());
    assert(direct.deep_view() =~= Seq::<Seq<char>>::empty());
    while i < subs.len()
        invariant
            i <= subs@.len(),
            mv == model.deep_view(),
            mv.submodels == crate::ordmap::entries_view(subs@),
            direct.deep_view() == direct_submodels(mv.submodels.take(i as int)),
        decreases subs@.len() - i,
    {
        proof {
            assert(mv.submodels.take(i + 1).drop_last() =~= mv.submodels.take(i as int));
            assert(mv.submodels.take(i + 1).last() == (subs@[i as int].0@, subs@[i as int].1.deep_view()));
        }
        if !subs[i].1.is_extracted() {
            let ghost before = direct.deep_view();
            direct.push(subs[i].0.clone());
            assert(direct.deep_view() =~= before.push(subs@[i as int].0@));
        }
        i = i + 1;
    }
    assert(mv.submodels.take(subs@.len() as int) =~= mv.submodels);
    let ghost dv = direct.deep_view();
    let refs = &model.references.entries;
    let mut out: OrderedMap<InstanceKey> = OrderedMap::new();
    let mut j: usize = 0;
    assert(mv.references.take(0) =~= Seq::<(Seq<char>, SpecReferenceImport)>::empty());
    while j < refs.len()
        invariant
            j <= refs@.len(),
            mv == model.deep_view(),
            mv.references == crate::ordmap::entries_view(refs@),
            dv == direct.deep_view(),
            out.deep_view() == wired_references(
                key.deep_view(),
                mv.references.take(j as int),
                replacements.deep_view(),
                dv,
            ),
        decreases refs@.len() - j,
    {
        let (name, import) = &refs[j];
        proof {
            assert(mv.references.take(j + 1).drop_last() =~= mv.references.take(j as int));
            assert(mv.references.take(j + 1).last() == (name@, import.deep_view()));
        }
        let child_path = match replacements.get(name) {
            Some(p) => p.duplicate(),
            None => import.path.duplicate(),
        };
        let instance_path = if contains_name(&direct, name) {
            let mut p = key.duplicate().instance_path;
            let ghost before = p.deep_view();
            p.push(name.clone());
            assert(p.deep_view() =~= before.push(name@));
            p
        } else {
            let p: Vec<String> = Vec::new();
            assert(p.deep_view() =~= Seq::<Seq<char>>::empty());
            p
        };
        out.insert(name.clone(), InstanceKey { model_path: child_path, instance_path });
        j = j + 1;
    }
    assert(mv.references.take(refs@.len() as int) =~= mv.references);
    (out, direct)
}


/// One model instance of the instance graph: the model file behind it, its
/// parameters (its model's own and those designs added), its references to
/// child instances (after replacements, with extracted submodel aliases),
/// the aliases of its submodels, its tests, and the overrides landed on it.
#[derive(Debug)]
pub struct InstancedModel {
    pub model_path: ModelPath,
    pub parameters: OrderedMap<LandedParameter>,
    pub references: OrderedMap<InstanceKey>,
    pub submodels: Vec<String>,
    pub tests: Vec<(usize, Test)>,
    pub overlays: OrderedMap<OverlayBinding>,
}

/// The view of an instance key.
pub type SpecKey = (Seq<char>, Seq<Seq<char>>);

/// The view of the references of an instance.
pub type SpecRefs = Seq<(Seq<char>, SpecKey)>;

/// The view of an [`InstancedModel`].
pub struct SpecInstance {
    pub model_path: Seq<char>,
    pub parameters: Seq<(Seq<char>, ParameterShape)>,
    pub references: SpecRefs,
    pub submodels: Seq<Seq<char>>,
    pub tests: Seq<(usize, TestShape)>,
    pub overlays: Seq<(Seq<char>, BindingShape)>,
}

/// The view of an instance.
pub open spec fn instance_view(i: &InstancedModel) -> SpecInstance {
    SpecInstance {
        model_path: i.model_path.deep_view(),
        parameters: i.parameters.deep_view(),
        references: i.references.deep_view(),
        submodels: i.submodels.deep_view(),
        tests: shape_tests(i.tests@),
        overlays: i.overlays.deep_view(),
    }
}

/// The instances built so far, each with its key, in the order they were
/// first added.
#[derive(Debug)]
pub struct LiveGraph {
    pub instances: Vec<(InstanceKey, InstancedModel)>,
}

/// The view of the instances of a graph.
pub type SpecGraph = Seq<(SpecKey, SpecInstance)>;

/// The view of a [`LiveGraph`].
pub open spec fn live_view(g: &LiveGraph) -> SpecGraph {
    g.instances@.map_values(|e: (InstanceKey, InstancedModel)| (e.0.deep_view(), instance_view(&e.1)))
}

/// The position of the first instance `k` in `g` from position `i` on, or
/// -1.
pub open spec fn key_pos_from(g: SpecGraph, k: SpecKey, i: int) -> int
    decreases g.len() - i,
{
    if i < 0 || i >= g.len() {
        -1
    } else if g[i].0 == k {
        i
    } else {
        key_pos_from(g, k, i + 1)
    }
}

/// `g` with instance `k` set to `inst`: in its place if `k` is there,
/// else at the end.
pub open spec fn graph_insert(g: SpecGraph, k: SpecKey, inst: SpecInstance) -> SpecGraph {
    let p = key_pos_from(g, k, 0);
    if p >= 0 {
        g.update(p, (k, inst))
    } else {
        g.push((k, inst))
    }
}

/// `g` with the references and submodel aliases of instance `k` replaced,
/// if `k` is there.
pub open spec fn graph_patch(g: SpecGraph, k: SpecKey, refs: SpecRefs, subs: Seq<Seq<char>>) -> SpecGraph {
    let p = key_pos_from(g, k, 0);
    if p >= 0 {
        g.update(p, (k, SpecInstance { references: refs, submodels: subs, ..g[p].1 }))
    } else {
        g
    }
}

proof fn lemma_key_pos(g: SpecGraph, k: SpecKey, i: int)
    requires
        0 <= i <= g.len(),
        forall|j: int| 0 <= j < i ==> g[j].0 != k,
    ensures
        key_pos_from(g, k, 0) == key_pos_from(g, k, i),
        key_pos_from(g, k, 0) == -1 || (0 <= key_pos_from(g, k, 0) < g.len() && g[key_pos_from(g, k, 0)].0 == k),
    decreases g.len() - i,
{
    if i > 0 {
        lemma_key_pos_prefix(g, k, i);
    }
    lemma_key_pos_shape(g, k, i);
}

proof fn lemma_key_pos_prefix(g: SpecGraph, k: SpecKey, i: int)
    requires
        0 <= i <= g.len(),
        forall|j: int| 0 <= j < i ==> g[j].0 != k,
    ensures
        key_pos_from(g, k, 0) == key_pos_from(g, k, i),
    decreases i,
{
    if i > 0 {
        lemma_key_pos_prefix(g, k, i - 1);
    }
}

proof fn lemma_key_pos_shape(g: SpecGraph, k: SpecKey, i: int)
    requires
        0 <= i <= g.len(),
    ensures
        key_pos_from(g, k, i) == -1 || (i <= key_pos_from(g, k, i) < g.len() && g[key_pos_from(g, k, i)].0 == k),
    decreases g.len() - i,
{
    if i < g.len() {
        lemma_key_pos_shape(g, k, i + 1);
    }
}

/// The position of instance `k` in `g`.
fn find_instance(g: &LiveGraph, k: &InstanceKey) -> (r: Option<usize>)
    ensures
        match r {
            Some(p) => p as int == key_pos_from(live_view(g), k.deep_view(), 0) && p < g.instances@.len(),
            None => key_pos_from(live_view(g), k.deep_view(), 0) == -1,
        },
{
    let ghost gv = live_view(g);
    let mut i: usize = 0;
    while i < g.instances.len()
        invariant
            i <= g.instances@.len(),
            gv == live_view(g),
            forall|j: int| 0 <= j < i ==> gv[j].0 != k.deep_view(),
        decreases g.instances@.len() - i,
    {
        if same_key(&g.instances[i].0, k) {
            proof {
                lemma_key_pos(gv, k.deep_view(), i as int);
            }
            return Some(i);
        }
        i = i + 1;
    }
    proof {
        lemma_key_pos(gv, k.deep_view(), i as int);
    }
    None
}

/// Sets instance `key` of `g` to `inst` (see [`graph_insert`]).
fn insert_instance(g: &mut LiveGraph, key: InstanceKey, inst: InstancedModel)
    ensures
        live_view(final(g)) == graph_insert(live_view(old(g)), key.deep_view(), instance_view(&inst)),
{
    let ghost gv = live_view(g);
    match find_instance(g, &key) {
        Some(p) => {
            g.instances.set(p, (key, inst));
            assert(live_view(g) =~= gv.update(p as int, (key.deep_view(), instance_view(&inst))));
        },
        None => {
            g.instances.push((key, inst));
            assert(live_view(g) =~= gv.push((key.deep_view(), instance_view(&inst))));
        },
    }
}

/// Replaces the references and submodel aliases of instance `key` of `g`
/// (see [`graph_patch`]).
fn patch_instance(g: &mut LiveGraph, key: &InstanceKey, references: OrderedMap<InstanceKey>, submodels: Vec<String>)
    ensures
        live_view(final(g)) == graph_patch(
            live_view(old(g)),
            key.deep_view(),
            references.deep_view(),
            submodels.deep_view(),
        ),
{
    let ghost gv = live_view(g);
    match find_instance(g, key) {
        Some(p) => {
            let ghost old_inst = g.instances@;
            let (k, mut inst) = g.instances.remove(p);
            proof {
                lemma_key_pos_shape(gv, key.deep_view(), 0);
                assert(old_inst[p as int] == (k, inst));
                assert(gv[p as int] == (k.deep_view(), instance_view(&inst)));
            }
            inst.references = references;
            inst.submodels = submodels;
            let ghost entry = (k, inst);
            g.instances.insert(p, (k, inst));
            assert(g.instances@ =~= old_inst.update(p as int, entry));
            assert(live_view(g) =~= gv.update(
                p as int,
                (key.deep_view(), SpecInstance { references: references.deep_view(), submodels: submodels.deep_view(), ..gv[p as int].1 }),
            ));
        },
        None => {},
    }
}

/// The references of the first instance `k` in `g` from position `i` on.
pub open spec fn refs_of_from(g: SpecGraph, k: SpecKey, i: int) -> Option<SpecRefs>
    decreases g.len() - i,
{
    if i < 0 || i >= g.len() {
        None
    } else if g[i].0 == k {
        Some(g[i].1.references)
    } else {
        refs_of_from(g, k, i + 1)
    }
}

/// The instance reached from `current` by following the reference names
/// `segments` through the built instances, if each step is known.
pub open spec fn follow(g: SpecGraph, current: SpecKey, segments: Seq<Seq<char>>) -> Option<SpecKey>
    decreases segments.len(),
{
    if segments.len() == 0 {
        Some(current)
    } else {
        match refs_of_from(g, current, 0) {
            None => None,
            Some(refs) => match map_get(refs, segments[0]) {
                None => None,
                Some(next) => follow(g, next, segments.drop_first()),
            },
        }
    }
}

/// The references and submodel aliases of an instance after wiring its
/// extracted submodels `subs`, in order: an extracted alias leads to the
/// instance its chain reaches from the reference it goes through, and is
/// then a submodel alias too; one whose chain cannot be followed is left
/// out.
pub open spec fn wire_extracted(
    g: SpecGraph,
    refs: SpecRefs,
    aliases: Seq<Seq<char>>,
    subs: Seq<(Seq<char>, SpecSubmodelImport)>,
) -> (SpecRefs, Seq<Seq<char>>)
    decreases subs.len(),
{
    if subs.len() == 0 {
        (refs, aliases)
    } else {
        let (r, a) = wire_extracted(g, refs, aliases, subs.drop_last());
        let (alias, import) = subs.last();
        if import.submodel_path.len() == 0 {
            (r, a)
        } else {
            match map_get(r, import.reference_name) {
                None => (r, a),
                Some(parent) => match follow(g, parent, import.submodel_path) {
                    None => (r, a),
                    Some(k) => (map_insert(r, alias, k), set_insert(a, alias)),
                },
            }
        }
    }
}

/// Whether two instance keys are the same.
fn same_key(a: &InstanceKey, b: &InstanceKey) -> (r: bool)
    ensures
        r == (a.deep_view() == b.deep_view()),
{
    a.model_path.same_as(&b.model_path) && same_path(&a.instance_path, &b.instance_path)
}

/// The references of instance `k` in `g`.
fn refs_of<'a>(g: &'a LiveGraph, k: &InstanceKey) -> (r: Option<&'a OrderedMap<InstanceKey>>)
    ensures
        match r {
            Some(refs) => refs_of_from(live_view(g), k.deep_view(), 0) == Some(refs.deep_view()),
            None => refs_of_from(live_view(g), k.deep_view(), 0) is None,
        },
{
    let ghost gv = live_view(g);
    let mut i: usize = 0;
    while i < g.instances.len()
        invariant
            i <= g.instances@.len(),
            gv == live_view(g),
            refs_of_from(gv, k.deep_view(), 0) == refs_of_from(gv, k.deep_view(), i as int),
        decreases g.instances@.len() - i,
    {
        if same_key(&g.instances[i].0, k) {
            return Some(&g.instances[i].1.references);
        }
        i = i + 1;
    }
    None
}

/// Follows the reference names `segments` from `start` through `g` (see
/// [`follow`]).
fn follow_chain(g: &LiveGraph, start: &InstanceKey, segments: &Vec<String>) -> (r: Option<InstanceKey>)
    ensures
        r.deep_view() == follow(live_view(g), start.deep_view(), segments.deep_view()),
{
    let ghost gv = live_view(g);
    let ghost sv = segments.deep_view();
    let mut current = start.duplicate();
    let mut i: usize = 0;
    assert(sv.subrange(0, sv.len() as int) =~= sv);
    while i < segments.len()
        invariant
            i <= segments@.len(),
            gv == live_view(g),
            sv == segments.deep_view(),
            follow(gv, start.deep_view(), sv) == follow(gv, current.deep_view(), sv.subrange(i as int, sv.len() as int)),
        decreases segments@.len() - i,
    {
        let ghost rest = sv.subrange(i as int, sv.len() as int);
        assert(rest.drop_first() =~= sv.subrange(i + 1, sv.len() as int));
        assert(rest[0] == segments@[i as int]@);
        let refs = match refs_of(g, &current) {
            Some(refs) => refs,
            None => return None,
        };
        let next = match refs.get(&segments[i]) {
            Some(n) => n.duplicate(),
            None => return None,
        };
        current = next;
        i = i + 1;
    }
    assert(sv.subrange(i as int, sv.len() as int) =~= Seq::<Seq<char>>::empty());
    Some(current)
}

/// Adds `name` to `names` unless it is already there.
fn push_new(names: &mut Vec<String>, name: String)
    ensures
        final(names).deep_view() == set_insert(old(names).deep_view(), name@),
{
    if !contains_name(names, &name) {
        let ghost before = names.deep_view();
        names.push(name);
        assert(names.deep_view() =~= before.push(name@));
    }
}

/// Wires the extracted submodels `subs` of an instance whose references
/// and submodel aliases are `references` and `submodels`, by following each
/// one's chain through the instances built so far (see
/// [`wire_extracted`]).
pub fn wire_extracted_submodels(
    g: &LiveGraph,
    subs: &OrderedMap<SubmodelImport>,
    references: &mut OrderedMap<InstanceKey>,
    submodels: &mut Vec<String>,
)
    ensures
        (final(references).deep_view(), final(submodels).deep_view()) == wire_extracted(
            live_view(g),
            old(references).deep_view(),
            old(submodels).deep_view(),
            subs.deep_view(),
        ),
{
    let ghost gv = live_view(g);
    let ghost r0 = references.deep_view();
    let ghost a0 = submodels.deep_view();
    let ghost sv = subs.deep_view();
    let es = &subs.entries;
    let mut i: usize = 0;
    assert(sv.take(0) =~= Seq::<(Seq<char>, SpecSubmodelImport)>::empty());
    while i < es.len()
        invariant
            i <= es@.len(),
            gv == live_view(g),
            sv == subs.deep_view(),
            sv == crate::ordmap::entries_view(es@),
            (references.deep_view(), submodels.deep_view()) == wire_extracted(gv, r0, a0, sv.take(i as int)),
        decreases es@.len() - i,
    {
        let (alias, import) = &es[i];
        proof {
            assert(sv.take(i + 1).drop_last() =~= sv.take(i as int));
            assert(sv.take(i + 1).last() == (alias@, import.deep_view()));
        }
        if import.is_extracted() {
            let parent = match references.get(&import.reference_name) {
                Some(p) => Some(p.duplicate()),
                None => None,
            };
            if let Some(p) = parent {
                if let Some(k) = follow_chain(g, &p, &import.submodel_path) {
                    references.insert(alias.clone(), k);
                    push_new(submodels, alias.clone());
                }
            }
        }
        i = i + 1;
    }
    assert(sv.take(es@.len() as int) =~= sv);
}


/// The views of instance keys.
pub open spec fn keys_view(v: Seq<InstanceKey>) -> Seq<SpecKey> {
    v.map_values(|k: InstanceKey| k.deep_view())
}

/// How many more keys a list of visited keys can take.
pub open spec fn room(v: Seq<SpecKey>) -> nat {
    if v.len() <= usize::MAX {
        (usize::MAX - v.len()) as nat
    } else {
        0
    }
}

/// Visiting the instance `key` with the contributions `landed` that reached
/// it, over the graph `g` built so far with the keys `v` visited so far:
/// the graph after, and the keys newly visited, in order.
///
/// A key already visited is left as it is. A key whose model is not
/// loaded is only marked visited. Otherwise the model's own applied designs
/// join the landed contributions; each contribution is re-routed through the
/// extracted submodels of the model; the instance is added with the
/// composed parameters and overrides, its references after the collected
/// replacements, its direct submodel aliases and its tests; each reference's
/// child is visited in turn with the contributions forwarded to it; and the
/// extracted submodels are then wired through the graph.
pub open spec fn spec_visit(
    models: Seq<(Seq<char>, SpecModel)>,
    key: SpecKey,
    landed: Seq<SpecResolvedContribution>,
    g: SpecGraph,
    v: Seq<SpecKey>,
) -> (SpecGraph, Seq<SpecKey>)
    decreases room(v), 0nat, 0nat,
{
    if v.len() >= usize::MAX || v.contains(key) {
        (g, Seq::empty())
    } else {
        match map_get(models, key.0) {
            None => (g, seq![key]),
            Some(m) => {
                let all = (landed + spec_applications(models, m.applied_designs, key)).map_values(
                    |c: SpecResolvedContribution| spec_rewrite(c, m.submodels),
                );
                let direct = direct_submodels(m.submodels);
                let refs = wired_references(key, m.references, spec_collect_replacements(all), direct);
                let inst = SpecInstance {
                    model_path: key.0,
                    parameters: spec_compose_parameters(shape_parameters(m.parameters), all),
                    references: refs,
                    submodels: direct,
                    tests: shape_tests(m.tests),
                    overlays: spec_compose_overlays(all),
                };
                let (g2, added) = spec_children(models, refs, all, graph_insert(g, key, inst), v.push(key));
                let (r2, s2) = wire_extracted(g2, refs, direct, m.submodels);
                (graph_patch(g2, key, r2, s2), seq![key] + added)
            },
        }
    }
}

/// Visiting the children `refs` in order, each with the contributions of
/// `all` forwarded to its reference.
pub open spec fn spec_children(
    models: Seq<(Seq<char>, SpecModel)>,
    refs: SpecRefs,
    all: Seq<SpecResolvedContribution>,
    g: SpecGraph,
    v: Seq<SpecKey>,
) -> (SpecGraph, Seq<SpecKey>)
    decreases room(v), 1nat, refs.len(),
{
    if refs.len() == 0 {
        (g, Seq::empty())
    } else {
        let (g1, a1) = spec_children(models, refs.drop_last(), all, g, v);
        let (name, child) = refs.last();
        let (g2, a2) = spec_visit(models, child, landed_for(all, name), g1, v + a1);
        (g2, a1 + a2)
    }
}

/// Whether `key` is one of `keys`.
fn contains_key_in(keys: &Vec<InstanceKey>, key: &InstanceKey) -> (r: bool)
    ensures
        r == keys_view(keys@).contains(key.deep_view()),
{
    let mut i: usize = 0;
    while i < keys.len()
        invariant
            i <= keys@.len(),
            forall|j: int| 0 <= j < i ==> keys@[j].deep_view() != key.deep_view(),
        decreases keys@.len() - i,
    {
        if same_key(&keys[i], key) {
            assert(keys_view(keys@)[i as int] == key.deep_view());
            return true;
        }
        i = i + 1;
    }
    proof {
        if keys_view(keys@).contains(key.deep_view()) {
            let j = choose|j: int| 0 <= j < keys_view(keys@).len() && keys_view(keys@)[j] == key.deep_view();
            assert(keys@[j].deep_view() == key.deep_view());
        }
    }
    false
}

/// A copy of the references of an instance.
fn copy_refs(m: &OrderedMap<InstanceKey>) -> (r: OrderedMap<InstanceKey>)
    ensures
        r.deep_view() == m.deep_view(),
{
    let mut out: Vec<(String, InstanceKey)> = Vec::new();
    let mut i: usize = 0;
    while i < m.entries.len()
        invariant
            i <= m.entries@.len(),
            crate::ordmap::entries_view(out@) =~= m.deep_view().take(i as int),
        decreases m.entries@.len() - i,
    {
        let (k, v) = &m.entries[i];
        let ghost before = crate::ordmap::entries_view(out@);
        out.push((k.clone(), v.duplicate()));
        assert(crate::ordmap::entries_view(out@) =~= before.push(m.deep_view()[i as int]));
        assert(m.deep_view().take(i + 1) =~= m.deep_view().take(i as int).push(m.deep_view()[i as int]));
        i = i + 1;
    }
    OrderedMap { entries: out }
}

/// Re-routes each contribution through the extracted submodels `subs`.
fn rewrite_all(landed: &mut Vec<ResolvedContribution>, subs: &OrderedMap<SubmodelImport>)
    ensures
        contribution_views(final(landed)@) == contribution_views(old(landed)@).map_values(
            |c: SpecResolvedContribution| spec_rewrite(c, subs.deep_view()),
        ),
{
    let ghost start = contribution_views(landed@);
    let mut out: Vec<ResolvedContribution> = Vec::new();
    let n = landed.len();
    let mut rest: Vec<ResolvedContribution> = Vec::new();
    rest.append(landed);
    let mut i: usize = 0;
    while i < n
        invariant
            i <= n,
            n == start.len(),
            rest@.len() == n - i,
            forall|j: int| 0 <= j < rest@.len() ==> (#[trigger] rest@[j]).deep_view() == start[i + j],
            contribution_views(out@) =~= start.take(i as int).map_values(
                |c: SpecResolvedContribution| spec_rewrite(c, subs.deep_view()),
            ),
        decreases n - i,
    {
        let mut c = rest.remove(0);
        rewrite_extracted_aliases(&mut c, subs);
        let ghost before = contribution_views(out@);
        out.push(c);
        assert(contribution_views(out@) =~= before.push(c.deep_view()));
        assert(start.take(i + 1) =~= start.take(i as int).push(start[i as int]));
        i = i + 1;
    }
    assert(start.take(n as int) =~= start);
    *landed = out;
}

/// Visits the instance `key` with the contributions `landed` that reached
/// it (see [`spec_visit`]), adding what it builds to `graph` and the keys
/// it visits to `visited`; `models` are the loaded models by path.
pub fn visit(
    key: &InstanceKey,
    landed: Vec<ResolvedContribution>,
    graph: &mut LiveGraph,
    visited: &mut Vec<InstanceKey>,
    models: &OrderedMap<Model>,
)
    ensures
        ({
            let r = spec_visit(
                models.deep_view(),
                key.deep_view(),
                contribution_views(landed@),
                live_view(old(graph)),
                keys_view(old(visited)@),
            );
            &&& live_view(final(graph)) == r.0
            &&& keys_view(final(visited)@) == keys_view(old(visited)@) + r.1
        }),
    decreases usize::MAX - old(visited)@.len(),
{
    let ghost mv = models.deep_view();
    let ghost kv = key.deep_view();
    let ghost g0 = live_view(graph);
    let ghost v0 = keys_view(visited@);
    let ghost lv = contribution_views(landed@);
    proof {
        assert(visited.len() == visited@.len());
    }
    if contains_key_in(visited, key) {
        assert(keys_view(visited@) =~= v0 + Seq::<SpecKey>::empty());
        return;
    }
    visited.push(key.duplicate());
    proof {
        assert(visited.len() == visited@.len());
        assert(keys_view(visited@) =~= v0.push(kv));
    }
    let model = match models.get(&key.model_path.path) {
        Some(m) => m,
        None => {
            assert(v0.push(kv) =~= v0 + seq![kv]);
            return;
        },
    };
    let ghost m = model.deep_view();
    let mut all_landed = landed;
    let mut own = contributions_of_applications(&model.applied_designs, key, models);
    let ghost own_v = contribution_views(own@);
    all_landed.append(&mut own);
    assert(contribution_views(all_landed@) =~= lv + own_v);
    rewrite_all(&mut all_landed, &model.submodels);
    let ghost all = contribution_views(all_landed@);
    assert(all =~= (lv + spec_applications(mv, m.applied_designs, kv)).map_values(
        |c: SpecResolvedContribution| spec_rewrite(c, m.submodels),
    ));
    let parameters = compose_parameters(&model.parameters, &all_landed);
    let overlays = compose_overlays(&all_landed);
    let replacements = collect_replacements(&all_landed);
    let (mut references, mut submodels) = instance_references(key, model, &replacements);
    let tests = copy_tests(&model.tests);
    let inst = InstancedModel {
        model_path: key.model_path.duplicate(),
        parameters,
        references: copy_refs(&references),
        submodels: copy_names(&submodels),
        tests,
        overlays,
    };
    assert(inst.submodels.deep_view() =~= submodels.deep_view());
    insert_instance(graph, key.duplicate(), inst);
    let ghost refs_v = references.deep_view();
    assert(keys_view(visited@).len() == visited@.len());
    let ghost g1 = live_view(graph);
    let ghost v1 = keys_view(visited@);
    let mut j: usize = 0;
    assert(refs_v.take(0) =~= Seq::<(Seq<char>, SpecKey)>::empty());
    assert(v1 =~= v1 + Seq::<SpecKey>::empty());
    while j < references.entries.len()
        invariant
            j <= references.entries@.len(),
            refs_v == references.deep_view(),
            refs_v == crate::ordmap::entries_view(references.entries@),
            all == contribution_views(all_landed@),
            mv == models.deep_view(),
            v1 == v0.push(kv),
            v0 == keys_view(old(visited)@),
            visited@.len() >= old(visited)@.len() + 1,
            ({
                let r = spec_children(mv, refs_v.take(j as int), all, g1, v1);
                &&& live_view(graph) == r.0
                &&& keys_view(visited@) == v1 + r.1
            }),
        decreases references.entries@.len() - j,
    {
        let (name, child) = &references.entries[j];
        let ghost before = keys_view(visited@);
        let ghost acc = spec_children(mv, refs_v.take(j as int), all, g1, v1);
        proof {
            assert(refs_v.take(j + 1).drop_last() =~= refs_v.take(j as int));
            assert(refs_v.take(j + 1).last() == (name@, child.deep_view()));
            assert(visited.len() == visited@.len());
            assert(visited@.len() <= usize::MAX);
        }
        let child_landed = landed_for_child(&all_landed, name);
        visit(child, child_landed, graph, visited, models);
        proof {
            assert(keys_view(visited@) =~= v1 + (acc.1 + spec_visit(
                mv,
                child.deep_view(),
                landed_for(all, name@),
                acc.0,
                v1 + acc.1,
            ).1));
        }
        j = j + 1;
    }
    assert(refs_v.take(references.entries@.len() as int) =~= refs_v);
    wire_extracted_submodels(graph, &model.submodels, &mut references, &mut submodels);
    patch_instance(graph, key, references, submodels);
    proof {
        let r = spec_children(mv, refs_v, all, g1, v1);
        assert(keys_view(visited@) =~= v0 + (seq![kv] + r.1));
    }
}

/// The instance graph built from the root model at `root`, with the
/// designs `runtime_designs` applied at the root: what visiting the root
/// instance gives, starting from an empty graph.
pub open spec fn spec_instance_graph(
    models: Seq<(Seq<char>, SpecModel)>,
    runtime_designs: Seq<SpecApplication>,
    root: Seq<char>,
) -> SpecGraph {
    let root_key = (root, Seq::<Seq<char>>::empty());
    spec_visit(models, root_key, spec_applications(models, runtime_designs, root_key), Seq::empty(), Seq::empty()).0
}

/// Builds the instance graph of the root model at `root` (see
/// [`spec_instance_graph`]). Instances reached through several references
/// are built once, by their first visitor.
pub fn build_instance_graph(root: &ModelPath, runtime_designs: &Vec<DesignApplication>, models: &OrderedMap<Model>) -> (r:
    LiveGraph)
    ensures
        live_view(&r) == spec_instance_graph(
            models.deep_view(),
            runtime_designs@.map_values(|a: DesignApplication| a.deep_view()),
            root.deep_view(),
        ),
{
    let root_key = InstanceKey { model_path: root.duplicate(), instance_path: Vec::new() };
    assert(root_key.deep_view() =~= (root.deep_view(), Seq::<Seq<char>>::empty()));
    let landings = contributions_of_applications(runtime_designs, &root_key, models);
    let mut graph = LiveGraph { instances: Vec::new() };
    let mut visited: Vec<InstanceKey> = Vec::new();
    assert(live_view(&graph) =~= Seq::<(SpecKey, SpecInstance)>::empty());
    assert(keys_view(visited@) =~= Seq::<SpecKey>::empty());
    visit(&root_key, landings, &mut graph, &mut visited, models);
    graph
}


/// Each instance is visited once: visiting adds only keys not visited
/// before, each once, so instances reached through several references are
/// built by their first visitor only.
pub proof fn law_each_instance_visited_once(
    models: Seq<(Seq<char>, SpecModel)>,
    key: SpecKey,
    landed: Seq<SpecResolvedContribution>,
    g: SpecGraph,
    v: Seq<SpecKey>,
)
    requires
        v.no_duplicates(),
    ensures
        (v + spec_visit(models, key, landed, g, v).1).no_duplicates(),
    decreases room(v), 0nat, 0nat,
{
    if v.len() >= usize::MAX || v.contains(key) {
        assert(v + spec_visit(models, key, landed, g, v).1 =~= v);
    } else {
        match map_get(models, key.0) {
            None => {
                assert(v + spec_visit(models, key, landed, g, v).1 =~= v.push(key));
            },
            Some(m) => {
                let all = (landed + spec_applications(models, m.applied_designs, key)).map_values(
                    |c: SpecResolvedContribution| spec_rewrite(c, m.submodels),
                );
                let direct = direct_submodels(m.submodels);
                let refs = wired_references(key, m.references, spec_collect_replacements(all), direct);
                let inst = SpecInstance {
                    model_path: key.0,
                    parameters: spec_compose_parameters(shape_parameters(m.parameters), all),
                    references: refs,
                    submodels: direct,
                    tests: shape_tests(m.tests),
                    overlays: spec_compose_overlays(all),
                };
                let g1 = graph_insert(g, key, inst);
                lemma_children_visit_once(models, refs, all, g1, v.push(key));
                let a = spec_children(models, refs, all, g1, v.push(key)).1;
                assert(v + spec_visit(models, key, landed, g, v).1 =~= v.push(key) + a);
            },
        }
    }
}

proof fn lemma_children_visit_once(
    models: Seq<(Seq<char>, SpecModel)>,
    refs: SpecRefs,
    all: Seq<SpecResolvedContribution>,
    g: SpecGraph,
    v: Seq<SpecKey>,
)
    requires
        v.no_duplicates(),
    ensures
        (v + spec_children(models, refs, all, g, v).1).no_duplicates(),
    decreases room(v), 1nat, refs.len(),
{
    if refs.len() == 0 {
        assert(v + spec_children(models, refs, all, g, v).1 =~= v);
    } else {
        lemma_children_visit_once(models, refs.drop_last(), all, g, v);
        let (g1, a1) = spec_children(models, refs.drop_last(), all, g, v);
        let (name, child) = refs.last();
        law_each_instance_visited_once(models, child, landed_for(all, name), g1, v + a1);
        let a2 = spec_visit(models, child, landed_for(all, name), g1, v + a1).1;
        assert(v + spec_children(models, refs, all, g, v).1 =~= (v + a1) + a2);
    }
}


/// The binding an override `o` gives when read in the scope `anchor`.
pub open spec fn binding_of(o: OverlayShape, anchor: SpecKey) -> BindingShape {
    BindingShape { value: o.value, design_span: o.design_span, original_model_span: o.original_model_span, anchor_key: anchor }
}

proof fn lemma_bind_all_get(
    out: Seq<(Seq<char>, BindingShape)>,
    entries: Seq<(Seq<char>, OverlayShape)>,
    anchor: SpecKey,
    name: Seq<char>,
)
    ensures
        (forall|b: int| 0 <= b < entries.len() ==> (#[trigger] entries[b]).0 != name) ==> map_get(
            bind_all(out, entries, anchor),
            name,
        ) == map_get(out, name),
        forall|a: int|
            0 <= a < entries.len() && (#[trigger] entries[a]).0 == name && (forall|b: int|
                a < b < entries.len() ==> (#[trigger] entries[b]).0 != name) ==> map_get(bind_all(out, entries, anchor), name)
                == Some(binding_of(entries[a].1, anchor)),
    decreases entries.len(),
{
    if entries.len() > 0 {
        let rest = entries.drop_last();
        lemma_bind_all_get(out, rest, anchor, name);
        let before = bind_all(out, rest, anchor);
        let (k, o) = entries.last();
        crate::ordmap::lemma_insert_get(before, k, binding_of(o, anchor));
        assert(bind_all(out, entries, anchor) == map_insert(before, k, binding_of(o, anchor)));
        if forall|b: int| 0 <= b < entries.len() ==> (#[trigger] entries[b]).0 != name {
            assert(entries[entries.len() - 1].0 != name);
            assert forall|b: int| 0 <= b < rest.len() implies (#[trigger] rest[b]).0 != name by {
                assert(rest[b] == entries[b]);
            }
        }
        assert forall|a: int|
            0 <= a < entries.len() && (#[trigger] entries[a]).0 == name && (forall|b: int|
                a < b < entries.len() ==> (#[trigger] entries[b]).0 != name) implies map_get(
            bind_all(out, entries, anchor),
            name,
        ) == Some(binding_of(entries[a].1, anchor)) by {
            if a == entries.len() - 1 {
            } else {
                assert(entries[entries.len() - 1].0 != name);
                assert(rest[a] == entries[a]);
                assert forall|b: int| a < b < rest.len() implies (#[trigger] rest[b]).0 != name by {
                    assert(rest[b] == entries[b]);
                }
            }
        }
    }
}

/// Later landings win: after composing the overrides of the contributions
/// `cs` landed on an instance, the binding of a parameter is the override
/// of the last contribution that overrides it (its last entry for that
/// name), read in that contribution's scope; a parameter that no
/// contribution overrides has no binding.
pub proof fn law_later_landings_win(cs: Seq<SpecResolvedContribution>, name: Seq<char>, j: int, a: int)
    ensures
        (forall|k: int, b: int|
            0 <= k < cs.len() && 0 <= b < cs[k].overrides.len() ==> (#[trigger] cs[k].overrides[b]).0 != name)
            ==> map_get(spec_compose_overlays(cs), name) is None,
        ({
            &&& 0 <= j < cs.len()
            &&& 0 <= a < cs[j].overrides.len()
            &&& cs[j].overrides[a].0 == name
            &&& forall|b: int| a < b < cs[j].overrides.len() ==> (#[trigger] cs[j].overrides[b]).0 != name
            &&& forall|k: int, b: int|
                j < k < cs.len() && 0 <= b < cs[k].overrides.len() ==> (#[trigger] cs[k].overrides[b]).0 != name
        }) ==> map_get(spec_compose_overlays(cs), name) == Some(binding_of(cs[j].overrides[a].1, cs[j].anchor_key)),
    decreases cs.len(),
{
    if cs.len() == 0 {
        assert(map_get(Seq::<(Seq<char>, BindingShape)>::empty(), name) is None);
    } else {
        let rest = cs.drop_last();
        let last = cs.last();
        law_later_landings_win(rest, name, j, a);
        lemma_bind_all_get(spec_compose_overlays(rest), last.overrides, last.anchor_key, name);
        if forall|k: int, b: int|
            0 <= k < cs.len() && 0 <= b < cs[k].overrides.len() ==> (#[trigger] cs[k].overrides[b]).0 != name {
            assert forall|b: int| 0 <= b < last.overrides.len() implies (#[trigger] last.overrides[b]).0 != name by {
                assert(cs[cs.len() - 1].overrides[b] == last.overrides[b]);
            }
            assert forall|k: int, b: int|
                0 <= k < rest.len() && 0 <= b < rest[k].overrides.len() implies (#[trigger] rest[k].overrides[b]).0
                != name by {
                assert(rest[k] == cs[k]);
            }
        }
        if 0 <= j < cs.len() && 0 <= a < cs[j].overrides.len() && cs[j].overrides[a].0 == name && (forall|b: int|
            a < b < cs[j].overrides.len() ==> (#[trigger] cs[j].overrides[b]).0 != name) && (forall|k: int, b: int|
            j < k < cs.len() && 0 <= b < cs[k].overrides.len() ==> (#[trigger] cs[k].overrides[b]).0 != name) {
            if j == cs.len() - 1 {
                assert(last.overrides[a].0 == name);
            } else {
                assert(rest[j] == cs[j]);
                assert forall|b: int| 0 <= b < last.overrides.len() implies (#[trigger] last.overrides[b]).0 != name by {
                    assert(cs[cs.len() - 1].overrides[b] == last.overrides[b]);
                }
                assert forall|k: int, b: int|
                    j < k < rest.len() && 0 <= b < rest[k].overrides.len() implies (#[trigger] rest[k].overrides[b]).0
                    != name by {
                    assert(rest[k] == cs[k]);
                }
            }
        }
    }
}


/// Every instance of `g` whose model is loaded is an instance of that
/// model file and carries exactly that model's tests.
pub open spec fn carries_model_tests(models: Seq<(Seq<char>, SpecModel)>, g: SpecGraph) -> bool {
    forall|i: int|
        0 <= i < g.len() ==> match map_get(models, (#[trigger] g[i]).0.0) {
            Some(m) => g[i].1.tests == shape_tests(m.tests) && g[i].1.model_path == g[i].0.0,
            None => true,
        }
}

proof fn lemma_insert_carries(models: Seq<(Seq<char>, SpecModel)>, g: SpecGraph, k: SpecKey, inst: SpecInstance)
    requires
        carries_model_tests(models, g),
        match map_get(models, k.0) {
            Some(m) => inst.tests == shape_tests(m.tests) && inst.model_path == k.0,
            None => true,
        },
    ensures
        carries_model_tests(models, graph_insert(g, k, inst)),
{
    lemma_key_pos_shape(g, k, 0);
    let g2 = graph_insert(g, k, inst);
    assert forall|i: int| 0 <= i < g2.len() implies match map_get(models, (#[trigger] g2[i]).0.0) {
        Some(m) => g2[i].1.tests == shape_tests(m.tests) && g2[i].1.model_path == g2[i].0.0,
        None => true,
    } by {
        if i < g.len() && g2[i] == g[i] {
            assert(g[i] == g2[i]);
        }
    }
}

proof fn lemma_patch_carries(models: Seq<(Seq<char>, SpecModel)>, g: SpecGraph, k: SpecKey, r: SpecRefs, s: Seq<Seq<char>>)
    requires
        carries_model_tests(models, g),
    ensures
        carries_model_tests(models, graph_patch(g, k, r, s)),
{
    lemma_key_pos_shape(g, k, 0);
    let g2 = graph_patch(g, k, r, s);
    assert forall|i: int| 0 <= i < g2.len() implies match map_get(models, (#[trigger] g2[i]).0.0) {
        Some(m) => g2[i].1.tests == shape_tests(m.tests) && g2[i].1.model_path == g2[i].0.0,
        None => true,
    } by {
        assert(g[i].0 == g2[i].0);
        assert(g[i].1.tests == g2[i].1.tests);
        assert(g[i].1.model_path == g2[i].1.model_path);
    }
}

/// Each instance carries exactly its model's tests: visiting keeps every
/// instance of a loaded model an instance of that model file with that
/// model's tests, including the instances it adds.
pub proof fn law_instances_carry_model_tests(
    models: Seq<(Seq<char>, SpecModel)>,
    key: SpecKey,
    landed: Seq<SpecResolvedContribution>,
    g: SpecGraph,
    v: Seq<SpecKey>,
)
    requires
        carries_model_tests(models, g),
    ensures
        carries_model_tests(models, spec_visit(models, key, landed, g, v).0),
    decreases room(v), 0nat, 0nat,
{
    if v.len() >= usize::MAX || v.contains(key) {
    } else {
        match map_get(models, key.0) {
            None => {},
            Some(m) => {
                let all = (landed + spec_applications(models, m.applied_designs, key)).map_values(
                    |c: SpecResolvedContribution| spec_rewrite(c, m.submodels),
                );
                let direct = direct_submodels(m.submodels);
                let refs = wired_references(key, m.references, spec_collect_replacements(all), direct);
                let inst = SpecInstance {
                    model_path: key.0,
                    parameters: spec_compose_parameters(shape_parameters(m.parameters), all),
                    references: refs,
                    submodels: direct,
                    tests: shape_tests(m.tests),
                    overlays: spec_compose_overlays(all),
                };
                let g1 = graph_insert(g, key, inst);
                lemma_insert_carries(models, g, key, inst);
                lemma_children_carry(models, refs, all, g1, v.push(key));
                let (g2, added) = spec_children(models, refs, all, g1, v.push(key));
                let (r2, s2) = wire_extracted(g2, refs, direct, m.submodels);
                lemma_patch_carries(models, g2, key, r2, s2);
            },
        }
    }
}

proof fn lemma_children_carry(
    models: Seq<(Seq<char>, SpecModel)>,
    refs: SpecRefs,
    all: Seq<SpecResolvedContribution>,
    g: SpecGraph,
    v: Seq<SpecKey>,
)
    requires
        carries_model_tests(models, g),
    ensures
        carries_model_tests(models, spec_children(models, refs, all, g, v).0),
    decreases room(v), 1nat, refs.len(),
{
    if refs.len() > 0 {
        lemma_children_carry(models, refs.drop_last(), all, g, v);
        let (g1, a1) = spec_children(models, refs.drop_last(), all, g, v);
        let (name, child) = refs.last();
        law_instances_carry_model_tests(models, child, landed_for(all, name), g1, v + a1);
    }
}

/// The instance graph of a root model: every instance of a loaded model
/// carries exactly that model's tests, and the root instance, where the
/// root model is loaded, is in the graph.
pub proof fn law_graph_carries_model_tests(
    models: Seq<(Seq<char>, SpecModel)>,
    runtime_designs: Seq<SpecApplication>,
    root: Seq<char>,
)
    ensures
        carries_model_tests(models, spec_instance_graph(models, runtime_designs, root)),
        map_get(models, root) is Some ==> key_pos_from(
            spec_instance_graph(models, runtime_designs, root),
            (root, Seq::<Seq<char>>::empty()),
            0,
        ) >= 0,
{
    let root_key = (root, Seq::<Seq<char>>::empty());
    let landed = spec_applications(models, runtime_designs, root_key);
    law_instances_carry_model_tests(models, root_key, landed, Seq::empty(), Seq::empty());
    if map_get(models, root) is Some {
        lemma_visit_keeps_instance(models, root_key, landed, Seq::empty(), Seq::empty());
    }
}


proof fn lemma_present(g: SpecGraph, k: SpecKey, i: int, j: int)
    requires
        0 <= j <= i < g.len(),
        g[i].0 == k,
    ensures
        key_pos_from(g, k, j) >= 0,
    decreases i - j,
{
    if j < i && g[j].0 != k {
        lemma_present(g, k, i, j + 1);
    }
}

proof fn lemma_insert_keeps_present(g: SpecGraph, k2: SpecKey, inst: SpecInstance, k: SpecKey)
    requires
        key_pos_from(g, k, 0) >= 0,
    ensures
        key_pos_from(graph_insert(g, k2, inst), k, 0) >= 0,
{
    lemma_key_pos_shape(g, k, 0);
    lemma_key_pos_shape(g, k2, 0);
    let i = key_pos_from(g, k, 0);
    let g2 = graph_insert(g, k2, inst);
    assert(g2[i].0 == k);
    lemma_present(g2, k, i, 0);
}

proof fn lemma_patch_keeps_present(g: SpecGraph, k2: SpecKey, r: SpecRefs, s: Seq<Seq<char>>, k: SpecKey)
    requires
        key_pos_from(g, k, 0) >= 0,
    ensures
        key_pos_from(graph_patch(g, k2, r, s), k, 0) >= 0,
{
    lemma_key_pos_shape(g, k, 0);
    lemma_key_pos_shape(g, k2, 0);
    let i = key_pos_from(g, k, 0);
    let g2 = graph_patch(g, k2, r, s);
    assert(g2[i].0 == k);
    lemma_present(g2, k, i, 0);
}

proof fn lemma_visit_keeps_present(
    models: Seq<(Seq<char>, SpecModel)>,
    key: SpecKey,
    landed: Seq<SpecResolvedContribution>,
    g: SpecGraph,
    v: Seq<SpecKey>,
    k: SpecKey,
)
    requires
        key_pos_from(g, k, 0) >= 0,
    ensures
        key_pos_from(spec_visit(models, key, landed, g, v).0, k, 0) >= 0,
    decreases room(v), 0nat, 0nat,
{
    if v.len() >= usize::MAX || v.contains(key) {
    } else {
        match map_get(models, key.0) {
            None => {},
            Some(m) => {
                let all = (landed + spec_applications(models, m.applied_designs, key)).map_values(
                    |c: SpecResolvedContribution| spec_rewrite(c, m.submodels),
                );
                let direct = direct_submodels(m.submodels);
                let refs = wired_references(key, m.references, spec_collect_replacements(all), direct);
                let inst = SpecInstance {
                    model_path: key.0,
                    parameters: spec_compose_parameters(shape_parameters(m.parameters), all),
                    references: refs,
                    submodels: direct,
                    tests: shape_tests(m.tests),
                    overlays: spec_compose_overlays(all),
                };
                let g1 = graph_insert(g, key, inst);
                lemma_insert_keeps_present(g, key, inst, k);
                lemma_children_keep_present(models, refs, all, g1, v.push(key), k);
                let (g2, added) = spec_children(models, refs, all, g1, v.push(key));
                let (r2, s2) = wire_extracted(g2, refs, direct, m.submodels);
                lemma_patch_keeps_present(g2, key, r2, s2, k);
            },
        }
    }
}

proof fn lemma_children_keep_present(
    models: Seq<(Seq<char>, SpecModel)>,
    refs: SpecRefs,
    all: Seq<SpecResolvedContribution>,
    g: SpecGraph,
    v: Seq<SpecKey>,
    k: SpecKey,
)
    requires
        key_pos_from(g, k, 0) >= 0,
    ensures
        key_pos_from(spec_children(models, refs, all, g, v).0, k, 0) >= 0,
    decreases room(v), 1nat, refs.len(),
{
    if refs.len() > 0 {
        lemma_children_keep_present(models, refs.drop_last(), all, g, v, k);
        let (g1, a1) = spec_children(models, refs.drop_last(), all, g, v);
        let (name, child) = refs.last();
        lemma_visit_keeps_present(models, child, landed_for(all, name), g1, v + a1, k);
    }
}

proof fn lemma_visit_keeps_instance(
    models: Seq<(Seq<char>, SpecModel)>,
    key: SpecKey,
    landed: Seq<SpecResolvedContribution>,
    g: SpecGraph,
    v: Seq<SpecKey>,
)
    requires
        !v.contains(key),
        v.len() < usize::MAX,
        map_get(models, key.0) is Some,
    ensures
        key_pos_from(spec_visit(models, key, landed, g, v).0, key, 0) >= 0,
{
    let m = map_get(models, key.0).unwrap();
    let all = (landed + spec_applications(models, m.applied_designs, key)).map_values(
        |c: SpecResolvedContribution| spec_rewrite(c, m.submodels),
    );
    let direct = direct_submodels(m.submodels);
    let refs = wired_references(key, m.references, spec_collect_replacements(all), direct);
    let inst = SpecInstance {
        model_path: key.0,
        parameters: spec_compose_parameters(shape_parameters(m.parameters), all),
        references: refs,
        submodels: direct,
        tests: shape_tests(m.tests),
        overlays: spec_compose_overlays(all),
    };
    let g1 = graph_insert(g, key, inst);
    lemma_key_pos_shape(g, key, 0);
    if key_pos_from(g, key, 0) >= 0 {
        lemma_present(g1, key, key_pos_from(g, key, 0), 0);
    } else {
        lemma_present(g1, key, g.len() as int, 0);
    }
    lemma_children_keep_present(models, refs, all, g1, v.push(key), key);
    let (g2, added) = spec_children(models, refs, all, g1, v.push(key));
    let (r2, s2) = wire_extracted(g2, refs, direct, m.submodels);
    lemma_patch_keeps_present(g2, key, r2, s2, key);
}


/// Later additions win: after composing, a parameter that some landed
/// contribution adds is the addition of the last contribution that adds it;
/// any other parameter is the model's own, if it has one.
pub proof fn law_later_additions_win(
    own: Seq<(Seq<char>, ParameterShape)>,
    cs: Seq<SpecResolvedContribution>,
    name: Seq<char>,
    j: int,
)
    requires
        forall|k: int| 0 <= k < cs.len() ==> crate::contribution::distinct_keys(#[trigger] cs[k].additions),
    ensures
        (forall|k: int| 0 <= k < cs.len() ==> key_index(#[trigger] cs[k].additions, name) < 0) ==> map_get(
            spec_compose_parameters(own, cs),
            name,
        ) == map_get(own, name),
        (0 <= j < cs.len() && key_index(cs[j].additions, name) >= 0 && forall|k: int|
            j < k < cs.len() ==> key_index(#[trigger] cs[k].additions, name) < 0) ==> map_get(
            spec_compose_parameters(own, cs),
            name,
        ) == map_get(cs[j].additions, name),
    decreases cs.len(),
{
    if cs.len() > 0 {
        let rest = cs.drop_last();
        assert forall|k: int| 0 <= k < rest.len() implies crate::contribution::distinct_keys(#[trigger] rest[k].additions) by {
            assert(rest[k] == cs[k]);
        }
        law_later_additions_win(own, rest, name, j);
        assert(crate::contribution::distinct_keys(cs[cs.len() - 1].additions));
        crate::contribution::lemma_insert_all_get(spec_compose_parameters(own, rest), cs.last().additions, name);
        if forall|k: int| 0 <= k < cs.len() ==> key_index(#[trigger] cs[k].additions, name) < 0 {
            assert(key_index(cs[cs.len() - 1].additions, name) < 0);
            assert forall|k: int| 0 <= k < rest.len() implies key_index(#[trigger] rest[k].additions, name) < 0 by {
                assert(rest[k] == cs[k]);
            }
        }
        if 0 <= j < cs.len() - 1 && key_index(cs[j].additions, name) >= 0 && forall|k: int|
            j < k < cs.len() ==> key_index(#[trigger] cs[k].additions, name) < 0 {
            assert(key_index(cs[cs.len() - 1].additions, name) < 0);
            assert(rest[j] == cs[j]);
            assert forall|k: int| j < k < rest.len() implies key_index(#[trigger] rest[k].additions, name) < 0 by {
                assert(rest[k] == cs[k]);
            }
        }
    }
}

proof fn lemma_insert_all_same(out: Seq<(Seq<char>, Seq<char>)>, entries: Seq<(Seq<char>, Seq<char>)>)
    ensures
        insert_all(out, entries) == crate::contribution::insert_all(out, entries),
    decreases entries.len(),
{
    if entries.len() > 0 {
        lemma_insert_all_same(out, entries.drop_last());
    }
}

/// Later replacements win: the path a reference is replaced with is the one
/// the last landed contribution that replaces it gives; a reference no
/// contribution replaces has none.
pub proof fn law_later_replacements_win(cs: Seq<SpecResolvedContribution>, name: Seq<char>, j: int)
    requires
        forall|k: int| 0 <= k < cs.len() ==> crate::contribution::distinct_keys(#[trigger] cs[k].replacements),
    ensures
        (forall|k: int| 0 <= k < cs.len() ==> key_index(#[trigger] cs[k].replacements, name) < 0) ==> map_get(
            spec_collect_replacements(cs),
            name,
        ) is None,
        (0 <= j < cs.len() && key_index(cs[j].replacements, name) >= 0 && forall|k: int|
            j < k < cs.len() ==> key_index(#[trigger] cs[k].replacements, name) < 0) ==> map_get(
            spec_collect_replacements(cs),
            name,
        ) == map_get(cs[j].replacements, name),
    decreases cs.len(),
{
    if cs.len() == 0 {
        assert(map_get(Seq::<(Seq<char>, Seq<char>)>::empty(), name) is None);
    } else {
        let rest = cs.drop_last();
        assert forall|k: int| 0 <= k < rest.len() implies crate::contribution::distinct_keys(#[trigger] rest[k].replacements) by {
            assert(rest[k] == cs[k]);
        }
        law_later_replacements_win(rest, name, j);
        assert(crate::contribution::distinct_keys(cs[cs.len() - 1].replacements));
        lemma_insert_all_same(spec_collect_replacements(rest), cs.last().replacements);
        crate::contribution::lemma_insert_all_get(spec_collect_replacements(rest), cs.last().replacements, name);
        if forall|k: int| 0 <= k < cs.len() ==> key_index(#[trigger] cs[k].replacements, name) < 0 {
            assert(key_index(cs[cs.len() - 1].replacements, name) < 0);
            assert forall|k: int| 0 <= k < rest.len() implies key_index(#[trigger] rest[k].replacements, name) < 0 by {
                assert(rest[k] == cs[k]);
            }
        }
        if 0 <= j < cs.len() - 1 && key_index(cs[j].replacements, name) >= 0 && forall|k: int|
            j < k < cs.len() ==> key_index(#[trigger] cs[k].replacements, name) < 0 {
            assert(key_index(cs[cs.len() - 1].replacements, name) < 0);
            assert(rest[j] == cs[j]);
            assert forall|k: int| j < k < rest.len() implies key_index(#[trigger] rest[k].replacements, name) < 0 by {
                assert(rest[k] == cs[k]);
            }
        }
    }
}

} // verus!
