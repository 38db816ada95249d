//! Walking the declarations of a model: splitting them by kind for
//! resolution, and collecting the design-related ones.
use vstd::prelude::*;

use crate::paths::{ModelPath, relative_path, sibling_path};
use crate::ast::{
    Decl, DesignParameterNode, DesignTargetNode, IdentifierNode, ImportNode, Model, ParameterNode,
    Section, SpecDecl, SpecDesignParameter, SpecDesignTarget, SpecNode, SpecUseDesign, SpecUseModel,
    TestNode, UseDesignNode, UseModelNode,
};

verus! {

/// The label of the section a declaration is in (`None` at top level).
pub type SpecLabel = Option<SpecNode<Seq<char>>>;

/// The declarations, each with the given label.
pub open spec fn labelled(decls: Seq<SpecNode<SpecDecl>>, label: SpecLabel) -> Seq<(SpecDecl, SpecLabel)> {
    Seq::new(decls.len(), |i: int| (decls[i].value, label))
}

/// The declarations of the sections, in order, each with its section's label.
pub open spec fn section_decls(secs: Seq<Section>) -> Seq<(SpecDecl, SpecLabel)>
    decreases secs.len(),
{
    if secs.len() == 0 {
        Seq::empty()
    } else {
        section_decls(secs.drop_last()) + labelled(
            secs.last().decls.deep_view(),
            Some(secs.last().label.deep_view()),
        )
    }
}

/// All declarations of a model in source order: the top-level ones, then
/// those of each section.
pub open spec fn model_decls(m: &Model) -> Seq<(SpecDecl, SpecLabel)> {
    labelled(m.decls.deep_view(), None) + section_decls(m.sections@)
}

/// The results of `g` on each element, concatenated in order.
pub open spec fn gather<A, B>(s: Seq<A>, g: spec_fn(A) -> Seq<B>) -> Seq<B>
    decreases s.len(),
{
    if s.len() == 0 {
        Seq::empty()
    } else {
        gather(s.drop_last(), g) + g(s.last())
    }
}

/// The imports among the declarations.
pub open spec fn imports_in(s: Seq<(SpecDecl, SpecLabel)>) -> Seq<SpecNode<SpecNode<Seq<char>>>> {
    gather(
        s,
        |x: (SpecDecl, SpecLabel)|
            match x.0 {
                SpecDecl::Import(n) => seq![n],
                _ => Seq::empty(),
            },
    )
}

/// The model usages among the declarations.
pub open spec fn use_models_in(s: Seq<(SpecDecl, SpecLabel)>) -> Seq<SpecNode<SpecUseModel>> {
    gather(
        s,
        |x: (SpecDecl, SpecLabel)|
            match x.0 {
                SpecDecl::UseModel(n) => seq![n],
                _ => Seq::empty(),
            },
    )
}

/// The parameters among the declarations, with their section labels.
pub open spec fn parameters_in(s: Seq<(SpecDecl, SpecLabel)>) -> Seq<
    (SpecNode<(SpecNode<Seq<char>>, SpecNode<Seq<char>>)>, SpecLabel),
> {
    gather(
        s,
        |x: (SpecDecl, SpecLabel)|
            match x.0 {
                SpecDecl::Parameter(n) => seq![(n, x.1)],
                _ => Seq::empty(),
            },
    )
}

/// The tests among the declarations, with their section labels.
pub open spec fn tests_in(s: Seq<(SpecDecl, SpecLabel)>) -> Seq<(SpecNode<Seq<char>>, SpecLabel)> {
    gather(
        s,
        |x: (SpecDecl, SpecLabel)|
            match x.0 {
                SpecDecl::Test(n) => seq![(n, x.1)],
                _ => Seq::empty(),
            },
    )
}

/// The view of a design-related declaration.
pub enum SpecSurfaceItem {
    Target(SpecNode<SpecDesignTarget>),
    Apply(SpecNode<SpecUseDesign>),
    Parameter(SpecNode<SpecDesignParameter>),
}

/// The design-related declarations among the declarations.
pub open spec fn surface_in(s: Seq<(SpecDecl, SpecLabel)>) -> Seq<SpecSurfaceItem> {
    gather(
        s,
        |x: (SpecDecl, SpecLabel)|
            match x.0 {
                SpecDecl::DesignTarget(n) => seq![SpecSurfaceItem::Target(n)],
                SpecDecl::UseDesign(n) => seq![SpecSurfaceItem::Apply(n)],
                SpecDecl::DesignParameter(n) => seq![SpecSurfaceItem::Parameter(n)],
                _ => Seq::empty(),
            },
    )
}

/// The design applications among the declarations.
pub open spec fn applies_in(s: Seq<(SpecDecl, SpecLabel)>) -> Seq<SpecNode<SpecUseDesign>> {
    gather(
        s,
        |x: (SpecDecl, SpecLabel)|
            match x.0 {
                SpecDecl::UseDesign(n) => seq![n],
                _ => Seq::empty(),
            },
    )
}

/// A parameter declaration with the label of its section.
#[derive(Debug, Clone, Copy)]
pub struct ParameterWithSection<'a> {
    pub parameter: &'a ParameterNode,
    pub section_label: Option<&'a IdentifierNode>,
}

/// A test declaration with the label of its section.
#[derive(Debug, Clone, Copy)]
pub struct TestWithSection<'a> {
    pub test: &'a TestNode,
    pub section_label: Option<&'a IdentifierNode>,
}

/// A design-related declaration of a model.
#[derive(Debug, Clone, Copy)]
pub enum DesignSurfaceItem<'a> {
    /// `design <model>`.
    Target(&'a DesignTargetNode),
    /// `use design <file> [for <instance>]`.
    Apply(&'a UseDesignNode),
    /// A parameter assignment of a design file.
    Parameter(&'a DesignParameterNode),
}

impl<'a> DeepView for DesignSurfaceItem<'a> {
    type V = SpecSurfaceItem;

    open spec fn deep_view(&self) -> SpecSurfaceItem {
        match self {
            DesignSurfaceItem::Target(n) => SpecSurfaceItem::Target(n.deep_view()),
            DesignSurfaceItem::Apply(n) => SpecSurfaceItem::Apply(n.deep_view()),
            DesignSurfaceItem::Parameter(n) => SpecSurfaceItem::Parameter(n.deep_view()),
        }
    }
}

/// The views of the referenced values.
pub open spec fn ref_views<T: DeepView>(s: Seq<&T>) -> Seq<T::V> {
    Seq::new(s.len(), |i: int| s[i].deep_view())
}

/// The view of an optional section label.
pub open spec fn label_view(l: Option<&IdentifierNode>) -> SpecLabel {
    match l {
        Some(n) => Some(n.deep_view()),
        None => None,
    }
}

/// The views of parameters with their labels.
pub open spec fn parameter_views(s: Seq<ParameterWithSection>) -> Seq<
    (SpecNode<(SpecNode<Seq<char>>, SpecNode<Seq<char>>)>, SpecLabel),
> {
    Seq::new(s.len(), |i: int| (s[i].parameter.deep_view(), label_view(s[i].section_label)))
}

/// The views of tests with their labels.
pub open spec fn test_views(s: Seq<TestWithSection>) -> Seq<(SpecNode<Seq<char>>, SpecLabel)> {
    Seq::new(s.len(), |i: int| (s[i].test.deep_view(), label_view(s[i].section_label)))
}

/// Splits one group of declarations (the top level, or one section with its
/// label), appending each kind to its list.
fn split_group<'a>(
    decls: &'a Vec<crate::ast::DeclNode>,
    label: Option<&'a IdentifierNode>,
    imports: &mut Vec<&'a ImportNode>,
    use_models: &mut Vec<&'a UseModelNode>,
    parameters: &mut Vec<ParameterWithSection<'a>>,
    tests: &mut Vec<TestWithSection<'a>>,
    Ghost(done): Ghost<Seq<(SpecDecl, SpecLabel)>>,
)
    requires
        ref_views(old(imports)@) == imports_in(done),
        ref_views(old(use_models)@) == use_models_in(done),
        parameter_views(old(parameters)@) == parameters_in(done),
        test_views(old(tests)@) == tests_in(done),
    ensures
        ref_views(final(imports)@) == imports_in(done + labelled(decls.deep_view(), label_view(label))),
        ref_views(final(use_models)@) == use_models_in(done + labelled(decls.deep_view(), label_view(label))),
        parameter_views(final(parameters)@) == parameters_in(done + labelled(decls.deep_view(), label_view(label))),
        test_views(final(tests)@) == tests_in(done + labelled(decls.deep_view(), label_view(label))),
{
    let ghost group = labelled(decls.deep_view(), label_view(label));
    let ghost mut cur = done;
    let mut j: usize = 0;
    while j < decls.len()
        invariant
            j <= decls@.len(),
            group == labelled(decls.deep_view(), label_view(label)),
            cur == done + group.take(j as int),
            ref_views(imports@) == imports_in(cur),
            ref_views(use_models@) == use_models_in(cur),
            parameter_views(parameters@) == parameters_in(cur),
            test_views(tests@) == tests_in(cur),
        decreases decls@.len() - j,
    {
        let d = &decls[j];
        let ghost x = (d.value.deep_view(), label_view(label));
        proof {
            assert(group[j as int] == x);
            assert(done + group.take(j + 1) =~= (done + group.take(j as int)).push(x));
            assert(cur.push(x).drop_last() =~= cur);
        }
        match &d.value {
            Decl::Import(n) => {
                imports.push(n);
            },
            Decl::UseModel(n) => {
                use_models.push(n);
            },
            Decl::Parameter(n) => {
                parameters.push(ParameterWithSection { parameter: n, section_label: label });
            },
            Decl::Test(n) => {
                tests.push(TestWithSection { test: n, section_label: label });
            },
            Decl::DesignTarget(_) | Decl::UseDesign(_) | Decl::DesignParameter(_) => {},
        }
        proof {
            cur = cur.push(x);
            assert(ref_views(imports@) =~= imports_in(cur));
            assert(ref_views(use_models@) =~= use_models_in(cur));
            assert(parameter_views(parameters@) =~= parameters_in(cur));
            assert(test_views(tests@) =~= tests_in(cur));
        }
        j = j + 1;
    }
    proof {
        assert(group.take(decls@.len() as int) =~= group);
    }
}

/// The four kinds of declarations that model resolution handles, each in
/// source order: imports, model usages, parameters and tests (the last two
/// with the label of their section). Design declarations are left out.
pub fn split_model_ast(model_ast: &Model) -> (r: (
    Vec<&ImportNode>,
    Vec<&UseModelNode>,
    Vec<ParameterWithSection<'_>>,
    Vec<TestWithSection<'_>>,
))
    ensures
        ref_views(r.0@) == imports_in(model_decls(model_ast)),
        ref_views(r.1@) == use_models_in(model_decls(model_ast)),
        parameter_views(r.2@) == parameters_in(model_decls(model_ast)),
        test_views(r.3@) == tests_in(model_decls(model_ast)),
{
    let mut imports: Vec<&ImportNode> = Vec::new();
    let mut use_models: Vec<&UseModelNode> = Vec::new();
    let mut parameters: Vec<ParameterWithSection<'_>> = Vec::new();
    let mut tests: Vec<TestWithSection<'_>> = Vec::new();
    let ghost secs = model_ast.sections@;
    let ghost top = labelled(model_ast.decls.deep_view(), None);
    proof {
        assert(ref_views(imports@) =~= imports_in(Seq::empty()));
        assert(ref_views(use_models@) =~= use_models_in(Seq::empty()));
        assert(parameter_views(parameters@) =~= parameters_in(Seq::empty()));
        assert(test_views(tests@) =~= tests_in(Seq::empty()));
        assert(Seq::<(SpecDecl, SpecLabel)>::empty() + top =~= top);
    }
    split_group(&model_ast.decls, None, &mut imports, &mut use_models, &mut parameters, &mut tests, Ghost(Seq::empty()));
    let mut k: usize = 0;
    assert(top + section_decls(secs.take(0)) =~= top);
    while k < model_ast.sections.len()
        invariant
            secs == model_ast.sections@,
            top == labelled(model_ast.decls.deep_view(), None),
            k <= secs.len(),
            ref_views(imports@) == imports_in(top + section_decls(secs.take(k as int))),
            ref_views(use_models@) == use_models_in(top + section_decls(secs.take(k as int))),
            parameter_views(parameters@) == parameters_in(top + section_decls(secs.take(k as int))),
            test_views(tests@) == tests_in(top + section_decls(secs.take(k as int))),
        decreases secs.len() - k,
    {
        let section = &model_ast.sections[k];
        let ghost done = top + section_decls(secs.take(k as int));
        split_group(
            &section.decls,
            Some(&section.label),
            &mut imports,
            &mut use_models,
            &mut parameters,
            &mut tests,
            Ghost(done),
        );
        proof {
            assert(secs.take(k + 1).drop_last() =~= secs.take(k as int));
            assert(secs.take(k + 1).last() == secs[k as int]);
            assert(done + labelled(section.decls.deep_view(), label_view(Some(&section.label)))
                =~= top + section_decls(secs.take(k + 1)));
        }
        k = k + 1;
    }
    proof {
        assert(secs.take(secs.len() as int) =~= secs);
    }
    (imports, use_models, parameters, tests)
}

/// Appends the design-related declarations of one group.
fn surface_group<'a>(
    decls: &'a Vec<crate::ast::DeclNode>,
    label: Option<&'a IdentifierNode>,
    items: &mut Vec<DesignSurfaceItem<'a>>,
    Ghost(done): Ghost<Seq<(SpecDecl, SpecLabel)>>,
)
    requires
        old(items).deep_view() == surface_in(done),
    ensures
        final(items).deep_view() == surface_in(done + labelled(decls.deep_view(), label_view(label))),
{
    let ghost group = labelled(decls.deep_view(), label_view(label));
    let ghost mut cur = done;
    let mut j: usize = 0;
    while j < decls.len()
        invariant
            j <= decls@.len(),
            group == labelled(decls.deep_view(), label_view(label)),
            cur == done + group.take(j as int),
            items.deep_view() == surface_in(cur),
        decreases decls@.len() - j,
    {
        let d = &decls[j];
        let ghost x = (d.value.deep_view(), label_view(label));
        proof {
            assert(group[j as int] == x);
            assert(done + group.take(j + 1) =~= (done + group.take(j as int)).push(x));
            assert(cur.push(x).drop_last() =~= cur);
        }
        match &d.value {
            Decl::DesignTarget(n) => {
                items.push(DesignSurfaceItem::Target(n));
            },
            Decl::UseDesign(n) => {
                items.push(DesignSurfaceItem::Apply(n));
            },
            Decl::DesignParameter(n) => {
                items.push(DesignSurfaceItem::Parameter(n));
            },
            Decl::Import(_) | Decl::UseModel(_) | Decl::Parameter(_) | Decl::Test(_) => {},
        }
        proof {
            cur = cur.push(x);
            assert(items.deep_view() =~= surface_in(cur));
        }
        j = j + 1;
    }
    proof {
        assert(group.take(decls@.len() as int) =~= group);
    }
}

/// The design-related declarations of a model (targets, design
/// applications and design parameters) in source order: top level first,
/// then each section.
pub fn collect_design_surface(model_ast: &Model) -> (r: Vec<DesignSurfaceItem<'_>>)
    ensures
        r.deep_view() == surface_in(model_decls(model_ast)),
{
    let mut items: Vec<DesignSurfaceItem<'_>> = Vec::new();
    let ghost secs = model_ast.sections@;
    let ghost top = labelled(model_ast.decls.deep_view(), None);
    proof {
        assert(items.deep_view() =~= surface_in(Seq::empty()));
        assert(Seq::<(SpecDecl, SpecLabel)>::empty() + top =~= top);
    }
    surface_group(&model_ast.decls, None, &mut items, Ghost(Seq::empty()));
    let mut k: usize = 0;
    assert(top + section_decls(secs.take(0)) =~= top);
    while k < model_ast.sections.len()
        invariant
            secs == model_ast.sections@,
            top == labelled(model_ast.decls.deep_view(), None),
            k <= secs.len(),
            items.deep_view() == surface_in(top + section_decls(secs.take(k as int))),
        decreases secs.len() - k,
    {
        let section = &model_ast.sections[k];
        let ghost done = top + section_decls(secs.take(k as int));
        surface_group(&section.decls, Some(&section.label), &mut items, Ghost(done));
        proof {
            assert(secs.take(k + 1).drop_last() =~= secs.take(k as int));
            assert(secs.take(k + 1).last() == secs[k as int]);
            assert(done + labelled(section.decls.deep_view(), label_view(Some(&section.label)))
                =~= top + section_decls(secs.take(k + 1)));
        }
        k = k + 1;
    }
    proof {
        assert(secs.take(secs.len() as int) =~= secs);
    }
    items
}

/// The applications among surface items.
pub open spec fn surface_applies(s: Seq<SpecSurfaceItem>) -> Seq<SpecNode<SpecUseDesign>> {
    gather(
        s,
        |x: SpecSurfaceItem|
            match x {
                SpecSurfaceItem::Apply(n) => seq![n],
                _ => Seq::empty(),
            },
    )
}

/// Appends a design application, and the applications nested in it, to
/// `out`. A `use design` declaration nests none.
pub fn push_apply_recursive<'a>(node: &'a UseDesignNode, out: &mut Vec<&'a UseDesignNode>)
    ensures
        final(out)@ == old(out)@.push(node),
{
    out.push(node);
}

/// Every design application of a model, in source order.
pub fn iter_apply_designs(model_ast: &Model) -> (r: Vec<&UseDesignNode>)
    ensures
        ref_views(r@) == surface_applies(surface_in(model_decls(model_ast))),
{
    let surface = collect_design_surface(model_ast);
    let ghost sv = surface.deep_view();
    let mut out: Vec<&UseDesignNode> = Vec::new();
    let mut i: usize = 0;
    assert(ref_views(out@) =~= surface_applies(sv.take(0)));
    while i < surface.len()
        invariant
            i <= surface@.len(),
            sv == surface.deep_view(),
            ref_views(out@) == surface_applies(sv.take(i as int)),
        decreases surface@.len() - i,
    {
        proof {
            assert(sv.take(i + 1).drop_last() =~= sv.take(i as int));
            assert(sv.take(i + 1).last() == surface@[i as int].deep_view());
        }
        match surface[i] {
            DesignSurfaceItem::Apply(n) => {
                push_apply_recursive(n, &mut out);
            },
            _ => {},
        }
        proof {
            assert(ref_views(out@) =~= surface_applies(sv.take(i + 1)));
        }
        i = i + 1;
    }
    proof {
        assert(sv.take(surface@.len() as int) =~= sv);
    }
    out
}

/// The design applications of a model are exactly its `use design`
/// declarations, in source order.
pub proof fn law_applies_are_use_designs(s: Seq<(SpecDecl, SpecLabel)>)
    ensures
        surface_applies(surface_in(s)) == applies_in(s),
    decreases s.len(),
{
    if s.len() > 0 {
        law_applies_are_use_designs(s.drop_last());
        let x = s.last();
        let before = surface_in(s.drop_last());
        match x.0 {
            SpecDecl::DesignTarget(n) => {
                assert(before.push(SpecSurfaceItem::Target(n)).drop_last() =~= before);
                assert(surface_in(s) =~= before.push(SpecSurfaceItem::Target(n)));
                assert(surface_applies(surface_in(s)) =~= surface_applies(before));
            },
            SpecDecl::UseDesign(n) => {
                assert(before.push(SpecSurfaceItem::Apply(n)).drop_last() =~= before);
                assert(surface_in(s) =~= before.push(SpecSurfaceItem::Apply(n)));
                assert(surface_applies(surface_in(s)) =~= surface_applies(before) + seq![n]);
            },
            SpecDecl::DesignParameter(n) => {
                assert(before.push(SpecSurfaceItem::Parameter(n)).drop_last() =~= before);
                assert(surface_in(s) =~= before.push(SpecSurfaceItem::Parameter(n)));
                assert(surface_applies(surface_in(s)) =~= surface_applies(before));
            },
            _ => {
                assert(surface_in(s) =~= before);
            },
        }
    }
}

/// Each declaration of a model is in exactly one place: among the imports,
/// the model usages, the parameters, the tests, or the design surface.
pub proof fn law_each_decl_in_one_place(s: Seq<(SpecDecl, SpecLabel)>)
    ensures
        imports_in(s).len() + use_models_in(s).len() + parameters_in(s).len() + tests_in(s).len()
            + surface_in(s).len() == s.len(),
    decreases s.len(),
{
    if s.len() > 0 {
        law_each_decl_in_one_place(s.drop_last());
    }
}

/// The first design target among the surface items, if any.
pub open spec fn first_target(s: Seq<SpecSurfaceItem>) -> Option<SpecNode<SpecDesignTarget>>
    decreases s.len(),
{
    if s.len() == 0 {
        None
    } else {
        match s[0] {
            SpecSurfaceItem::Target(n) => Some(n),
            _ => first_target(s.drop_first()),
        }
    }
}

/// The path of the model that the model at `model_path` declares as its
/// design target (`design <model>`), taken from its first such declaration.
pub fn collect_design_target_path(model_path: &ModelPath, model_ast: &Model) -> (r: Option<ModelPath>)
    ensures
        match first_target(surface_in(model_decls(model_ast))) {
            Some(t) => r matches Some(p) && p.deep_view() == sibling_path(
                model_path.deep_view(),
                relative_path(t.value.directory_path, t.value.target.value),
            ),
            None => r is None,
        },
{
    let surface = collect_design_surface(model_ast);
    let ghost sv = surface.deep_view();
    let mut i: usize = 0;
    assert(sv.skip(0) =~= sv);
    while i < surface.len()
        invariant
            i <= surface@.len(),
            sv == surface.deep_view(),
            sv == surface_in(model_decls(model_ast)),
            first_target(sv) == first_target(sv.skip(i as int)),
        decreases surface@.len() - i,
    {
        proof {
            assert(sv.skip(i as int)[0] == surface@[i as int].deep_view());
            assert(sv.skip(i as int).drop_first() =~= sv.skip(i + 1));
        }
        match surface[i] {
            DesignSurfaceItem::Target(node) => {
                let relative = node.value.get_target_relative_path();
                return Some(model_path.get_sibling_model_path(&relative));
            },
            _ => {},
        }
        i = i + 1;
    }
    proof {
        assert(sv.skip(i as int) =~= Seq::<SpecSurfaceItem>::empty());
    }
    None
}


/// The paths in order of first occurrence, each once.
pub open spec fn first_occurrences(s: Seq<Seq<char>>) -> Seq<Seq<char>>
    decreases s.len(),
{
    if s.len() == 0 {
        Seq::empty()
    } else {
        let d = first_occurrences(s.drop_last());
        if d.contains(s.last()) {
            d
        } else {
            d.push(s.last())
        }
    }
}

/// The design file each application names, next to the model at `model_path`.
pub open spec fn apply_design_paths(model_path: Seq<char>, applies: Seq<SpecNode<SpecUseDesign>>) -> Seq<Seq<char>> {
    applies.map_values(
        |a: SpecNode<SpecUseDesign>| sibling_path(model_path, relative_path(a.value.directory_path, a.value.design_file.value)),
    )
}

/// The views of a list of paths.
pub open spec fn path_views(v: Seq<ModelPath>) -> Seq<Seq<char>> {
    v.map_values(|p: ModelPath| p.deep_view())
}

fn contains_path(v: &Vec<ModelPath>, p: &ModelPath) -> (r: bool)
    ensures
        r == path_views(v@).contains(p.deep_view()),
{
    let mut i: usize = 0;
    while i < v.len()
        invariant
            i <= v@.len(),
            forall|k: int| 0 <= k < i ==> v@[k].deep_view() != p.deep_view(),
        decreases v@.len() - i,
    {
        if v[i].same_as(p) {
            assert(path_views(v@)[i as int] == p.deep_view());
            return true;
        }
        i = i + 1;
    }
    proof {
        if path_views(v@).contains(p.deep_view()) {
            let k = choose|k: int| 0 <= k < path_views(v@).len() && path_views(v@)[k] == p.deep_view();
            assert(v@[k].deep_view() == p.deep_view());
        }
    }
    false
}

/// The design files that the applications of a model name, each once, in
/// the order of their first application.
pub fn collect_apply_design_paths(model_path: &ModelPath, model_ast: &Model) -> (r: Vec<ModelPath>)
    ensures
        path_views(r@) == first_occurrences(
            apply_design_paths(model_path.deep_view(), surface_applies(surface_in(model_decls(model_ast)))),
        ),
{
    let applies = iter_apply_designs(model_ast);
    let ghost all = apply_design_paths(model_path.deep_view(), ref_views(applies@));
    let mut out: Vec<ModelPath> = Vec::new();
    let mut i: usize = 0;
    assert(all.take(0) =~= Seq::<Seq<char>>::empty());
    assert(path_views(out@) =~= Seq::<Seq<char>>::empty());
    while i < applies.len()
        invariant
            i <= applies@.len(),
            all == apply_design_paths(model_path.deep_view(), ref_views(applies@)),
            all.len() == applies@.len(),
            path_views(out@) == first_occurrences(all.take(i as int)),
        decreases applies@.len() - i,
    {
        let relative = applies[i].value.get_design_relative_path();
        let p = model_path.get_sibling_model_path(&relative);
        proof {
            assert(all.take(i + 1).drop_last() =~= all.take(i as int));
            assert(all.take(i + 1).last() == all[i as int]);
            assert(all[i as int] == p.deep_view());
        }
        if !contains_path(&out, &p) {
            let ghost before = out@;
            out.push(p);
            assert(path_views(out@) =~= path_views(before).push(all[i as int]));
        }
        i = i + 1;
    }
    assert(all.take(applies@.len() as int) =~= all);
    out
}

} // verus!
