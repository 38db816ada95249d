use oneil::ast::{DesignParameter, Identifier, IdentifierNode, Node, ParameterValue as AstValue, UseDesign};
use oneil::contribution::Design;
use oneil::design_resolution::{
    handle_design_parameter, record_apply, span_of_parameter_on_model, ApplyDesign, ResolvedDesign,
};
use oneil::errors::{DesignResolutionError, ParameterResolutionError};
use oneil::imports::ReferenceImport;
use oneil::ir::{Dependencies, Expr, Limits, Model, Parameter, ParameterValue};
use oneil::ordmap::OrderedMap;
use oneil::paths::ModelPath;
use oneil::resolution_errors::ResolutionErrorCollection;
use oneil::resolver::ResolutionContext;
use oneil::span::Span;

fn sp(a: usize, b: usize) -> Span {
    Span::new(a, b)
}

fn ident(text: &str, at: usize) -> IdentifierNode {
    Node::new(Identifier::new(text.to_string()), sp(at, at + text.len()), sp(at, at + text.len()))
}

fn line(name: &str, instance: Option<&str>) -> Node<DesignParameter> {
    let value = Node::new(AstValue { text: "5".to_string() }, sp(20, 21), sp(20, 21));
    let d = match instance {
        Some(i) => DesignParameter::with_instance(ident(name, 10), ident(i, 15), value, None),
        None => DesignParameter::new(ident(name, 10), value, None),
    };
    Node::new(d, sp(10, 21), sp(10, 21))
}

fn literal() -> ParameterValue {
    ParameterValue::Simple(Expr::Literal { span: sp(20, 21) })
}

/// A context where `/m/sat` has parameter `mass` defined at 40..60, and
/// `/m/main` has a reference `sat` to it.
fn context() -> ResolutionContext {
    let mut sat = Model::new(ModelPath::new("/m/sat".to_string()));
    sat.add_parameter(
        "mass".to_string(),
        Parameter {
            name: "mass".to_string(),
            name_span: sp(40, 44),
            span: sp(40, 60),
            value: ParameterValue::Simple(Expr::Literal { span: sp(47, 48) }),
            limits: Limits::Default,
            dependencies: Dependencies::new(),
        },
    );
    let mut main = Model::new(ModelPath::new("/m/main".to_string()));
    main.add_reference(
        "sat".to_string(),
        ReferenceImport::new("sat".to_string(), sp(0, 3), ModelPath::new("/m/sat".to_string())),
    );
    let mut ctx = ResolutionContext::new();
    ctx.add_model(&ModelPath::new("/m/sat".to_string()), sat);
    ctx.add_model(&ModelPath::new("/m/main".to_string()), main);
    ctx
}

fn sinks() -> (ResolvedDesign, Vec<DesignResolutionError>, ResolutionErrorCollection<String, String>) {
    (Design::new(), Vec::new(), ResolutionErrorCollection::empty())
}

#[test]
fn design_parameter_without_target_is_an_error() {
    let ctx = context();
    let (mut d, mut de, mut errs) = sinks();
    handle_design_parameter(&line("mass", None), None, &vec![], Ok((literal(), Dependencies::new())), &mut d, &ctx, &mut de, &mut errs);
    assert_eq!(de.len(), 1);
    assert_eq!(de[0].message(), "design parameter line requires a preceding `design <model>` declaration");
    assert_eq!(de[0].span(), sp(10, 14));
    assert!(d.parameter_overrides.is_empty());
}

#[test]
fn design_parameter_value_errors_are_recorded() {
    let ctx = context();
    let target = ModelPath::new("/m/sat".to_string());
    let (mut d, mut de, mut errs) = sinks();
    let bad = vec![
        ParameterResolutionError::duplicate_parameter("mass".to_string(), sp(0, 1), sp(2, 3)),
        ParameterResolutionError::duplicate_parameter("mass".to_string(), sp(4, 5), sp(6, 7)),
    ];
    handle_design_parameter(&line("mass", None), Some(&target), &vec![], Err(bad), &mut d, &ctx, &mut de, &mut errs);
    assert!(de.is_empty());
    assert_eq!(errs.get_parameter_resolution_errors().get(&"mass".to_string()).expect("mass").len(), 2);
    assert!(d.parameter_overrides.is_empty());
}

#[test]
fn design_parameter_overrides_adds_and_scopes() {
    let ctx = context();
    let target = ModelPath::new("/m/sat".to_string());
    let (mut d, mut de, mut errs) = sinks();
    let locals = vec!["margin".to_string()];
    handle_design_parameter(&line("mass", None), Some(&target), &locals, Ok((literal(), Dependencies::new())), &mut d, &ctx, &mut de, &mut errs);
    handle_design_parameter(&line("margin", None), Some(&target), &locals, Ok((literal(), Dependencies::new())), &mut d, &ctx, &mut de, &mut errs);
    handle_design_parameter(&line("power", Some("cam")), Some(&target), &locals, Ok((literal(), Dependencies::new())), &mut d, &ctx, &mut de, &mut errs);
    handle_design_parameter(&line("size", Some("cam")), Some(&target), &locals, Ok((literal(), Dependencies::new())), &mut d, &ctx, &mut de, &mut errs);
    assert!(de.is_empty());
    assert!(errs.is_empty());
    let o = d.parameter_overrides.get(&"mass".to_string()).expect("override");
    assert_eq!(o.design_span, sp(10, 14));
    assert_eq!(o.original_model_span, sp(40, 60));
    let a = d.parameter_additions.get(&"margin".to_string()).expect("addition");
    assert_eq!(a.span, sp(10, 16));
    assert_eq!(d.scoped_overrides.len(), 1);
    assert_eq!(d.scoped_overrides[0].0, vec!["cam".to_string()]);
    assert_eq!(d.scoped_overrides[0].1.len(), 2);
    let p = d.scoped_overrides[0].1.get(&"power".to_string()).expect("scoped");
    assert_eq!(p.original_model_span, sp(10, 15));
}

#[test]
fn parameter_span_falls_back() {
    let ctx = context();
    let sat = ModelPath::new("/m/sat".to_string());
    assert_eq!(span_of_parameter_on_model(&ctx, &sat, &"mass".to_string(), sp(1, 2)), sp(40, 60));
    assert_eq!(span_of_parameter_on_model(&ctx, &sat, &"width".to_string(), sp(1, 2)), sp(1, 2));
    let gone = ModelPath::new("/m/gone".to_string());
    assert_eq!(span_of_parameter_on_model(&ctx, &gone, &"mass".to_string(), sp(1, 2)), sp(1, 2));
}

fn apply_node(file: &str, instance: Option<&str>) -> Node<UseDesign> {
    Node::new(UseDesign::new(ident(file, 11), instance.map(|i| ident(i, 20))), sp(0, 25), sp(0, 25))
}

fn design_file(ctx: &mut ResolutionContext, path: &str, target: &str, adds: bool) {
    let mut m = Model::new(ModelPath::new(path.to_string()));
    let mut d: ResolvedDesign = Design::new();
    d.target_model = Some(ModelPath::new(target.to_string()));
    if adds {
        d.parameter_additions.insert(
            "margin".to_string(),
            Parameter {
                name: "margin".to_string(),
                name_span: sp(0, 6),
                span: sp(0, 10),
                value: ParameterValue::Simple(Expr::Literal { span: sp(9, 10) }),
                limits: Limits::Default,
                dependencies: Dependencies::new(),
            },
        );
    }
    m.set_design_export(d);
    ctx.add_model(&ModelPath::new(path.to_string()), m);
}

#[test]
fn apply_records_matching_designs() {
    let mut ctx = context();
    design_file(&mut ctx, "/m/heavy", "/m/sat", true);
    let main = ModelPath::new("/m/main".to_string());
    let mut applied: Vec<ApplyDesign> = Vec::new();
    let mut augmented: OrderedMap<ModelPath> = OrderedMap::new();
    let mut errors: Vec<DesignResolutionError> = Vec::new();
    record_apply(&apply_node("heavy", Some("sat")), &vec![], &main, &main, &ctx, &mut applied, &mut augmented, &mut errors);
    assert!(errors.is_empty());
    assert_eq!(applied.len(), 1);
    assert_eq!(applied[0].design_path.as_str(), "/m/heavy");
    assert_eq!(applied[0].target, vec!["sat".to_string()]);
    assert_eq!(applied[0].span, sp(0, 25));
    assert_eq!(augmented.get(&"sat".to_string()).expect("augmented").as_str(), "/m/heavy");
    record_apply(&apply_node("heavy", None), &vec![], &main, &main, &ctx, &mut applied, &mut augmented, &mut errors);
    assert_eq!(applied.len(), 1);
}

#[test]
fn apply_with_wrong_target_or_unknown_reference_is_an_error() {
    let mut ctx = context();
    design_file(&mut ctx, "/m/rover", "/m/rover_base", false);
    let main = ModelPath::new("/m/main".to_string());
    let mut applied: Vec<ApplyDesign> = Vec::new();
    let mut augmented: OrderedMap<ModelPath> = OrderedMap::new();
    let mut errors: Vec<DesignResolutionError> = Vec::new();
    record_apply(&apply_node("rover", Some("sat")), &vec![], &main, &main, &ctx, &mut applied, &mut augmented, &mut errors);
    assert!(applied.is_empty());
    assert_eq!(errors.len(), 1);
    assert_eq!(
        errors[0].message(),
        "`apply rover to sat`: design `rover` targets `rover_base`, but `sat` resolves to `sat`. Use a design whose `design <model>` matches `sat`."
    );
    record_apply(&apply_node("rover", Some("lens")), &vec![], &main, &main, &ctx, &mut applied, &mut augmented, &mut errors);
    assert_eq!(errors.len(), 2);
    assert_eq!(errors[1].span(), sp(20, 24));
    assert!(applied.is_empty());
}

fn ast_model(decls: Vec<oneil::ast::DeclNode>) -> oneil::ast::Model {
    oneil::ast::Model { note: None, decls, sections: vec![] }
}

fn target_decl(name: &str) -> oneil::ast::DeclNode {
    let t = Node::new(oneil::ast::DesignTarget::new(ident(name, 7)), sp(0, 12), sp(0, 12));
    Node::new(oneil::ast::Decl::design_target(t), sp(0, 12), sp(0, 12))
}

fn param_decl(name: &str, instance: Option<&str>) -> oneil::ast::DeclNode {
    let l = line(name, instance);
    Node::new(oneil::ast::Decl::design_parameter(l), sp(10, 21), sp(10, 21))
}

#[test]
fn second_design_target_is_an_error() {
    let design = ast_model(vec![target_decl("sat"), target_decl("rover")]);
    let surface = oneil::surface::collect_design_surface(&design);
    let here = ModelPath::new("/m/heavy".to_string());
    let mut target: Option<ModelPath> = None;
    let mut declared = false;
    let mut d: ResolvedDesign = Design::new();
    let mut errors: Vec<DesignResolutionError> = Vec::new();
    for item in &surface {
        if let oneil::surface::DesignSurfaceItem::Target(t) = item {
            oneil::design_resolution::handle_design_target(t, &here, &mut target, &mut declared, &mut d, &mut errors);
        }
    }
    assert_eq!(target.expect("target").as_str(), "/m/sat");
    assert_eq!(d.target_model.expect("target").as_str(), "/m/sat");
    assert_eq!(errors.len(), 1);
    assert_eq!(errors[0].message(), "only one `design` declaration is allowed per file");
}

#[test]
fn design_locals_are_names_the_target_lacks() {
    let ctx = context();
    let design = ast_model(vec![
        target_decl("sat"),
        param_decl("mass", None),
        param_decl("margin", None),
        param_decl("power", Some("cam")),
        param_decl("margin", None),
    ]);
    let surface = oneil::surface::collect_design_surface(&design);
    let here = ModelPath::new("/m/heavy".to_string());
    let (target, locals) = oneil::design_resolution::scan_design_locals(&here, &surface, &ctx);
    assert_eq!(target.expect("target").as_str(), "/m/sat");
    assert_eq!(locals, vec!["margin".to_string()]);
    let plain = ast_model(vec![param_decl("mass", None)]);
    let (target, locals) =
        oneil::design_resolution::scan_design_locals(&here, &oneil::surface::collect_design_surface(&plain), &ctx);
    assert!(target.is_none());
    assert!(locals.is_empty());
}

#[test]
fn design_export_is_stored_only_with_content() {
    let here = ModelPath::new("/m/heavy".to_string());
    let mut active = Model::new(here.duplicate());
    let design = ast_model(vec![param_decl("mass", None)]);
    let surface = oneil::surface::collect_design_surface(&design);
    let mut d: ResolvedDesign = Design::new();
    d.parameter_overrides.insert(
        "mass".to_string(),
        oneil::ir::OverlayParameterValue { value: literal(), design_span: sp(10, 14), original_model_span: sp(40, 60) },
    );
    oneil::design_resolution::store_design_export(&surface, Some(ModelPath::new("/m/sat".to_string())), d, &mut active);
    assert_eq!(active.design_target().expect("target").as_str(), "/m/sat");
    assert_eq!(active.design_export().parameter_overrides.len(), 1);
    assert_eq!(active.design_export().target_model.as_ref().expect("target").as_str(), "/m/sat");

    let mut plain = Model::new(here.duplicate());
    let empty = ast_model(vec![]);
    let empty_surface = oneil::surface::collect_design_surface(&empty);
    let mut d: ResolvedDesign = Design::new();
    d.target_model = Some(ModelPath::new("/m/x".to_string()));
    oneil::design_resolution::store_design_export(&empty_surface, None, d, &mut plain);
    assert!(plain.design_target().is_none());
    assert!(plain.design_export().target_model.is_none());
}

#[test]
fn applied_designs_of_a_surface() {
    let mut ctx = context();
    design_file(&mut ctx, "/m/heavy", "/m/sat", false);
    let main = ModelPath::new("/m/main".to_string());
    let use_decl = |instance: Option<&str>| {
        let n = apply_node("heavy", instance);
        Node::new(oneil::ast::Decl::use_design(n), sp(0, 25), sp(0, 25))
    };
    let m = ast_model(vec![use_decl(Some("sat")), use_decl(None), use_decl(Some("nope"))]);
    let surface = oneil::surface::collect_design_surface(&m);
    let mut applied: Vec<ApplyDesign> = Vec::new();
    let mut augmented: OrderedMap<ModelPath> = OrderedMap::new();
    let mut errors: Vec<DesignResolutionError> = Vec::new();
    oneil::design_resolution::record_applied_designs(&surface, &main, None, &ctx, &mut applied, &mut augmented, &mut errors);
    assert_eq!(applied.len(), 1);
    assert_eq!(applied[0].target, vec!["sat".to_string()]);
    assert!(augmented.is_empty());
    assert_eq!(errors.len(), 1);
}

#[test]
fn design_surface_is_resolved_line_by_line() {
    let ctx = context();
    let here = ModelPath::new("/m/heavy".to_string());
    let design = ast_model(vec![
        param_decl("mass", None),
        target_decl("sat"),
        param_decl("margin", None),
        param_decl("power", Some("cam")),
        param_decl("mass", None),
        target_decl("sat"),
    ]);
    let surface = oneil::surface::collect_design_surface(&design);
    let bad = vec![ParameterResolutionError::duplicate_parameter("mass".to_string(), sp(0, 1), sp(2, 3))];
    let values = vec![
        Ok((literal(), Dependencies::new())),
        Ok((literal(), Dependencies::new())),
        Ok((literal(), Dependencies::new())),
        Err(bad),
    ];
    let mut active = Model::new(here.duplicate());
    let mut applied: Vec<ApplyDesign> = Vec::new();
    let mut augmented: OrderedMap<ModelPath> = OrderedMap::new();
    let (_, mut de, mut errs) = sinks();
    oneil::design_resolution::resolve_design_surface(
        &here, &surface, values, &ctx, &mut active, &mut applied, &mut augmented, &mut de, &mut errs,
    );
    // The line before the first `design` is read against the last one.
    assert_eq!(active.design_target().expect("target").as_str(), "/m/sat");
    let export = active.design_export();
    assert_eq!(export.target_model.as_ref().expect("target").as_str(), "/m/sat");
    assert_eq!(export.parameter_overrides.len(), 1);
    assert!(export.parameter_overrides.get(&"mass".to_string()).is_some());
    assert!(export.parameter_additions.get(&"margin".to_string()).is_some());
    assert_eq!(export.scoped_overrides.len(), 1);
    assert_eq!(de.len(), 1);
    assert_eq!(de[0].message(), "only one `design` declaration is allowed per file");
    assert_eq!(errs.get_parameter_resolution_errors().get(&"mass".to_string()).expect("mass").len(), 1);
    assert!(applied.is_empty());
}

#[test]
fn design_surface_lines_without_target_are_errors() {
    let ctx = context();
    let here = ModelPath::new("/m/plain".to_string());
    let design = ast_model(vec![param_decl("mass", None)]);
    let surface = oneil::surface::collect_design_surface(&design);
    let mut active = Model::new(here.duplicate());
    let mut applied: Vec<ApplyDesign> = Vec::new();
    let mut augmented: OrderedMap<ModelPath> = OrderedMap::new();
    let (_, mut de, mut errs) = sinks();
    oneil::design_resolution::resolve_design_surface(
        &here,
        &surface,
        vec![Ok((literal(), Dependencies::new()))],
        &ctx,
        &mut active,
        &mut applied,
        &mut augmented,
        &mut de,
        &mut errs,
    );
    assert_eq!(de.len(), 1);
    assert_eq!(de[0].message(), "design parameter line requires a preceding `design <model>` declaration");
    assert!(active.design_target().is_none());
    assert!(active.design_export().parameter_overrides.is_empty());
}
