use oneil::contribution::{Design, DesignContribution, InstanceKey};
use oneil::design_resolution::ResolvedDesign;
use oneil::imports::{ReferenceImport, SubmodelImport};
use oneil::instance_graph::{
    build_instance_graph, collect_replacements, compose_overlays, compose_parameters, contribution_for_application,
    copy_design, instance_references, target_instance_key_for, wire_extracted_submodels, InstancedModel, LiveGraph,
    ResolvedContribution,
};
use oneil::ir::{Dependencies, DesignApplication, Limits, Parameter};
use oneil::ir_copy::{LandedOverride, LandedParameter};
use oneil::ordmap::OrderedMap;
use oneil::ir::{Expr, Model, OverlayParameterValue, ParameterValue, ReferenceReplacement};
use oneil::paths::ModelPath;
use oneil::span::Span;

fn mp(s: &str) -> ModelPath {
    ModelPath::new(s.to_string())
}

fn key(path: &str, instance: &[&str]) -> InstanceKey {
    InstanceKey { model_path: mp(path), instance_path: instance.iter().map(|s| s.to_string()).collect() }
}

/// `/m/main` with a direct submodel `cam` (through reference `cam`), an
/// extracted submodel `lens` (through `cam`), and a plain reference `sat`.
fn consumer() -> Model {
    let mut m = Model::new(mp("/m/main"));
    m.add_reference("cam".to_string(), ReferenceImport::new("cam".to_string(), Span::new(0, 3), mp("/m/camera")));
    m.add_reference("sat".to_string(), ReferenceImport::new("sat".to_string(), Span::new(4, 7), mp("/m/sat")));
    m.add_submodel("cam".to_string(), SubmodelImport::new("cam".to_string(), Span::new(0, 3), "cam".to_string()));
    m.add_submodel(
        "lens".to_string(),
        SubmodelImport {
            name: "lens".to_string(),
            name_span: Span::new(8, 12),
            reference_name: "cam".to_string(),
            submodel_path: vec!["lens".to_string()],
        },
    );
    m
}

#[test]
fn design_lands_on_child_or_shared_instance() {
    let m = consumer();
    let here = key("/m/main", &["root_child"]);
    let target = Some(mp("/m/camera"));
    let k = target_instance_key_for(&target, &"cam".to_string(), &here, Some(&m)).expect("submodel");
    assert_eq!(k.model_path.as_str(), "/m/camera");
    assert_eq!(k.instance_path, vec!["root_child".to_string(), "cam".to_string()]);
    let k = target_instance_key_for(&target, &"sat".to_string(), &here, Some(&m)).expect("reference");
    assert!(k.instance_path.is_empty());
    assert!(target_instance_key_for(&target, &"nope".to_string(), &here, Some(&m)).is_none());
    assert!(target_instance_key_for(&None, &"cam".to_string(), &here, Some(&m)).is_none());
    assert!(target_instance_key_for(&target, &"cam".to_string(), &here, None).is_none());
}

fn overlay() -> OverlayParameterValue {
    OverlayParameterValue {
        value: ParameterValue::Simple(Expr::Literal { span: Span::new(1, 2) }),
        design_span: Span::new(1, 2),
        original_model_span: Span::new(3, 4),
    }
}

#[test]
fn application_to_a_reference_is_forwarded() {
    let m = consumer();
    let here = key("/m/main", &[]);
    let mut d: ResolvedDesign = Design::new();
    d.target_model = Some(mp("/m/camera"));
    d.parameter_overrides.insert("focus".to_string(), overlay());
    let c = contribution_for_application(Some(&"cam".to_string()), Some(copy_design(&d)), &here, Some(&m)).expect("contribution");
    assert_eq!(c.anchor_key.model_path.as_str(), "/m/main");
    assert!(c.overrides.is_empty());
    assert_eq!(c.nested_by_ref.len(), 1);
    assert_eq!(c.nested_by_ref[0].0, "cam");
    let inner = &c.nested_by_ref[0].1;
    assert_eq!(inner.anchor_key.model_path.as_str(), "/m/camera");
    assert_eq!(inner.anchor_key.instance_path, vec!["cam".to_string()]);
    assert!(inner.overrides.get(&"focus".to_string()).is_some());

    let mut d: ResolvedDesign = Design::new();
    d.parameter_overrides.insert("mass".to_string(), overlay());
    let c = contribution_for_application(None, Some(copy_design(&d)), &here, Some(&m)).expect("contribution");
    assert_eq!(c.anchor_key.model_path.as_str(), "/m/main");
    assert!(c.overrides.get(&"mass".to_string()).is_some());
    assert!(contribution_for_application(None, None, &here, Some(&m)).is_none());
}

fn with_replacement(name: &str, path: &str) -> ResolvedContribution {
    let mut c: ResolvedContribution = DesignContribution::empty(key("/m/main", &[]));
    c.replacements.insert(name.to_string(), ReferenceReplacement { replacement_path: mp(path) });
    c
}

#[test]
fn later_replacements_win() {
    let landed = vec![with_replacement("sat", "/m/sat_a"), with_replacement("cam", "/m/cam_b"), with_replacement("sat", "/m/sat_c")];
    let r = collect_replacements(&landed);
    assert_eq!(r.len(), 2);
    assert_eq!(r.get(&"sat".to_string()).expect("sat").as_str(), "/m/sat_c");
    assert_eq!(r.get(&"cam".to_string()).expect("cam").as_str(), "/m/cam_b");
}

#[test]
fn references_of_an_instance_follow_replacements() {
    let m = consumer();
    let landed = vec![with_replacement("sat", "/m/sat_b")];
    let repl = collect_replacements(&landed);
    let (refs, direct) = instance_references(&key("/m/main", &["top"]), &m, &repl);
    assert_eq!(direct, vec!["cam".to_string()]);
    assert_eq!(refs.len(), 2);
    let cam = refs.get(&"cam".to_string()).expect("cam");
    assert_eq!(cam.model_path.as_str(), "/m/camera");
    assert_eq!(cam.instance_path, vec!["top".to_string(), "cam".to_string()]);
    let sat = refs.get(&"sat".to_string()).expect("sat");
    assert_eq!(sat.model_path.as_str(), "/m/sat_b");
    assert!(sat.instance_path.is_empty());
}

#[test]
fn extracted_submodels_reuse_the_deep_instance() {
    let mut m = consumer();
    m.add_submodel(
        "ghost".to_string(),
        SubmodelImport {
            name: "ghost".to_string(),
            name_span: Span::new(13, 18),
            reference_name: "sat".to_string(),
            submodel_path: vec!["x".to_string()],
        },
    );
    let (mut refs, mut subs) = instance_references(&key("/m/main", &[]), &m, &OrderedMap::new());
    let mut camera_refs: OrderedMap<InstanceKey> = OrderedMap::new();
    camera_refs.insert("lens".to_string(), key("/m/lens", &["cam", "lens"]));
    let camera = InstancedModel {
        model_path: mp("/m/camera"),
        parameters: OrderedMap::new(),
        references: camera_refs,
        submodels: vec![],
        tests: vec![],
        overlays: OrderedMap::new(),
    };
    let g = LiveGraph { instances: vec![(key("/m/camera", &["cam"]), camera)] };
    wire_extracted_submodels(&g, &m.submodels, &mut refs, &mut subs);
    assert_eq!(subs, vec!["cam".to_string(), "lens".to_string()]);
    assert_eq!(refs.len(), 3);
    let lens = refs.get(&"lens".to_string()).expect("lens");
    assert_eq!(lens.model_path.as_str(), "/m/lens");
    assert_eq!(lens.instance_path, vec!["cam".to_string(), "lens".to_string()]);
    assert!(refs.get(&"ghost".to_string()).is_none());
}

fn param(name: &str, at: usize) -> Parameter {
    Parameter {
        name: name.to_string(),
        name_span: Span::new(at, at + name.len()),
        span: Span::new(at, at + 10),
        value: ParameterValue::Simple(Expr::Literal { span: Span::new(at + 5, at + 6) }),
        limits: Limits::Default,
        dependencies: Dependencies::new(),
    }
}

#[test]
fn parameters_and_overrides_are_composed_in_order() {
    let mut own: OrderedMap<Parameter> = OrderedMap::new();
    own.insert("mass".to_string(), param("mass", 0));
    let mut first: ResolvedContribution = DesignContribution::empty(key("/m/d1", &[]));
    first.additions.insert("margin".to_string(), LandedParameter(param("margin", 20)));
    first.overrides.insert("mass".to_string(), LandedOverride(overlay()));
    let mut second: ResolvedContribution = DesignContribution::empty(key("/m/d2", &[]));
    second.additions.insert("margin".to_string(), LandedParameter(param("margin", 40)));
    let landed = vec![first, second];
    let ps = compose_parameters(&own, &landed);
    assert_eq!(ps.len(), 2);
    assert_eq!(ps.get(&"mass".to_string()).expect("mass").0.span, Span::new(0, 10));
    assert_eq!(ps.get(&"margin".to_string()).expect("margin").0.span, Span::new(40, 50));
    let os = compose_overlays(&landed);
    assert_eq!(os.len(), 1);
    let b = os.get(&"mass".to_string()).expect("binding");
    assert_eq!(b.anchor_key.model_path.as_str(), "/m/d1");
    assert_eq!(b.design_span, Span::new(1, 2));
}

/// `/m/main` refers to `/m/camera` (a direct submodel `cam`) and to `/m/sat`
/// twice (as `sat` and `sat2`), and applies the design of `/m/heavy` to `sat`.
fn world() -> OrderedMap<Model> {
    let mut main = Model::new(mp("/m/main"));
    main.add_reference("cam".to_string(), ReferenceImport::new("cam".to_string(), Span::new(0, 3), mp("/m/camera")));
    main.add_reference("sat".to_string(), ReferenceImport::new("sat".to_string(), Span::new(4, 7), mp("/m/sat")));
    main.add_reference("sat2".to_string(), ReferenceImport::new("sat2".to_string(), Span::new(8, 12), mp("/m/sat")));
    main.add_submodel("cam".to_string(), SubmodelImport::new("cam".to_string(), Span::new(0, 3), "cam".to_string()));
    main.add_parameter("x".to_string(), param("x", 100));
    main.add_applied_design(DesignApplication { design_path: mp("/m/heavy"), applied_to: Some("sat".to_string()) });
    let mut camera = Model::new(mp("/m/camera"));
    camera.add_parameter("focus".to_string(), param("focus", 200));
    let mut sat = Model::new(mp("/m/sat"));
    sat.add_parameter("mass".to_string(), param("mass", 300));
    let mut heavy = Model::new(mp("/m/heavy"));
    let mut d: ResolvedDesign = Design::new();
    d.target_model = Some(mp("/m/sat"));
    d.parameter_overrides.insert("mass".to_string(), overlay());
    d.parameter_additions.insert("margin".to_string(), param("margin", 400));
    heavy.set_design_export(d);
    let mut models = OrderedMap::new();
    models.insert("/m/main".to_string(), main);
    models.insert("/m/camera".to_string(), camera);
    models.insert("/m/sat".to_string(), sat);
    models.insert("/m/heavy".to_string(), heavy);
    models
}

#[test]
fn instance_graph_applies_designs_to_instances() {
    let models = world();
    let g = build_instance_graph(&mp("/m/main"), &vec![], &models);
    assert_eq!(g.instances.len(), 3);
    let (k0, main) = &g.instances[0];
    assert_eq!(k0.model_path.as_str(), "/m/main");
    assert!(k0.instance_path.is_empty());
    assert_eq!(main.references.len(), 3);
    assert_eq!(main.submodels, vec!["cam".to_string()]);
    assert!(main.overlays.is_empty());
    let (k1, camera) = &g.instances[1];
    assert_eq!(k1.model_path.as_str(), "/m/camera");
    assert_eq!(k1.instance_path, vec!["cam".to_string()]);
    assert!(camera.parameters.get(&"focus".to_string()).is_some());
    // `sat` and `sat2` share one instance, which the design reached.
    let (k2, sat) = &g.instances[2];
    assert_eq!(k2.model_path.as_str(), "/m/sat");
    assert!(k2.instance_path.is_empty());
    assert_eq!(sat.parameters.len(), 2);
    assert!(sat.parameters.get(&"margin".to_string()).is_some());
    let b = sat.overlays.get(&"mass".to_string()).expect("override");
    assert_eq!(b.anchor_key.model_path.as_str(), "/m/sat");
    assert_eq!(b.original_model_span, Span::new(3, 4));
}

#[test]
fn runtime_designs_land_on_the_root_and_unknown_roots_give_nothing() {
    let models = world();
    let runtime = vec![DesignApplication { design_path: mp("/m/heavy"), applied_to: None }];
    let g = build_instance_graph(&mp("/m/main"), &runtime, &models);
    let (_, main) = &g.instances[0];
    assert!(main.overlays.get(&"mass".to_string()).is_some());
    assert!(main.parameters.get(&"margin".to_string()).is_some());
    let empty = build_instance_graph(&mp("/m/nowhere"), &vec![], &models);
    assert!(empty.instances.is_empty());
}
