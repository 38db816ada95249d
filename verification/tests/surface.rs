use oneil::ast::{
    Decl, DeclNode, DesignParameter, DesignTarget, Identifier, IdentifierNode, Import, Model,
    ModelInfo, ModelKind, Node, Parameter, ParameterValue, Section, Test, UseDesign, UseModel,
};
use oneil::span::Span;
use oneil::surface::{collect_design_surface, iter_apply_designs, split_model_ast, DesignSurfaceItem};

fn span() -> Span {
    Span::new(0, 0)
}

fn node<T>(value: T) -> Node<T> {
    Node::new(value, span(), span())
}

fn ident(text: &str) -> IdentifierNode {
    node(Identifier::new(text.to_string()))
}

fn submodel_decl(name: &str) -> DeclNode {
    let info = node(ModelInfo::new(ident(name), vec![], None));
    node(Decl::use_model(node(UseModel::new(vec![], info, None, ModelKind::Submodel))))
}

fn import_decl(path: &str) -> DeclNode {
    node(Decl::import(node(Import::new(node(path.to_string())))))
}

fn parameter_decl(name: &str) -> DeclNode {
    let p = Parameter { ident: ident(name), value: node(ParameterValue { text: "1".to_string() }) };
    node(Decl::parameter(node(p)))
}

fn test_decl(expr: &str) -> DeclNode {
    node(Decl::test(node(Test { expr_text: expr.to_string() })))
}

fn use_design_decl(file: &str) -> DeclNode {
    node(Decl::use_design(node(UseDesign::new(ident(file), None))))
}

fn design_target_decl(name: &str) -> DeclNode {
    node(Decl::design_target(node(DesignTarget::new(ident(name)))))
}

fn design_parameter_decl(name: &str) -> DeclNode {
    let value = node(ParameterValue { text: "2".to_string() });
    node(Decl::design_parameter(node(DesignParameter::new(ident(name), value, None))))
}

fn model(decls: Vec<DeclNode>, sections: Vec<Section>) -> Model {
    Model { note: None, decls, sections }
}

#[test]
fn split_model_ast_empty() {
    let m = model(vec![], vec![]);
    let (imports, use_models, parameters, tests) = split_model_ast(&m);
    assert!(imports.is_empty());
    assert!(use_models.is_empty());
    assert!(parameters.is_empty());
    assert!(tests.is_empty());
}

#[test]
fn split_model_ast_with_all_declarations() {
    let m = model(vec![submodel_decl("submodel")], vec![]);
    let (imports, use_models, parameters, tests) = split_model_ast(&m);
    assert_eq!(imports.len(), 0);
    assert_eq!(use_models.len(), 1);
    assert_eq!(use_models[0].value().model_info().value().top_component().value().as_str(), "submodel");
    assert!(use_models[0].value().model_info().value().subcomponents().is_empty());
    assert!(parameters.is_empty());
    assert!(tests.is_empty());
}

#[test]
fn split_model_ast_use_model_only() {
    let m = model(vec![submodel_decl("submodel1"), submodel_decl("submodel2")], vec![]);
    let (imports, use_models, parameters, tests) = split_model_ast(&m);
    assert!(imports.is_empty());
    assert_eq!(use_models.len(), 2);
    assert_eq!(use_models[0].value().model_info().value().top_component().value().as_str(), "submodel1");
    assert_eq!(use_models[1].value().model_info().value().top_component().value().as_str(), "submodel2");
    assert!(parameters.is_empty());
    assert!(tests.is_empty());
}

#[test]
fn split_model_ast_keeps_section_labels_and_order() {
    let section = Section {
        label: ident("geometry"),
        decls: vec![parameter_decl("r"), test_decl("r > 0"), import_decl("helpers")],
    };
    let m = model(
        vec![import_decl("math"), parameter_decl("x"), design_target_decl("t")],
        vec![section],
    );
    let (imports, use_models, parameters, tests) = split_model_ast(&m);
    assert_eq!(imports.len(), 2);
    assert_eq!(imports[0].value().path().value().as_str(), "math");
    assert_eq!(imports[1].value().path().value().as_str(), "helpers");
    assert!(use_models.is_empty());
    assert_eq!(parameters.len(), 2);
    assert_eq!(parameters[0].parameter.value().ident.value().as_str(), "x");
    assert!(parameters[0].section_label.is_none());
    assert_eq!(parameters[1].parameter.value().ident.value().as_str(), "r");
    assert_eq!(parameters[1].section_label.expect("label").value().as_str(), "geometry");
    assert_eq!(tests.len(), 1);
    assert_eq!(tests[0].section_label.expect("label").value().as_str(), "geometry");
}

#[test]
fn collect_design_surface_in_source_order() {
    let section = Section {
        label: ident("overrides"),
        decls: vec![design_parameter_decl("mass"), use_design_decl("heavy")],
    };
    let m = model(
        vec![design_target_decl("satellite"), parameter_decl("x"), use_design_decl("light")],
        vec![section],
    );
    let surface = collect_design_surface(&m);
    assert_eq!(surface.len(), 4);
    assert!(matches!(surface[0], DesignSurfaceItem::Target(t) if t.value().target().value().as_str() == "satellite"));
    assert!(matches!(surface[1], DesignSurfaceItem::Apply(a) if a.value().design_file().value().as_str() == "light"));
    assert!(matches!(surface[2], DesignSurfaceItem::Parameter(p) if p.value().ident().value().as_str() == "mass"));
    assert!(matches!(surface[3], DesignSurfaceItem::Apply(a) if a.value().design_file().value().as_str() == "heavy"));
    let applies = iter_apply_designs(&m);
    assert_eq!(applies.len(), 2);
    assert_eq!(applies[0].value().design_file().value().as_str(), "light");
    assert_eq!(applies[1].value().design_file().value().as_str(), "heavy");
}

#[test]
fn design_target_path_is_sibling_of_model() {
    let m = model(vec![parameter_decl("x"), design_target_decl("satellite")], vec![]);
    let p = oneil::paths::ModelPath::new("/models/designs/heavy".to_string());
    let r = oneil::surface::collect_design_target_path(&p, &m);
    assert_eq!(r.expect("target").as_str(), "/models/designs/satellite");
}

#[test]
fn design_target_path_absent_without_target() {
    let m = model(vec![use_design_decl("light")], vec![]);
    let p = oneil::paths::ModelPath::new("/models/heavy".to_string());
    assert!(oneil::surface::collect_design_target_path(&p, &m).is_none());
}

#[test]
fn apply_design_paths_once_each_in_order() {
    let section = Section { label: ident("more"), decls: vec![use_design_decl("light"), use_design_decl("rugged")] };
    let m = model(vec![use_design_decl("light"), parameter_decl("x"), use_design_decl("heavy")], vec![section]);
    let p = oneil::paths::ModelPath::new("/models/sat".to_string());
    let paths = oneil::surface::collect_apply_design_paths(&p, &m);
    let texts: Vec<&str> = paths.iter().map(|q| q.as_str()).collect();
    assert_eq!(texts, vec!["/models/light", "/models/heavy", "/models/rugged"]);
    assert!(oneil::surface::collect_apply_design_paths(&p, &model(vec![], vec![])).is_empty());
}
