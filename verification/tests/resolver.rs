use oneil::ast::{
    Directory, Identifier, IdentifierNode, ModelInfo, ModelInfoNode, ModelKind, Node, SubmodelList,
    UseModel, UseModelNode,
};
use oneil::ir::Model;
use oneil::paths::ModelPath;
use oneil::resolver::{resolve_model_imports, ModelImportResolutionError, ResolutionContext};
use oneil::span::Span;

fn span() -> Span {
    Span::new(0, 0)
}

fn ident(text: &str) -> IdentifierNode {
    Node::new(Identifier::new(text.to_string()), span(), span())
}

fn model_info(top: &str, subs: &[&str], alias: Option<&str>) -> ModelInfoNode {
    let subcomponents = subs.iter().map(|s| ident(s)).collect();
    Node::new(ModelInfo::new(ident(top), subcomponents, alias.map(ident)), span(), span())
}

fn use_decl(
    dirs: &[&str],
    top: &str,
    subs: &[&str],
    alias: Option<&str>,
    kind: ModelKind,
    submodels: Option<Vec<ModelInfoNode>>,
) -> UseModelNode {
    let directory_path = dirs
        .iter()
        .map(|d| Node::new(Directory::Name(d.to_string()), span(), span()))
        .collect();
    let list = submodels.map(|items| Node::new(SubmodelList::new(items), span(), span()));
    Node::new(
        UseModel::new(directory_path, model_info(top, subs, alias), list, kind),
        span(),
        span(),
    )
}

fn test_model_path(s: &str) -> ModelPath {
    ModelPath::new(s.to_string())
}

fn test_model_sibling_path(p: &ModelPath, name: &str) -> ModelPath {
    p.get_sibling_model_path(&ModelPath::new(name.to_string()))
}

fn context(models: Vec<(&ModelPath, Model)>, errors: Vec<&ModelPath>) -> ResolutionContext {
    let mut ctx = ResolutionContext::new();
    for (p, m) in models {
        ctx.add_model(p, m);
    }
    for p in errors {
        ctx.add_model_error(p);
    }
    ctx
}

fn empty_model() -> Model {
    Model::new(ModelPath::new("/unimportant".to_string()))
}

fn assert_has_submodels(ctx: &ResolutionContext, expected: &[(&str, &ModelPath)]) {
    let submodels = ctx.get_active_model_submodels();
    let references = ctx.get_active_model_references();
    let direct = submodels.entries.iter().filter(|(_, s)| !s.is_extracted()).count();
    assert_eq!(direct, expected.len(), "number of direct submodels");
    for (alias, path) in expected {
        let s = submodels.get(&alias.to_string()).expect("submodel should exist");
        assert!(!s.is_extracted(), "{alias} should be a direct submodel");
        let r = references.get(s.reference_name()).expect("submodel's reference should exist");
        assert_eq!(r.path().as_str(), path.as_str(), "path of {alias}");
    }
}

fn assert_has_extracted_submodels(ctx: &ResolutionContext, expected: &[(&str, &str, Vec<&str>)]) {
    let submodels = ctx.get_active_model_submodels();
    let extracted = submodels.entries.iter().filter(|(_, s)| s.is_extracted()).count();
    assert_eq!(extracted, expected.len(), "number of extracted submodels");
    for (alias, parent, path) in expected {
        let s = submodels.get(&alias.to_string()).expect("extracted submodel should exist");
        assert!(s.is_extracted(), "{alias} should be extracted");
        assert_eq!(s.reference_name().as_str(), *parent, "parent of {alias}");
        let actual: Vec<&str> = s.submodel_path().iter().map(|x| x.as_str()).collect();
        assert_eq!(&actual, path, "submodel path of {alias}");
    }
}

fn assert_has_references(ctx: &ResolutionContext, expected: &[(&str, &ModelPath)]) {
    let references = ctx.get_active_model_references();
    assert_eq!(references.len(), expected.len(), "number of references");
    for (name, path) in expected {
        let r = references.get(&name.to_string()).expect("reference should exist");
        assert_eq!(r.path().as_str(), path.as_str(), "path of {name}");
    }
}

fn assert_no_errors(ctx: &ResolutionContext) {
    assert!(ctx.get_active_model_model_import_errors().is_empty());
}

fn single_error<'a>(
    ctx: &'a ResolutionContext,
    key: &str,
) -> &'a (Option<String>, ModelImportResolutionError) {
    let errors = ctx.get_active_model_model_import_errors();
    assert_eq!(errors.len(), 1);
    errors.get(&key.to_string()).expect("error should exist")
}

fn assert_model_has_error(error: &ModelImportResolutionError, expected_path: &ModelPath) {
    let ModelImportResolutionError::ModelHasError { model_path, reference_span: _ } = error else {
        panic!("Expected ModelHasError, got {error:?}");
    };
    assert_eq!(model_path.as_str(), expected_path.as_str());
}

fn assert_undefined_submodel(error: &ModelImportResolutionError, parent: &ModelPath, name: &str) {
    let ModelImportResolutionError::UndefinedSubmodel { parent_model_path, submodel, reference_span: _ } = error
    else {
        panic!("Expected UndefinedSubmodel, got {error:?}");
    };
    assert_eq!(parent_model_path.as_str(), parent.as_str());
    assert_eq!(submodel.as_str(), name);
}

#[test]
fn resolve_simple_submodel() {
    let model_import = use_decl(&[], "temperature", &[], Some("temp"), ModelKind::Submodel, None);
    let model_path = test_model_path("/parent_model");
    let temperature_path = test_model_sibling_path(&model_path, "temperature");
    let mut ctx = context(vec![(&temperature_path, empty_model())], vec![]);
    resolve_model_imports(&model_path, vec![&model_import], &mut ctx);
    assert_has_submodels(&ctx, &[("temp", &temperature_path)]);
    assert_has_references(&ctx, &[("temp", &temperature_path)]);
    assert_no_errors(&ctx);
}

#[test]
fn resolve_nested_submodel() {
    let model_import = use_decl(
        &[],
        "weather",
        &["atmosphere", "temperature"],
        Some("temp"),
        ModelKind::Submodel,
        None,
    );
    let model_path = test_model_path("/parent_model");
    let weather_path = test_model_sibling_path(&model_path, "weather");
    let atmosphere_path = test_model_sibling_path(&weather_path, "atmosphere");
    let temperature_path = test_model_sibling_path(&atmosphere_path, "temperature");
    let atmosphere_model = empty_model().with_submodel("temperature", &temperature_path);
    let weather_model = empty_model().with_submodel("atmosphere", &atmosphere_path);
    let mut ctx = context(
        vec![
            (&temperature_path, empty_model()),
            (&atmosphere_path, atmosphere_model),
            (&weather_path, weather_model),
        ],
        vec![],
    );
    resolve_model_imports(&model_path, vec![&model_import], &mut ctx);
    assert_has_submodels(&ctx, &[("temp", &temperature_path)]);
    assert_has_references(&ctx, &[("temp", &temperature_path)]);
    assert_no_errors(&ctx);
}

#[test]
fn resolve_submodel_without_alias() {
    let model_import = use_decl(&[], "temperature", &[], None, ModelKind::Submodel, None);
    let model_path = test_model_path("/parent_model");
    let temperature_path = test_model_sibling_path(&model_path, "temperature");
    let mut ctx = context(vec![(&temperature_path, empty_model())], vec![]);
    resolve_model_imports(&model_path, vec![&model_import], &mut ctx);
    assert_has_submodels(&ctx, &[("temperature", &temperature_path)]);
    assert_has_references(&ctx, &[("temperature", &temperature_path)]);
    assert_no_errors(&ctx);
}

#[test]
fn resolve_submodel_with_subcomponent_alias() {
    let model_import = use_decl(&[], "weather", &["atmosphere"], None, ModelKind::Submodel, None);
    let model_path = test_model_path("/parent_model");
    let weather_path = test_model_sibling_path(&model_path, "weather");
    let atmosphere_path = test_model_sibling_path(&weather_path, "atmosphere");
    let weather_model = empty_model().with_submodel("atmosphere", &atmosphere_path);
    let mut ctx = context(
        vec![(&atmosphere_path, empty_model()), (&weather_path, weather_model)],
        vec![],
    );
    resolve_model_imports(&model_path, vec![&model_import], &mut ctx);
    assert_has_submodels(&ctx, &[("atmosphere", &atmosphere_path)]);
    assert_has_references(&ctx, &[("atmosphere", &atmosphere_path)]);
    assert_no_errors(&ctx);
}

#[test]
fn resolve_model_with_error() {
    let model_import = use_decl(&[], "error_model", &[], Some("error"), ModelKind::Submodel, None);
    let model_path = test_model_path("/parent_model");
    let error_path = test_model_sibling_path(&model_path, "error_model");
    let mut ctx = context(vec![(&error_path, empty_model())], vec![&error_path]);
    resolve_model_imports(&model_path, vec![&model_import], &mut ctx);
    assert_has_submodels(&ctx, &[]);
    assert_has_references(&ctx, &[]);
    let (submodel_name, error) = single_error(&ctx, "error");
    assert_eq!(submodel_name, &Some("error".to_string()));
    assert_model_has_error(error, &error_path);
}

#[test]
fn resolve_undefined_submodel() {
    let model_import =
        use_decl(&[], "weather", &["undefined_submodel"], None, ModelKind::Submodel, None);
    let model_path = test_model_path("/parent_model");
    let weather_path = test_model_sibling_path(&model_path, "weather");
    let mut ctx = context(vec![(&weather_path, empty_model())], vec![]);
    resolve_model_imports(&model_path, vec![&model_import], &mut ctx);
    assert_has_submodels(&ctx, &[]);
    assert_has_references(&ctx, &[]);
    let (submodel_name, error) = single_error(&ctx, "undefined_submodel");
    assert_eq!(submodel_name, &Some("undefined_submodel".to_string()));
    assert_undefined_submodel(error, &weather_path, "undefined_submodel");
}

#[test]
fn resolve_undefined_submodel_in_submodel() {
    let model_import = use_decl(
        &[],
        "weather",
        &["atmosphere", "undefined"],
        None,
        ModelKind::Submodel,
        None,
    );
    let model_path = test_model_path("/parent_model");
    let weather_path = test_model_sibling_path(&model_path, "weather");
    let atmosphere_path = test_model_sibling_path(&weather_path, "atmosphere");
    let weather_model = empty_model().with_submodel("atmosphere", &atmosphere_path);
    let mut ctx = context(
        vec![(&atmosphere_path, empty_model()), (&weather_path, weather_model)],
        vec![],
    );
    resolve_model_imports(&model_path, vec![&model_import], &mut ctx);
    assert_has_submodels(&ctx, &[]);
    assert_has_references(&ctx, &[]);
    let (submodel_name, error) = single_error(&ctx, "undefined");
    assert_eq!(submodel_name, &Some("undefined".to_string()));
    assert_undefined_submodel(error, &atmosphere_path, "undefined");
}

#[test]
fn resolve_multiple_submodels() {
    let temp_model = use_decl(&[], "temperature", &[], Some("temp"), ModelKind::Submodel, None);
    let press_model = use_decl(&[], "pressure", &[], Some("press"), ModelKind::Submodel, None);
    let model_path = test_model_path("/parent_model");
    let temperature_path = test_model_sibling_path(&model_path, "temperature");
    let pressure_path = test_model_sibling_path(&model_path, "pressure");
    let mut ctx = context(
        vec![(&temperature_path, empty_model()), (&pressure_path, empty_model())],
        vec![],
    );
    resolve_model_imports(&model_path, vec![&temp_model, &press_model], &mut ctx);
    assert_has_submodels(&ctx, &[("temp", &temperature_path), ("press", &pressure_path)]);
    assert_has_references(&ctx, &[("temp", &temperature_path), ("press", &pressure_path)]);
    assert_no_errors(&ctx);
}

#[test]
fn resolve_mixed_success_and_error() {
    let temp_model = use_decl(&[], "temperature", &[], Some("temp"), ModelKind::Submodel, None);
    let error_model = use_decl(&[], "error_model", &[], Some("error"), ModelKind::Submodel, None);
    let model_path = test_model_path("/parent_model");
    let temperature_path = test_model_sibling_path(&model_path, "temperature");
    let error_path = test_model_sibling_path(&model_path, "error_model");
    let mut ctx = context(
        vec![(&temperature_path, empty_model()), (&error_path, empty_model())],
        vec![&error_path],
    );
    resolve_model_imports(&model_path, vec![&temp_model, &error_model], &mut ctx);
    assert_has_submodels(&ctx, &[("temp", &temperature_path)]);
    assert_has_references(&ctx, &[("temp", &temperature_path)]);
    let (submodel_name, error) = single_error(&ctx, "error");
    assert_eq!(submodel_name, &Some("error".to_string()));
    assert_model_has_error(error, &error_path);
}

#[test]
fn resolve_submodel_with_directory_path_success() {
    let math_model = use_decl(&["utils"], "math", &[], None, ModelKind::Submodel, None);
    let model_path = test_model_path("/parent_model");
    let math_path = test_model_sibling_path(&model_path, "utils/math");
    let mut ctx = context(vec![(&math_path, empty_model())], vec![]);
    resolve_model_imports(&model_path, vec![&math_model], &mut ctx);
    assert_has_submodels(&ctx, &[("math", &math_path)]);
    assert_has_references(&ctx, &[("math", &math_path)]);
    assert_no_errors(&ctx);
}

#[test]
fn resolve_submodel_with_directory_path_error() {
    let math_model = use_decl(&["nonexistent"], "math", &[], None, ModelKind::Submodel, None);
    let model_path = test_model_path("/parent_model");
    let math_path = test_model_sibling_path(&model_path, "nonexistent/math");
    let mut ctx = context(vec![(&math_path, empty_model())], vec![&math_path]);
    resolve_model_imports(&model_path, vec![&math_model], &mut ctx);
    assert_has_submodels(&ctx, &[]);
    assert_has_references(&ctx, &[]);
    let (submodel_name, error) = single_error(&ctx, "math");
    assert_eq!(submodel_name, &Some("math".to_string()));
    assert_model_has_error(error, &math_path);
}

#[test]
fn resolve_duplicate_submodel_aliases() {
    let temp_model1 = use_decl(&[], "temperature", &[], Some("temp"), ModelKind::Submodel, None);
    let temp_model2 =
        use_decl(&[], "other_temperature", &[], Some("temp"), ModelKind::Submodel, None);
    let model_path = test_model_path("/parent_model");
    let temperature_path = test_model_sibling_path(&model_path, "temperature");
    let other_temperature_path = test_model_sibling_path(&model_path, "other_temperature");
    let mut ctx = context(
        vec![(&temperature_path, empty_model()), (&other_temperature_path, empty_model())],
        vec![],
    );
    resolve_model_imports(&model_path, vec![&temp_model1, &temp_model2], &mut ctx);
    assert_has_submodels(&ctx, &[("temp", &temperature_path)]);
    assert_has_references(&ctx, &[("temp", &temperature_path)]);
    let (submodel_name, error) = single_error(&ctx, "temp");
    assert_eq!(submodel_name, &Some("temp".to_string()));
    let ModelImportResolutionError::DuplicateSubmodel { submodel, original_span: _, duplicate_span: _ } = error
    else {
        panic!("Expected DuplicateSubmodel, got {error:?}");
    };
    assert_eq!(submodel.as_str(), "temp");
}

#[test]
fn resolve_use_declaration_with_failing_submodel() {
    let weather_import = use_decl(
        &[],
        "weather",
        &["atmosphere", "temperature"],
        None,
        ModelKind::Submodel,
        None,
    );
    let model_path = test_model_path("/parent_model");
    let weather_path = test_model_sibling_path(&model_path, "weather");
    let atmosphere_path = test_model_sibling_path(&weather_path, "atmosphere");
    let weather_model = empty_model().with_submodel("atmosphere", &atmosphere_path);
    let mut ctx = context(
        vec![(&atmosphere_path, empty_model()), (&weather_path, weather_model)],
        vec![],
    );
    resolve_model_imports(&model_path, vec![&weather_import], &mut ctx);
    assert_has_submodels(&ctx, &[]);
    assert_has_references(&ctx, &[]);
    let (submodel_name, error) = single_error(&ctx, "temperature");
    assert_eq!(submodel_name, &Some("temperature".to_string()));
    assert_undefined_submodel(error, &atmosphere_path, "temperature");
}

#[test]
fn resolve_use_declaration_with_successful_and_failing_submodels() {
    let temp_model = use_decl(&[], "temperature", &[], Some("temp"), ModelKind::Submodel, None);
    let undefined_model = use_decl(
        &[],
        "weather",
        &["atmosphere", "undefined"],
        None,
        ModelKind::Submodel,
        None,
    );
    let model_path = test_model_path("/parent_model");
    let temperature_path = test_model_sibling_path(&model_path, "temperature");
    let weather_path = test_model_sibling_path(&model_path, "weather");
    let atmosphere_path = test_model_sibling_path(&weather_path, "atmosphere");
    let weather_model = empty_model().with_submodel("atmosphere", &atmosphere_path);
    let mut ctx = context(
        vec![
            (&temperature_path, empty_model()),
            (&atmosphere_path, empty_model()),
            (&weather_path, weather_model),
        ],
        vec![],
    );
    resolve_model_imports(&model_path, vec![&temp_model, &undefined_model], &mut ctx);
    assert_has_submodels(&ctx, &[("temp", &temperature_path)]);
    assert_has_references(&ctx, &[("temp", &temperature_path)]);
    let (submodel_name, error) = single_error(&ctx, "undefined");
    assert_eq!(submodel_name, &Some("undefined".to_string()));
    assert_undefined_submodel(error, &atmosphere_path, "undefined");
}

#[test]
fn resolve_use_declaration_with_single_submodel() {
    let temperature_submodel = model_info("temperature", &[], Some("temp"));
    let weather_import = use_decl(
        &[],
        "weather",
        &[],
        None,
        ModelKind::Submodel,
        Some(vec![temperature_submodel]),
    );
    let model_path = test_model_path("/parent_model");
    let weather_path = test_model_sibling_path(&model_path, "weather");
    let temperature_path = test_model_sibling_path(&weather_path, "temperature");
    let weather_model = empty_model().with_submodel("temperature", &temperature_path);
    let mut ctx = context(
        vec![(&temperature_path, empty_model()), (&weather_path, weather_model)],
        vec![],
    );
    resolve_model_imports(&model_path, vec![&weather_import], &mut ctx);
    assert_has_submodels(&ctx, &[("weather", &weather_path)]);
    assert_has_extracted_submodels(&ctx, &[("temp", "weather", vec!["temperature"])]);
    assert_has_references(&ctx, &[("weather", &weather_path), ("temp", &temperature_path)]);
    assert_no_errors(&ctx);
}

#[test]
fn resolve_use_declaration_with_multiple_submodels() {
    let temperature_submodel = model_info("temperature", &[], Some("temp"));
    let pressure_submodel = model_info("pressure", &[], Some("press"));
    let weather_import = use_decl(
        &[],
        "weather",
        &[],
        None,
        ModelKind::Submodel,
        Some(vec![temperature_submodel, pressure_submodel]),
    );
    let model_path = test_model_path("/parent_model");
    let weather_path = test_model_sibling_path(&model_path, "weather");
    let temperature_path = test_model_sibling_path(&weather_path, "temperature");
    let pressure_path = test_model_sibling_path(&weather_path, "pressure");
    let weather_model = empty_model()
        .with_submodel("temperature", &temperature_path)
        .with_submodel("pressure", &pressure_path);
    let mut ctx = context(
        vec![
            (&temperature_path, empty_model()),
            (&pressure_path, empty_model()),
            (&weather_path, weather_model),
        ],
        vec![],
    );
    resolve_model_imports(&model_path, vec![&weather_import], &mut ctx);
    assert_has_submodels(&ctx, &[("weather", &weather_path)]);
    assert_has_extracted_submodels(
        &ctx,
        &[("temp", "weather", vec!["temperature"]), ("press", "weather", vec!["pressure"])],
    );
    assert_has_references(
        &ctx,
        &[("weather", &weather_path), ("temp", &temperature_path), ("press", &pressure_path)],
    );
    assert_no_errors(&ctx);
}

#[test]
fn resolve_use_declaration_with_nested_submodel() {
    let temperature_submodel = model_info("atmosphere", &["temperature"], Some("temp"));
    let weather_import = use_decl(
        &[],
        "weather",
        &[],
        None,
        ModelKind::Submodel,
        Some(vec![temperature_submodel]),
    );
    let model_path = test_model_path("/parent_model");
    let weather_path = test_model_sibling_path(&model_path, "weather");
    let atmosphere_path = test_model_sibling_path(&weather_path, "atmosphere");
    let temperature_path = test_model_sibling_path(&atmosphere_path, "temperature");
    let atmosphere_model = empty_model().with_submodel("temperature", &temperature_path);
    let weather_model = empty_model().with_submodel("atmosphere", &atmosphere_path);
    let mut ctx = context(
        vec![
            (&temperature_path, empty_model()),
            (&atmosphere_path, atmosphere_model),
            (&weather_path, weather_model),
        ],
        vec![],
    );
    resolve_model_imports(&model_path, vec![&weather_import], &mut ctx);
    assert_has_submodels(&ctx, &[("weather", &weather_path)]);
    assert_has_extracted_submodels(
        &ctx,
        &[("temp", "weather", vec!["atmosphere", "temperature"])],
    );
    assert_has_references(&ctx, &[("weather", &weather_path), ("temp", &temperature_path)]);
    assert_no_errors(&ctx);
}

#[test]
fn resolve_use_declaration_with_failing_submodel_in_with_clause() {
    let undefined_submodel = model_info("undefined", &[], None);
    let weather_import = use_decl(
        &[],
        "weather",
        &[],
        None,
        ModelKind::Submodel,
        Some(vec![undefined_submodel]),
    );
    let model_path = test_model_path("/parent_model");
    let weather_path = test_model_sibling_path(&model_path, "weather");
    let mut ctx = context(vec![(&weather_path, empty_model())], vec![]);
    resolve_model_imports(&model_path, vec![&weather_import], &mut ctx);
    assert_has_submodels(&ctx, &[("weather", &weather_path)]);
    assert_has_references(&ctx, &[("weather", &weather_path)]);
    let (submodel_name, error) = single_error(&ctx, "undefined");
    assert_eq!(submodel_name, &None);
    assert_undefined_submodel(error, &weather_path, "undefined");
}

#[test]
fn resolve_use_declaration_with_successful_and_failing_submodels_in_with_clause() {
    let temperature_submodel = model_info("temperature", &[], Some("temp"));
    let undefined_submodel = model_info("undefined", &[], None);
    let weather_import = use_decl(
        &[],
        "weather",
        &[],
        None,
        ModelKind::Submodel,
        Some(vec![temperature_submodel, undefined_submodel]),
    );
    let model_path = test_model_path("/parent_model");
    let weather_path = test_model_sibling_path(&model_path, "weather");
    let temperature_path = test_model_sibling_path(&weather_path, "temperature");
    let weather_model = empty_model().with_submodel("temperature", &temperature_path);
    let mut ctx = context(
        vec![(&weather_path, weather_model), (&temperature_path, empty_model())],
        vec![],
    );
    resolve_model_imports(&model_path, vec![&weather_import], &mut ctx);
    assert_has_submodels(&ctx, &[("weather", &weather_path)]);
    assert_has_extracted_submodels(&ctx, &[("temp", "weather", vec!["temperature"])]);
    assert_has_references(&ctx, &[("weather", &weather_path), ("temp", &temperature_path)]);
    let (submodel_name, error) = single_error(&ctx, "undefined");
    assert_eq!(submodel_name, &None);
    assert_undefined_submodel(error, &weather_path, "undefined");
}

#[test]
fn resolve_use_declaration_with_model_alias_and_submodels() {
    let temperature_submodel = model_info("temperature", &[], Some("temp"));
    let pressure_submodel = model_info("pressure", &[], Some("press"));
    let weather_import = use_decl(
        &[],
        "weather",
        &[],
        Some("weather_model"),
        ModelKind::Submodel,
        Some(vec![temperature_submodel, pressure_submodel]),
    );
    let model_path = test_model_path("/parent_model");
    let weather_path = test_model_sibling_path(&model_path, "weather");
    let temperature_path = test_model_sibling_path(&weather_path, "temperature");
    let pressure_path = test_model_sibling_path(&weather_path, "pressure");
    let weather_model = empty_model()
        .with_submodel("temperature", &temperature_path)
        .with_submodel("pressure", &pressure_path);
    let mut ctx = context(
        vec![
            (&temperature_path, empty_model()),
            (&pressure_path, empty_model()),
            (&weather_path, weather_model),
        ],
        vec![],
    );
    resolve_model_imports(&model_path, vec![&weather_import], &mut ctx);
    assert_has_submodels(&ctx, &[("weather_model", &weather_path)]);
    assert_has_extracted_submodels(
        &ctx,
        &[
            ("temp", "weather_model", vec!["temperature"]),
            ("press", "weather_model", vec!["pressure"]),
        ],
    );
    assert_has_references(
        &ctx,
        &[
            ("weather_model", &weather_path),
            ("temp", &temperature_path),
            ("press", &pressure_path),
        ],
    );
    assert_no_errors(&ctx);
}

#[test]
fn resolve_reference() {
    let temp_model = use_decl(&[], "temperature", &[], None, ModelKind::Reference, None);
    let model_path = test_model_path("/parent_model");
    let temperature_path = test_model_sibling_path(&model_path, "temperature");
    let mut ctx = context(vec![(&temperature_path, empty_model())], vec![]);
    resolve_model_imports(&model_path, vec![&temp_model], &mut ctx);
    assert_has_submodels(&ctx, &[]);
    assert_has_references(&ctx, &[("temperature", &temperature_path)]);
    assert_no_errors(&ctx);
}

#[test]
fn resolve_reference_with_alias() {
    let temp_model = use_decl(&[], "temperature", &[], Some("temp"), ModelKind::Reference, None);
    let model_path = test_model_path("/parent_model");
    let temperature_path = test_model_sibling_path(&model_path, "temperature");
    let mut ctx = context(vec![(&temperature_path, empty_model())], vec![]);
    resolve_model_imports(&model_path, vec![&temp_model], &mut ctx);
    assert_has_submodels(&ctx, &[]);
    assert_has_references(&ctx, &[("temp", &temperature_path)]);
    assert_no_errors(&ctx);
}

#[test]
fn resolve_reference_with_alias_and_submodels() {
    let pressure_submodel = model_info("pressure", &[], Some("press"));
    let temp_model = use_decl(
        &[],
        "temperature",
        &[],
        Some("temp"),
        ModelKind::Reference,
        Some(vec![pressure_submodel]),
    );
    let model_path = test_model_path("/parent_model");
    let temperature_path = test_model_sibling_path(&model_path, "temperature");
    let pressure_path = test_model_sibling_path(&temperature_path, "pressure");
    let temperature_model = empty_model().with_submodel("pressure", &pressure_path);
    let mut ctx = context(
        vec![(&pressure_path, empty_model()), (&temperature_path, temperature_model)],
        vec![],
    );
    resolve_model_imports(&model_path, vec![&temp_model], &mut ctx);
    assert_has_submodels(&ctx, &[]);
    assert_has_extracted_submodels(&ctx, &[("press", "temp", vec!["pressure"])]);
    assert_has_references(&ctx, &[("temp", &temperature_path), ("press", &pressure_path)]);
    assert_no_errors(&ctx);
}

#[test]
fn resolve_duplicate_reference_keeps_original() {
    let first = use_decl(&[], "temperature", &[], Some("temp"), ModelKind::Reference, None);
    let second = use_decl(&[], "pressure", &[], Some("temp"), ModelKind::Reference, None);
    let model_path = test_model_path("/parent_model");
    let temperature_path = test_model_sibling_path(&model_path, "temperature");
    let pressure_path = test_model_sibling_path(&model_path, "pressure");
    let mut ctx = context(
        vec![(&temperature_path, empty_model()), (&pressure_path, empty_model())],
        vec![],
    );
    resolve_model_imports(&model_path, vec![&first, &second], &mut ctx);
    assert_has_references(&ctx, &[("temp", &temperature_path)]);
    let (submodel_name, error) = single_error(&ctx, "temp");
    assert_eq!(submodel_name, &None);
    let ModelImportResolutionError::DuplicateReference { reference_name, .. } = error else {
        panic!("Expected DuplicateReference, got {error:?}");
    };
    assert_eq!(reference_name.as_str(), "temp");
}

#[test]
fn resolve_failing_model_reports_with_items() {
    let pressure_submodel = model_info("pressure", &[], Some("press"));
    let weather_import = use_decl(
        &[],
        "weather",
        &[],
        None,
        ModelKind::Submodel,
        Some(vec![pressure_submodel]),
    );
    let model_path = test_model_path("/parent_model");
    let weather_path = test_model_sibling_path(&model_path, "weather");
    let mut ctx = context(vec![], vec![&weather_path]);
    resolve_model_imports(&model_path, vec![&weather_import], &mut ctx);
    assert_has_references(&ctx, &[]);
    let errors = ctx.get_active_model_model_import_errors();
    assert_eq!(errors.len(), 2);
    let (_, weather_error) = errors.get(&"weather".to_string()).expect("error for weather");
    assert_model_has_error(weather_error, &weather_path);
    let (parent, press_error) = errors.get(&"press".to_string()).expect("error for press");
    assert_eq!(parent, &Some("weather".to_string()));
    let ModelImportResolutionError::ParentModelHasError { parent_model_name, reference_name, .. } =
        press_error
    else {
        panic!("Expected ParentModelHasError, got {press_error:?}");
    };
    assert_eq!(parent_model_name.as_str(), "weather");
    assert_eq!(reference_name.as_str(), "press");
}
