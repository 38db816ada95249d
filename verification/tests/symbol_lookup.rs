use oneil::imports::{ReferenceImport, SubmodelImport};
use oneil::ir::Test;
use oneil::print::TraceLevel;
use oneil::ir::{Dependencies, Expr, FunctionName, Limits, Model, Parameter, ParameterValue, PiecewiseExpr, PythonImport, Variable};
use oneil::paths::ModelPath;
use oneil::span::Span;
use oneil::symbol_lookup::{definition_model, find_symbol_at_offset, resolve_definition, DefinitionSite, SymbolAtPosition};

fn sp(start: usize, end: usize) -> Span {
    Span::new(start, end)
}

fn param_var(name: &str, start: usize, end: usize) -> Expr {
    Expr::Variable {
        span: sp(start, end),
        variable: Variable::Parameter { parameter_name: name.to_string(), parameter_span: sp(start, end) },
    }
}

fn parameter(name: &str, name_span: Span, value: Expr) -> Parameter {
    Parameter {
        name: name.to_string(),
        name_span,
        span: name_span,
        value: ParameterValue::Simple(value),
        limits: Limits::Default,
        dependencies: Dependencies::new(),
    }
}

/// `x = y + sin(z)` with `x` at 0..1, `y` at 4..5, `sin` at 8..11, `z` at 12..13;
/// `w = 2 * d.sat` on the next line with `w` at 20..21, `d` at 28..29, `sat` at 30..33;
/// a reference `sat` at 40..43, a submodel `cam` at 50..53 through it, and a
/// Python import at 60..70.
fn sample_model() -> Model {
    let mut m = Model::new(ModelPath::new("/m/main".to_string()));
    let sum = Expr::BinaryOp {
        span: sp(4, 14),
        left: Box::new(param_var("y", 4, 5)),
        right: Box::new(Expr::FunctionCall {
            span: sp(8, 14),
            name_span: sp(8, 11),
            name: FunctionName::Builtin("sin".to_string(), sp(8, 11)),
            args: vec![param_var("z", 12, 13)],
        }),
    };
    m.add_parameter("x".to_string(), parameter("x", sp(0, 1), sum));
    let external = Expr::Variable {
        span: sp(28, 33),
        variable: Variable::External {
            model_path: ModelPath::new("/m/satellite".to_string()),
            reference_name: "sat".to_string(),
            reference_span: sp(30, 33),
            parameter_name: "d".to_string(),
            parameter_span: sp(28, 29),
        },
    };
    let product = Expr::BinaryOp {
        span: sp(24, 33),
        left: Box::new(Expr::Literal { span: sp(24, 25) }),
        right: Box::new(external),
    };
    m.add_parameter("w".to_string(), parameter("w", sp(20, 21), product));
    m.add_reference(
        "sat".to_string(),
        ReferenceImport::new("sat".to_string(), sp(40, 43), ModelPath::new("/m/satellite".to_string())),
    );
    m.add_reference(
        "camera".to_string(),
        ReferenceImport::new("camera".to_string(), sp(90, 96), ModelPath::new("/m/camera".to_string())),
    );
    m.add_submodel("cam".to_string(), SubmodelImport::new("cam".to_string(), sp(50, 53), "camera".to_string()));
    m.add_python_import(
        "helpers.py".to_string(),
        PythonImport::new("helpers.py".to_string(), sp(60, 70), vec!["area".to_string()]),
    );
    m
}

#[test]
fn symbol_on_parameter_name_is_its_definition() {
    let m = sample_model();
    let r = find_symbol_at_offset(&m, 0);
    assert!(matches!(r, Some(SymbolAtPosition::ParameterDefinition { span }) if span == sp(0, 1)));
}

#[test]
fn symbol_on_parameter_use() {
    let m = sample_model();
    let r = find_symbol_at_offset(&m, 4);
    assert!(matches!(r, Some(SymbolAtPosition::ParameterReference { name }) if name == "y"));
    let r = find_symbol_at_offset(&m, 12);
    assert!(matches!(r, Some(SymbolAtPosition::ParameterReference { name }) if name == "z"));
}

#[test]
fn symbol_on_function_name() {
    let m = sample_model();
    let r = find_symbol_at_offset(&m, 9);
    assert!(matches!(r, Some(SymbolAtPosition::BuiltinFunctionReference { name }) if name == "sin"));
}

#[test]
fn symbol_on_external_parts() {
    let m = sample_model();
    let r = find_symbol_at_offset(&m, 31);
    assert!(matches!(r, Some(SymbolAtPosition::ModelImportReference { reference_name }) if reference_name == "sat"));
    match find_symbol_at_offset(&m, 28) {
        Some(SymbolAtPosition::ExternalParameterReference { model_path, parameter_name }) => {
            assert_eq!(model_path.as_str(), "/m/satellite");
            assert_eq!(parameter_name, "d");
        },
        other => panic!("unexpected {:?}", other),
    }
}

#[test]
fn symbol_on_imports() {
    let m = sample_model();
    match find_symbol_at_offset(&m, 51) {
        Some(SymbolAtPosition::ModelImportDefinition { name, path }) => {
            assert_eq!(name, "cam");
            assert_eq!(path.as_str(), "/m/camera");
        },
        other => panic!("unexpected {:?}", other),
    }
    match find_symbol_at_offset(&m, 42) {
        Some(SymbolAtPosition::ModelImportDefinition { name, path }) => {
            assert_eq!(name, "sat");
            assert_eq!(path.as_str(), "/m/satellite");
        },
        other => panic!("unexpected {:?}", other),
    }
    let r = find_symbol_at_offset(&m, 65);
    assert!(matches!(r, Some(SymbolAtPosition::PythonImport { path }) if path == "helpers.py"));
}

#[test]
fn no_symbol_between_spans() {
    let m = sample_model();
    assert!(find_symbol_at_offset(&m, 2).is_none());
    assert!(find_symbol_at_offset(&m, 1).is_none());
    assert!(find_symbol_at_offset(&m, 24).is_none());
    assert!(find_symbol_at_offset(&m, 500).is_none());
}

#[test]
fn symbol_in_piecewise_and_limits() {
    let mut m = Model::new(ModelPath::new("/m/p".to_string()));
    let value = ParameterValue::Piecewise(vec![
        PiecewiseExpr { expr: Expr::Literal { span: sp(4, 5) }, if_expr: param_var("a", 9, 10) },
        PiecewiseExpr { expr: param_var("b", 12, 13), if_expr: Expr::Literal { span: sp(17, 18) } },
    ]);
    let limits = Limits::Discrete { values: vec![Expr::Literal { span: sp(20, 21) }, param_var("c", 23, 24)] };
    m.add_parameter("p".to_string(), Parameter { name: "p".to_string(), name_span: sp(0, 1), span: sp(0, 30), value, limits, dependencies: Dependencies::new() });
    assert!(matches!(find_symbol_at_offset(&m, 9), Some(SymbolAtPosition::ParameterReference { name }) if name == "a"));
    assert!(matches!(find_symbol_at_offset(&m, 12), Some(SymbolAtPosition::ParameterReference { name }) if name == "b"));
    assert!(matches!(find_symbol_at_offset(&m, 23), Some(SymbolAtPosition::ParameterReference { name }) if name == "c"));
    assert!(find_symbol_at_offset(&m, 17).is_none());
}

#[test]
fn chained_comparison_searches_every_operand() {
    let mut m = Model::new(ModelPath::new("/m/c".to_string()));
    let cmp = Expr::ComparisonOp {
        span: sp(4, 20),
        left: Box::new(Expr::Literal { span: sp(4, 5) }),
        right: Box::new(param_var("lo", 8, 10)),
        rest_chained: vec![param_var("hi", 13, 15)],
    };
    let call = Expr::FunctionCall {
        span: sp(30, 40),
        name_span: sp(30, 34),
        name: FunctionName::Imported { python_path: "geo.py".to_string(), name: "area".to_string(), name_span: sp(30, 34) },
        args: vec![],
    };
    m.add_parameter("t".to_string(), parameter("t", sp(0, 1), cmp));
    m.add_parameter("u".to_string(), parameter("u", sp(26, 27), call));
    assert!(matches!(find_symbol_at_offset(&m, 14), Some(SymbolAtPosition::ParameterReference { name }) if name == "hi"));
    assert!(matches!(
        find_symbol_at_offset(&m, 31),
        Some(SymbolAtPosition::PythonFunctionReference { python_path, name }) if python_path == "geo.py" && name == "area"
    ));
}

#[test]
fn definitions_resolve_in_the_loaded_model() {
    let m = sample_model();
    let current = ModelPath::new("/m/main".to_string());
    let use_of_x = SymbolAtPosition::ParameterReference { name: "x".to_string() };
    assert_eq!(definition_model(&use_of_x, &current).expect("model").as_str(), "/m/main");
    match resolve_definition(&use_of_x, Some(&m), &current) {
        Some(DefinitionSite::InModel { path, span }) => {
            assert_eq!(path.as_str(), "/m/main");
            assert_eq!(span, sp(0, 1));
        },
        other => panic!("unexpected {:?}", other),
    }
    assert!(resolve_definition(&use_of_x, None, &current).is_none());
    let missing = SymbolAtPosition::ParameterReference { name: "nope".to_string() };
    assert!(resolve_definition(&missing, Some(&m), &current).is_none());
    let reference = SymbolAtPosition::ModelImportReference { reference_name: "sat".to_string() };
    assert!(matches!(resolve_definition(&reference, Some(&m), &current), Some(DefinitionSite::InModel { span, .. }) if span == sp(40, 43)));
    let function = SymbolAtPosition::PythonFunctionReference { python_path: "helpers.py".to_string(), name: "area".to_string() };
    assert!(matches!(resolve_definition(&function, Some(&m), &current), Some(DefinitionSite::InModel { span, .. }) if span == sp(60, 70)));
}

#[test]
fn definitions_without_loading() {
    let current = ModelPath::new("/m/main".to_string());
    let import = SymbolAtPosition::ModelImportDefinition { name: "sat".to_string(), path: ModelPath::new("/m/satellite".to_string()) };
    assert!(definition_model(&import, &current).is_none());
    assert!(matches!(resolve_definition(&import, None, &current), Some(DefinitionSite::FileStart { path }) if path == "/m/satellite"));
    let builtin = SymbolAtPosition::BuiltinFunctionReference { name: "sin".to_string() };
    assert!(resolve_definition(&builtin, None, &current).is_none());
    let external = SymbolAtPosition::ExternalParameterReference {
        model_path: ModelPath::new("/m/satellite".to_string()),
        parameter_name: "d".to_string(),
    };
    assert_eq!(definition_model(&external, &current).expect("model").as_str(), "/m/satellite");
}

#[test]
fn definition_under_cursor_stays_put() {
    let m = sample_model();
    let current = ModelPath::new("/m/main".to_string());
    let found = find_symbol_at_offset(&m, 20).expect("symbol");
    match resolve_definition(&found, None, &current) {
        Some(DefinitionSite::InModel { path, span }) => {
            assert_eq!(path.as_str(), "/m/main");
            assert_eq!(span, sp(20, 21));
        },
        other => panic!("unexpected {:?}", other),
    }
}

#[test]
fn model_getters_and_adders() {
    let mut m = sample_model();
    assert_eq!(m.get_path().as_str(), "/m/main");
    assert_eq!(m.get_parameters().len(), 2);
    assert_eq!(m.get_parameter(&"w".to_string()).expect("w").name_span, sp(20, 21));
    assert!(m.get_parameter(&"q".to_string()).is_none());
    assert_eq!(m.get_submodel(&"cam".to_string()).expect("cam").reference_name(), "camera");
    assert_eq!(m.get_submodel_reference(&"cam".to_string()).expect("ref").path().as_str(), "/m/camera");
    assert_eq!(m.get_reference(&"sat".to_string()).expect("sat").name_span(), sp(40, 43));
    assert_eq!(m.get_references().len(), 2);
    assert_eq!(m.get_submodels().len(), 1);
    assert_eq!(m.get_python_imports().len(), 1);
    assert!(m.design_target().is_none());
    assert!(m.note().is_none());
    m.set_note("A small satellite.".to_string());
    assert_eq!(m.note().map(|n| n.as_str()), Some("A small satellite."));
    m.set_design_target(Some(ModelPath::new("/m/satellite".to_string())));
    assert_eq!(m.design_target().expect("target").as_str(), "/m/satellite");
    m.add_parameter("w".to_string(), parameter("w", sp(100, 101), Expr::Literal { span: sp(104, 105) }));
    assert_eq!(m.get_parameters().len(), 2);
    assert_eq!(m.get_parameter(&"w".to_string()).expect("w").name_span, sp(100, 101));
}

#[test]
fn model_tests_by_index() {
    let mut m = Model::new(ModelPath::new("/m/t".to_string()));
    assert!(m.get_tests().is_empty());
    m.add_test(0, Test::new(sp(0, 5), TraceLevel::Off, Expr::Literal { span: sp(1, 2) }, Dependencies::new(), None));
    m.add_test(1, Test::new(sp(6, 9), TraceLevel::Trace, param_var("x", 7, 8), Dependencies::new(), Some("checks".to_string())));
    m.add_test(0, Test::new(sp(10, 12), TraceLevel::Debug, Expr::Literal { span: sp(11, 12) }, Dependencies::new(), None));
    let tests = m.get_tests();
    assert_eq!(tests.len(), 2);
    assert_eq!(tests[0].0, 0);
    assert_eq!(tests[0].1.span(), sp(10, 12));
    assert_eq!(tests[0].1.trace_level(), TraceLevel::Debug);
    assert_eq!(tests[1].1.section_label().map(|s| s.as_str()), Some("checks"));
    let mut t = Test::new(sp(0, 3), TraceLevel::Off, Expr::Literal { span: sp(0, 1) }, Dependencies::new(), None);
    *t.expr_mut() = param_var("y", 1, 2);
    assert!(matches!(t.expr(), Expr::Variable { .. }));
}

#[test]
fn model_names() {
    let n = oneil::ast::ModelName::from("satellite".to_string());
    assert_eq!(n.as_str(), "satellite");
    assert_eq!(n.into_string(), "satellite");
    let m = oneil::ir::ModelName::new("camera".to_string(), sp(4, 10));
    assert_eq!(m.as_str(), "camera");
    assert_eq!(m.span(), sp(4, 10));
    assert_eq!(m.into_string(), "camera");
}
