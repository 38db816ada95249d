use oneil::dependency_graph::{dependency_set, get_dependency_graph, DependencyEdge};
use oneil::imports::{ReferenceImport, SubmodelImport};
use oneil::ir::{Dependencies, Expr, Limits, Model, Parameter, ParameterValue, Test};
use oneil::ordmap::OrderedMap;
use oneil::paths::ModelPath;
use oneil::print::TraceLevel;
use oneil::span::Span;

fn sp(a: usize, b: usize) -> Span {
    Span::new(a, b)
}

fn param(name: &str, deps: Dependencies) -> Parameter {
    Parameter {
        name: name.to_string(),
        name_span: sp(0, name.len()),
        span: sp(0, 10),
        value: ParameterValue::Simple(Expr::Literal { span: sp(5, 6) }),
        limits: Limits::Default,
        dependencies: deps,
    }
}

fn models() -> OrderedMap<Model> {
    let mut main = Model::new(ModelPath::new("/m/main".to_string()));
    main.add_reference(
        "sat".to_string(),
        ReferenceImport::new("sat".to_string(), sp(0, 3), ModelPath::new("/m/sat".to_string())),
    );
    main.add_submodel("cam".to_string(), SubmodelImport::new("cam".to_string(), sp(4, 7), "sat".to_string()));
    let mut x_deps = Dependencies::new();
    x_deps.builtin.push(("pi".to_string(), sp(20, 22)));
    x_deps.parameter.push(("y".to_string(), sp(25, 26)));
    x_deps.external.push((("sat".to_string(), "mass".to_string()), sp(30, 38)));
    x_deps.external.push((("nowhere".to_string(), "q".to_string()), sp(40, 49)));
    x_deps.external.push((("cam".to_string(), "focus".to_string()), sp(50, 59)));
    main.add_parameter("x".to_string(), param("x", x_deps));
    main.add_parameter("y".to_string(), param("y", Dependencies::new()));
    let mut t_deps = Dependencies::new();
    t_deps.parameter.push(("x".to_string(), sp(70, 71)));
    t_deps.external.push((("sat".to_string(), "mass".to_string()), sp(72, 80)));
    main.add_test(0, Test::new(sp(60, 90), TraceLevel::Off, Expr::Literal { span: sp(65, 66) }, t_deps, None));
    let sat = Model::new(ModelPath::new("/m/sat".to_string()));
    let mut ms = OrderedMap::new();
    ms.insert("/m/main".to_string(), main);
    ms.insert("/m/sat".to_string(), sat);
    ms
}

#[test]
fn dependency_graph_lists_each_read_in_order() {
    let g = get_dependency_graph(&models());
    assert_eq!(g.edges.len(), 6);
    match &g.edges[0] {
        DependencyEdge::Builtin { model_path, parameter_name, name } => {
            assert_eq!(model_path.as_str(), "/m/main");
            assert_eq!(parameter_name, "x");
            assert_eq!(name, "pi");
        }
        other => panic!("unexpected edge {:?}", other),
    }
    match &g.edges[1] {
        DependencyEdge::Parameter { parameter_name, dependency, .. } => {
            assert_eq!(parameter_name, "x");
            assert_eq!(dependency, "y");
        }
        other => panic!("unexpected edge {:?}", other),
    }
    match &g.edges[2] {
        DependencyEdge::External { parameter_name, dependency, .. } => {
            assert_eq!(parameter_name, "x");
            assert_eq!(dependency.model_path.as_str(), "/m/sat");
            assert_eq!(dependency.reference_name, "sat");
            assert_eq!(dependency.parameter_name, "mass");
        }
        other => panic!("unexpected edge {:?}", other),
    }
    match &g.edges[3] {
        DependencyEdge::External { dependency, .. } => {
            assert_eq!(dependency.model_path.as_str(), "/m/sat");
            assert_eq!(dependency.reference_name, "cam");
            assert_eq!(dependency.parameter_name, "focus");
        }
        other => panic!("unexpected edge {:?}", other),
    }
    match &g.edges[4] {
        DependencyEdge::TestParameter { model_path, test_index, dependency } => {
            assert_eq!(model_path.as_str(), "/m/main");
            assert_eq!(*test_index, 0);
            assert_eq!(dependency, "x");
        }
        other => panic!("unexpected edge {:?}", other),
    }
    match &g.edges[5] {
        DependencyEdge::TestExternal { test_index, dependency, .. } => {
            assert_eq!(*test_index, 0);
            assert_eq!(dependency.parameter_name, "mass");
        }
        other => panic!("unexpected edge {:?}", other),
    }
}

#[test]
fn dependency_graph_of_models_without_reads_is_empty() {
    let mut ms = OrderedMap::new();
    ms.insert("/m/a".to_string(), Model::new(ModelPath::new("/m/a".to_string())));
    assert!(get_dependency_graph(&ms).edges.is_empty());
}

#[test]
fn dependency_set_lists_each_read_once() {
    let mut d = Dependencies::new();
    d.builtin.push(("pi".to_string(), sp(0, 2)));
    d.builtin.push(("e".to_string(), sp(3, 4)));
    d.builtin.push(("pi".to_string(), sp(5, 7)));
    d.parameter.push(("y".to_string(), sp(8, 9)));
    d.parameter.push(("y".to_string(), sp(10, 11)));
    d.external.push((("sat".to_string(), "mass".to_string()), sp(12, 20)));
    d.external.push((("sat".to_string(), "size".to_string()), sp(21, 29)));
    d.external.push((("sat".to_string(), "mass".to_string()), sp(30, 38)));
    let s = dependency_set(&d);
    assert_eq!(s.builtin, vec!["pi".to_string(), "e".to_string()]);
    assert_eq!(s.parameter, vec!["y".to_string()]);
    assert_eq!(
        s.external,
        vec![("sat".to_string(), "mass".to_string()), ("sat".to_string(), "size".to_string())]
    );
}
