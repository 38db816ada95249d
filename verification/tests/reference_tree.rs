use oneil::analysis::{GetTestValueError, TreeModelError};
use oneil::paths::ModelPath;
use oneil::reference_tree::{get_reference_tree_children, ReferenceSet, TestOutcome};
use oneil::span::Span;

fn mp(s: &str) -> ModelPath {
    ModelPath::new(s.to_string())
}

#[test]
fn reference_tree_children_list_readers_and_tests() {
    let deps = ReferenceSet {
        parameter: vec!["y".to_string()],
        external_parameter: vec![(mp("/m/other"), "z".to_string())],
        test: vec![0, 1, 2],
        external_test: vec![(mp("/m/other"), 4), (mp("/m/third"), 7)],
    };
    let lookups = vec![
        Some(Ok(TestOutcome { passed: true, expr_span: Span::new(3, 9) })),
        None,
        Some(Err(GetTestValueError::Test)),
        Some(Ok(TestOutcome { passed: false, expr_span: Span::new(10, 12) })),
        Some(Err(GetTestValueError::Model)),
    ];
    let r = get_reference_tree_children(&mp("/m/main"), &deps, &lookups);

    assert_eq!(r.parameter_children.len(), 2);
    assert_eq!(r.parameter_children[0].model_path.as_str(), "/m/main");
    assert_eq!(r.parameter_children[0].parameter_name, "y");
    assert!(r.parameter_children[0].reference_name.is_none());
    assert_eq!(r.parameter_children[1].model_path.as_str(), "/m/other");
    assert_eq!(r.parameter_children[1].parameter_name, "z");

    assert_eq!(r.test_children.len(), 2);
    let first = r.test_children[0].value();
    assert_eq!(first.model_path.as_str(), "/m/main");
    assert_eq!(first.test_index, 0);
    assert!(first.test_passed);
    assert_eq!(first.display_info.1, Span::new(3, 9));
    let second = r.test_children[1].value();
    assert_eq!(second.model_path.as_str(), "/m/other");
    assert_eq!(second.test_index, 4);
    assert!(!second.test_passed);
    assert!(r.test_children[1].children().is_empty());

    let errors = &r.test_errors.errors;
    assert_eq!(errors.len(), 2);
    match errors.get(&"/m/main".to_string()) {
        Some(TreeModelError::LocalErrors { parameters, tests }) => {
            assert!(parameters.is_empty());
            assert_eq!(tests, &vec![2]);
        }
        other => panic!("unexpected entry {:?}", other),
    }
    assert!(matches!(errors.get(&"/m/third".to_string()), Some(TreeModelError::ModelError)));
}

#[test]
fn reference_tree_children_of_an_unread_parameter_are_empty() {
    let deps = ReferenceSet { parameter: vec![], external_parameter: vec![], test: vec![], external_test: vec![] };
    let r = get_reference_tree_children(&mp("/m/main"), &deps, &vec![]);
    assert!(r.parameter_children.is_empty());
    assert!(r.test_children.is_empty());
    assert_eq!(r.test_errors.errors.len(), 0);
}
