use oneil::analysis::{IndependentsErrors, Tree, TreeErrors, TreeModelError};
use oneil::paths::ModelPath;

fn path(s: &str) -> ModelPath {
    ModelPath::new(s.to_string())
}

#[test]
fn tree_holds_value_and_children() {
    let leaf = Tree::new(2, vec![]);
    let tree = Tree::new(1, vec![leaf, Tree::new(3, vec![])]);
    assert_eq!(*tree.value(), 1);
    assert_eq!(tree.children().len(), 2);
    assert_eq!(*tree.children()[1].value(), 3);
    assert!(tree.children()[0].children().is_empty());
}

#[test]
fn tree_errors_first_error_of_a_model_is_local() {
    let mut errors = TreeErrors::empty();
    errors.insert_parameter_error(path("/a"), "x".to_string());
    errors.insert_test_error(path("/b"), 3);
    errors.insert_parameter_error(path("/a"), "y".to_string());
    let paths: Vec<&str> = errors.model_paths().into_iter().map(|p| p.as_str()).collect();
    assert_eq!(paths, vec!["/a", "/b"]);
    match errors.errors.get(&"/a".to_string()) {
        Some(TreeModelError::LocalErrors { parameters, tests }) => {
            assert_eq!(parameters, &vec!["x".to_string(), "y".to_string()]);
            assert!(tests.is_empty());
        },
        other => panic!("unexpected {:?}", other),
    }
    match errors.errors.get(&"/b".to_string()) {
        Some(TreeModelError::LocalErrors { parameters, tests }) => {
            assert!(parameters.is_empty());
            assert_eq!(tests, &vec![3]);
        },
        other => panic!("unexpected {:?}", other),
    }
    errors.insert_model_error(path("/a"));
    errors.insert_parameter_error(path("/a"), "z".to_string());
    assert!(matches!(errors.errors.get(&"/a".to_string()), Some(TreeModelError::ModelError)));
}

#[test]
fn tree_model_error_local_errors_collect_distinct() {
    let mut e = TreeModelError::LocalErrors { parameters: vec![], tests: vec![] };
    e.insert_parameter_error("x".to_string());
    e.insert_parameter_error("y".to_string());
    e.insert_parameter_error("x".to_string());
    e.insert_test_error(1);
    e.insert_test_error(1);
    let TreeModelError::LocalErrors { parameters, tests } = &e else {
        panic!("expected local errors");
    };
    assert_eq!(parameters, &vec!["x".to_string(), "y".to_string()]);
    assert_eq!(tests, &vec![1]);

    let other = TreeModelError::LocalErrors { parameters: vec!["z".to_string(), "x".to_string()], tests: vec![2] };
    e.extend(other);
    let TreeModelError::LocalErrors { parameters, tests } = &e else {
        panic!("expected local errors");
    };
    assert_eq!(parameters, &vec!["x".to_string(), "y".to_string(), "z".to_string()]);
    assert_eq!(tests, &vec![1, 2]);

    e.extend(TreeModelError::ModelError);
    assert!(matches!(e, TreeModelError::ModelError));
    e.insert_parameter_error("w".to_string());
    assert!(matches!(e, TreeModelError::ModelError));
}

#[test]
fn tree_errors_extend_merges_by_model() {
    let mut a = TreeErrors::empty();
    a.insert_model_error(path("/a"));
    let mut b = TreeErrors::empty();
    b.insert_model_error(path("/b"));
    b.insert_model_error(path("/a"));
    let mut c = TreeErrors::empty();
    c.insert_test_error(path("/c"), 1);
    b.extend(c);
    a.extend(b);
    let paths: Vec<&str> = a.model_paths().into_iter().map(|p| p.as_str()).collect();
    assert_eq!(paths, vec!["/a", "/b", "/c"]);
    assert!(matches!(a.errors.get(&"/c".to_string()), Some(TreeModelError::LocalErrors { .. })));
}

#[test]
fn independents_errors_are_distinct_in_order() {
    let mut e = IndependentsErrors::new();
    assert!(e.is_empty());
    e.insert(path("/a"));
    e.insert(path("/b"));
    e.insert(path("/a"));
    let mut other = IndependentsErrors::new();
    other.insert(path("/c"));
    other.insert(path("/b"));
    e.extend(other);
    assert!(!e.is_empty());
    assert_eq!(e.paths(), &["/a".to_string(), "/b".to_string(), "/c".to_string()]);
}
