use oneil::errors::{ParameterResolutionError, VariableResolutionError};
use oneil::paths::ModelPath;
use oneil::resolution_errors::ResolutionErrorCollection;
use oneil::resolver::ModelImportResolutionError;
use oneil::span::Span;

fn collection() -> ResolutionErrorCollection<String, String> {
    ResolutionErrorCollection::empty()
}

fn duplicate(name: &str, at: usize) -> ParameterResolutionError {
    ParameterResolutionError::duplicate_parameter(name.to_string(), Span::new(0, 1), Span::new(at, at + 1))
}

#[test]
fn empty_collection_has_no_errors() {
    let c = collection();
    assert!(c.is_empty());
    assert!(c.get_circular_dependency_errors().is_empty());
    assert!(c.get_parameter_resolution_errors().is_empty());
    assert!(c.get_test_resolution_errors().is_empty());
}

#[test]
fn each_kind_makes_the_collection_non_empty() {
    let mut c = collection();
    c.add_circular_dependency_error("a -> b -> a".to_string());
    assert!(!c.is_empty());
    assert_eq!(c.get_circular_dependency_errors(), &["a -> b -> a".to_string()]);

    let mut c = collection();
    c.add_import_error("helpers.py".to_string(), "not found".to_string());
    assert!(!c.is_empty());
    assert_eq!(c.get_python_import_resolution_errors().get(&"helpers.py".to_string()), Some(&"not found".to_string()));

    let mut c = collection();
    let err = ModelImportResolutionError::ModelHasError {
        model_path: ModelPath::new("/m/broken".to_string()),
        reference_span: Span::new(3, 9),
    };
    c.add_model_import_resolution_error("broken".to_string(), Some("b".to_string()), err);
    assert!(!c.is_empty());
    let (sub, _) = c.get_model_import_resolution_errors().get(&"broken".to_string()).expect("entry");
    assert_eq!(sub.as_deref(), Some("b"));

    let mut c = collection();
    c.add_test_error(2, VariableResolutionError::undefined_reference("r".to_string(), Span::new(1, 2), None));
    assert!(!c.is_empty());
}

#[test]
fn parameter_errors_accumulate_in_place() {
    let mut c = collection();
    c.add_parameter_error("x".to_string(), duplicate("x", 10));
    c.add_parameter_error("y".to_string(), duplicate("y", 20));
    c.add_parameter_error("x".to_string(), duplicate("x", 30));
    let params = c.get_parameter_resolution_errors();
    assert_eq!(params.len(), 2);
    assert_eq!(params.entries[0].0, "x");
    assert_eq!(params.entries[1].0, "y");
    let xs = params.get(&"x".to_string()).expect("x");
    assert_eq!(xs.len(), 2);
    assert_eq!(xs[0].error_span(), Span::new(10, 11));
    assert_eq!(xs[1].error_span(), Span::new(30, 31));
}

#[test]
fn test_errors_accumulate_by_index() {
    let mut c = collection();
    c.add_test_error(1, VariableResolutionError::undefined_reference("a".to_string(), Span::new(1, 2), None));
    c.add_test_error(0, VariableResolutionError::undefined_reference("b".to_string(), Span::new(3, 4), None));
    c.add_test_error(1, VariableResolutionError::undefined_reference("c".to_string(), Span::new(5, 6), None));
    let tests = c.get_test_resolution_errors();
    assert_eq!(tests.len(), 2);
    assert_eq!(tests[0].0, 1);
    assert_eq!(tests[0].1.len(), 2);
    assert_eq!(tests[0].1[1].error_span(), Span::new(5, 6));
    assert_eq!(tests[1].0, 0);
    let (circular, _, _, parameters, tests) = c.into_parts();
    assert!(circular.is_empty());
    assert!(parameters.is_empty());
    assert_eq!(tests.len(), 2);
}
