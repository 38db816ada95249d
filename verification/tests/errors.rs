use oneil::paths::ModelPath;
use oneil::span::Span;
use oneil::errors::{
    DiagnosticKind, ErrorContext, EvalWarning, ParameterResolutionError, UnitResolutionError,
    VariableResolutionError,
};

fn span(a: usize, b: usize) -> Span {
    Span::new(a, b)
}

#[test]
fn messages_of_each_error() {
    let e = VariableResolutionError::model_has_error(ModelPath::new("/m/sat".to_string()), span(1, 2));
    assert_eq!(e.message(), "model `/m/sat` has errors");
    assert!(e.is_internal_error());
    let e = VariableResolutionError::parameter_has_error("mass".to_string(), span(3, 7));
    assert_eq!(e.message(), "parameter `mass` has errors");
    assert_eq!(e.error_span(), span(3, 7));
    let e = VariableResolutionError::reference_resolution_failed("sub".to_string(), span(0, 3));
    assert_eq!(e.message(), "unable to resolve submodel `sub`");
    let e = VariableResolutionError::undefined_parameter("x".to_string(), span(0, 1), None);
    assert_eq!(e.message(), "parameter `x` is not defined in the current model");
    assert!(!e.is_internal_error());
    let e = VariableResolutionError::undefined_parameter_in_reference(
        ModelPath::new("/m/other".to_string()),
        "x".to_string(),
        span(0, 1),
        None,
    );
    assert_eq!(e.message(), "parameter `x` is not defined in model `/m/other`");
    let e = VariableResolutionError::undefined_reference("r".to_string(), span(0, 1), None);
    assert_eq!(e.message(), "reference `r` is not defined in the current model");
    let e = VariableResolutionError::undefined_function("f".to_string(), span(4, 5), None);
    assert_eq!(e.message(), "function `f` is not defined as a builtin or in any Python import");
    assert_eq!(e.error_span(), span(4, 5));
    let e = VariableResolutionError::multiple_functions_found("g".to_string(), span(0, 1), vec![]);
    assert_eq!(e.message(), "function `g` is defined in multiple Python imports");
    let e: VariableResolutionError = UnitResolutionError::new("kgg".to_string(), span(9, 12)).into();
    assert_eq!(e.message(), "unknown unit `kgg`");
    assert_eq!(e.error_span(), span(9, 12));
}

#[test]
fn context_suggests_best_match() {
    let e = VariableResolutionError::undefined_parameter("mas".to_string(), span(0, 3), Some("mass".to_string()));
    let ctx = e.context();
    assert_eq!(ctx.len(), 1);
    assert!(matches!(&ctx[0], ErrorContext::Help(s) if s == "did you mean `mass`?"));
    let e = VariableResolutionError::undefined_reference("r".to_string(), span(0, 1), None);
    assert!(e.context().is_empty());
}

#[test]
fn context_lists_python_imports() {
    let e = VariableResolutionError::multiple_functions_found(
        "g".to_string(),
        span(0, 1),
        vec!["lib/a".to_string(), "lib/b".to_string()],
    );
    let ctx = e.context();
    assert_eq!(ctx.len(), 2);
    assert!(matches!(&ctx[0], ErrorContext::Note(s) if s == "python import `lib/a` exports `g`"));
    assert!(matches!(&ctx[1], ErrorContext::Note(s) if s == "python import `lib/b` exports `g`"));
}

#[test]
fn parameter_errors() {
    let e = ParameterResolutionError::duplicate_parameter("x".to_string(), span(1, 2), span(5, 6));
    assert_eq!(e.message(), "duplicate parameter `x`");
    assert_eq!(e.error_span(), span(5, 6));
    let ctx = e.context_with_spans();
    assert_eq!(ctx.len(), 1);
    assert!(matches!(&ctx[0], (ErrorContext::Note(s), Some(sp)) if s == "original parameter found here" && *sp == span(1, 2)));
    assert!(!e.is_internal_error());

    let v = VariableResolutionError::undefined_function("f".to_string(), span(0, 1), Some("g".to_string()));
    let e: ParameterResolutionError = v.into();
    assert_eq!(e.message(), "function `f` is not defined as a builtin or in any Python import");
    let ctx = e.context_with_spans();
    assert!(matches!(&ctx[0], (ErrorContext::Help(s), None) if s == "did you mean `g`?"));

    let e: ParameterResolutionError = UnitResolutionError::new("m/ss".to_string(), span(2, 6)).into();
    assert_eq!(e.message(), "unknown unit `m/ss`");
    assert!(e.context_with_spans().is_empty());
    let e = ParameterResolutionError::variable_resolution(VariableResolutionError::parameter_has_error(
        "p".to_string(),
        span(0, 1),
    ));
    assert!(e.is_internal_error());
}

#[test]
fn used_fallback_display() {
    let warning = EvalWarning::UsedFallback {
        function_name: "my_fn".to_string(),
        function_call_span: span(0, 1),
        message: "x".into(),
        traceback: None,
    };
    assert_eq!(warning.message(), "python function `my_fn` failed; using fallback");
}

#[test]
fn used_fallback_diagnostic_kind_and_context() {
    let warning = EvalWarning::UsedFallback {
        function_name: "f".to_string(),
        function_call_span: span(0, 1),
        message: "err".into(),
        traceback: Some("tb".into()),
    };
    assert_eq!(warning.kind(), DiagnosticKind::Warning);
    assert_eq!(warning.context().len(), 2);
    assert_eq!(warning.warning_span(), span(0, 1));
}

#[test]
fn only_parameter_has_error_is_hidden_from_the_editor() {
    let hidden = VariableResolutionError::parameter_has_error("mass".to_string(), span(3, 7));
    assert!(hidden.is_internal_diagnostic());
    let shown = VariableResolutionError::model_has_error(ModelPath::new("/m/sat".to_string()), span(1, 2));
    assert!(!shown.is_internal_diagnostic());
    let wrapped = ParameterResolutionError::variable_resolution(hidden);
    assert!(wrapped.is_internal_diagnostic());
    let duplicate = ParameterResolutionError::duplicate_parameter("x".to_string(), span(0, 1), span(5, 6));
    assert!(!duplicate.is_internal_diagnostic());
}
