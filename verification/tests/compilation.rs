use oneil::compilation::{CompilationCycleError, CompilationUnit, DesignPath};
use oneil::errors::{DiagnosticKind, ErrorContext};
use oneil::paths::ModelPath;
use oneil::span::Span;

fn model(p: &str) -> CompilationUnit {
    CompilationUnit::from(ModelPath::new(p.to_string()))
}

#[test]
fn unit_kinds_and_paths() {
    let m = model("/m/a.on");
    assert!(m.is_model());
    assert!(!m.is_design());
    assert_eq!(m.source_path().as_str(), "/m/a.on");
    let d = CompilationUnit::from(DesignPath::new("/m/heavy.one".to_string()));
    assert!(d.is_design());
    assert!(!d.is_model());
    assert_eq!(d.source_path().as_str(), "/m/heavy.one");
    assert_eq!(d.to_display_string(), "/m/heavy.one");
}

#[test]
fn cycle_error_message_lists_the_chain() {
    let e = CompilationCycleError::new(
        vec![model("/m/b.on"), model("/m/c.on"), model("/m/b.on")],
        ModelPath::new("/m/b.on".to_string()),
        Span::new(12, 20),
    );
    assert_eq!(e.message(), "compilation cycle detected: /m/b.on -> /m/c.on -> /m/b.on");
    assert_eq!(e.cycle().len(), 3);
    assert_eq!(e.source_path().as_str(), "/m/b.on");
    assert_eq!(e.span(), Span::new(12, 20));
    assert_eq!(e.diagnostic_location(), Some(Span::new(12, 20)));
    assert_eq!(e.kind(), DiagnosticKind::Error);
    let ctx = e.context();
    assert_eq!(ctx.len(), 1);
    assert!(matches!(&ctx[0], ErrorContext::Help(h) if h == "break the cycle by removing one of the references along the chain"));
}

#[test]
fn self_cycle_is_two_entries() {
    let e = CompilationCycleError::new(
        vec![model("/m/a.on"), model("/m/a.on")],
        ModelPath::new("/m/a.on".to_string()),
        Span::new(0, 3),
    );
    assert_eq!(e.message(), "compilation cycle detected: /m/a.on -> /m/a.on");
}

#[test]
fn design_files_require_their_header() {
    let design = ModelPath::new("/m/heavy.one".to_string());
    let model = ModelPath::new("/m/sat.on".to_string());
    assert!(design.is_design_file());
    assert!(!model.is_design_file());
    assert!(!ModelPath::new("one".to_string()).is_design_file());
    let c = oneil::parser::Config::for_model_path(&design, "/m/heavy.one".to_string(), "design sat\n".to_string());
    assert!(c.require_design_header);
    assert!(!c.allow_design_shorthand);
    assert_eq!(c.source, "design sat\n");
    let c = oneil::parser::Config::for_model_path(&model, "/m/sat.on".to_string(), String::new());
    assert!(!c.require_design_header);
}
