use oneil::diagnostics::{
    build_diagnostic_message, context_to_string, error_location_to_range, Position, Range,
};
use oneil::errors::ErrorContext;

#[test]
fn notes_are_prefixed() {
    assert_eq!(context_to_string(&ErrorContext::Note("n".to_string())), "note: n");
    assert_eq!(context_to_string(&ErrorContext::Help("h".to_string())), "help: h");
}

#[test]
fn message_with_and_without_notes() {
    assert_eq!(build_diagnostic_message("bad", &[]), "bad");
    let notes = vec![ErrorContext::Help("try x".to_string()), ErrorContext::Note("see y".to_string())];
    assert_eq!(build_diagnostic_message("bad", &notes), "bad\n\nhelp: try x\nnote: see y");
}

#[test]
fn location_ranges_are_zero_based() {
    let r = error_location_to_range(3, 5, 4);
    assert_eq!(
        r,
        Range { start: Position { line: 2, character: 4 }, end: Position { line: 2, character: 8 } }
    );
    let r = error_location_to_range(0, 0, 0);
    assert_eq!(r.start, Position { line: 0, character: 0 });
    let r = error_location_to_range(1, 1, usize::MAX);
    assert_eq!(r.end.character, u32::MAX);
}
