use oneil::print::{print_settings, should_print, PrintLevel, TraceLevel};

#[test]
fn print_settings_for_each_marker() {
    assert_eq!(print_settings(TraceLevel::Off, false), (PrintLevel::Off, false));
    assert_eq!(print_settings(TraceLevel::Trace, false), (PrintLevel::Trace, false));
    assert_eq!(print_settings(TraceLevel::Debug, false), (PrintLevel::Trace, true));
    assert_eq!(print_settings(TraceLevel::Off, true), (PrintLevel::Performance, false));
    assert_eq!(print_settings(TraceLevel::Trace, true), (PrintLevel::Performance, false));
    assert_eq!(print_settings(TraceLevel::Debug, true), (PrintLevel::Performance, true));
}

#[test]
fn should_print_at_lower_or_equal_levels() {
    assert!(should_print(PrintLevel::Performance, PrintLevel::Off));
    assert!(should_print(PrintLevel::Performance, PrintLevel::Trace));
    assert!(should_print(PrintLevel::Trace, PrintLevel::Trace));
    assert!(!should_print(PrintLevel::Trace, PrintLevel::Performance));
    assert!(!should_print(PrintLevel::Off, PrintLevel::Trace));
    assert!(should_print(PrintLevel::Off, PrintLevel::Off));
}

#[test]
fn print_level_order_and_names() {
    assert!(PrintLevel::Off < PrintLevel::Trace);
    assert!(PrintLevel::Trace < PrintLevel::Performance);
    assert_eq!(PrintLevel::Off.as_str(), "none");
    assert_eq!(PrintLevel::Trace.as_str(), "trace");
    assert_eq!(PrintLevel::Performance.as_str(), "performance");
    assert_eq!(PrintLevel::Performance.rank(), 2);
}
