use oneil::ast::{Decl, DeclNode, Directory, ModelKind, UseModel};
use oneil::parser::{
    decl_inner, directory_name, model_info, opt_directory_path, parse, parse_complete, Config,
    IncompleteKind, InputSpan, ParserError, ParserErrorReason, ExpectKind,
};

fn input(text: &str) -> InputSpan {
    InputSpan::new_extra(text, Config::default())
}

fn parse_ok(text: &str) -> (usize, DeclNode, InputSpan) {
    let inp = input(text);
    let (rest, decl) = parse(&inp, false).expect("parsing should succeed");
    (rest, decl, inp)
}

fn parse_complete_ok(text: &str) -> (usize, DeclNode, InputSpan) {
    let inp = input(text);
    let (rest, decl) = parse_complete(&inp).expect("parsing should succeed");
    (rest, decl, inp)
}

fn use_model(decl: &DeclNode) -> &UseModel {
    let Decl::UseModel(use_model_node) = decl.value() else {
        panic!("Expected use declaration");
    };
    use_model_node.value()
}

fn assert_rest_empty(inp: &InputSpan, rest: usize) {
    assert!(inp.fragment_from(rest).is_empty());
}

fn parse_err(text: &str) -> ParserError {
    match parse(&input(text), false) {
        Err(e) => e,
        Ok(_) => panic!("Expected error for {text:?}"),
    }
}

fn assert_failure(text: &str, offset: usize, kind: IncompleteKind, cs: usize, ce: usize) {
    let error = parse_err(text);
    assert_eq!(error.error_offset, offset, "offset for {text:?}");
    let ParserErrorReason::Incomplete { kind: k, cause } = error.reason else {
        panic!("Expected Incomplete for {text:?}, got {:?}", error.reason);
    };
    assert_eq!(k, kind, "kind for {text:?}");
    assert_eq!(cause.start, cs, "cause_start for {text:?}");
    assert_eq!(cause.end, ce, "cause_end for {text:?}");
}

#[test]
fn import_decl() {
    let (rest, decl, inp) = parse_ok("import foo\n");
    let Decl::Import(import_node) = decl.value() else {
        panic!("Expected import declaration");
    };
    let import_path = import_node.value().path();
    assert_eq!(import_path.value().as_str(), "foo");
    assert_eq!(import_path.span().start, 7);
    assert_eq!(import_path.span().end, 10);
    assert_rest_empty(&inp, rest);
}

#[test]
fn ref_decl() {
    let (rest, decl, inp) = parse_ok("ref foo\n");
    let um = use_model(&decl);
    let info = um.model_info().value();
    assert_eq!(info.top_component().value().as_str(), "foo");
    assert_eq!(info.subcomponents().len(), 0);
    assert_eq!(info.get_alias().value().as_str(), "foo");
    assert_eq!(um.model_kind(), ModelKind::Reference);
    assert_rest_empty(&inp, rest);
}

#[test]
fn use_decl() {
    let (rest, decl, inp) = parse_ok("use foo with bar as baz\n");
    let um = use_model(&decl);
    let info = um.model_info().value();
    assert_eq!(info.top_component().value().as_str(), "foo");
    assert_eq!(info.subcomponents().len(), 0);
    assert_eq!(info.get_alias().value().as_str(), "foo");
    assert_eq!(um.model_kind(), ModelKind::Submodel);
    let submodels = um.imported_submodels().expect("should have submodels").value().items();
    assert_eq!(submodels.len(), 1);
    assert_eq!(submodels[0].value().top_component().value().as_str(), "bar");
    assert_eq!(submodels[0].value().get_alias().value().as_str(), "baz");
    assert_rest_empty(&inp, rest);
}

#[test]
fn use_decl_without_alias() {
    let (rest, decl, inp) = parse_ok("use foo with bar\n");
    let um = use_model(&decl);
    let info = um.model_info().value();
    assert_eq!(info.top_component().value().as_str(), "foo");
    assert_eq!(info.subcomponents().len(), 0);
    assert_eq!(info.get_alias().value().as_str(), "foo");
    let submodels = um.imported_submodels().expect("should have submodels").value().items();
    assert_eq!(submodels.len(), 1);
    assert_eq!(submodels[0].value().top_component().value().as_str(), "bar");
    assert_eq!(submodels[0].value().get_alias().value().as_str(), "bar");
    assert_rest_empty(&inp, rest);
}

#[test]
fn use_decl_simple_without_alias() {
    let (rest, decl, inp) = parse_ok("use foo\n");
    let info = use_model(&decl).model_info().value();
    assert_eq!(info.top_component().value().as_str(), "foo");
    assert_eq!(info.subcomponents().len(), 0);
    assert_eq!(info.get_alias().value().as_str(), "foo");
    assert_rest_empty(&inp, rest);
}

#[test]
fn parse_complete_import_success() {
    let (rest, decl, inp) = parse_complete_ok("import foo\n");
    let Decl::Import(import_node) = decl.value() else {
        panic!("Expected import declaration");
    };
    let path = import_node.value().path();
    assert_eq!(path.value().as_str(), "foo");
    assert_eq!(path.span().start, 7);
    assert_eq!(path.span().end, 10);
    assert_rest_empty(&inp, rest);
}

#[test]
fn parse_complete_use_success() {
    let (rest, decl, inp) = parse_complete_ok("use foo with bar as baz\n");
    let um = use_model(&decl);
    let info = um.model_info().value();
    assert_eq!(info.top_component().value().as_str(), "foo");
    assert_eq!(info.subcomponents().len(), 0);
    assert_eq!(info.get_alias().value().as_str(), "foo");
    let submodels = um.imported_submodels().expect("should have submodels").value().items();
    assert_eq!(submodels.len(), 1);
    assert_eq!(submodels[0].value().get_alias().value().as_str(), "baz");
    assert_rest_empty(&inp, rest);
}

fn check_path(um: &UseModel, expected: &[&str]) {
    assert_eq!(um.directory_path().len(), expected.len());
    for (d, e) in um.directory_path().iter().zip(expected) {
        assert_eq!(d.value().as_str(), *e);
    }
}

#[test]
fn use_with_single_directory() {
    let (rest, decl, inp) = parse_complete_ok("use utils/math as calculator\n");
    let um = use_model(&decl);
    let info = um.model_info().value();
    assert_eq!(info.top_component().value().as_str(), "math");
    assert_eq!(info.subcomponents().len(), 0);
    assert_eq!(info.get_alias().value().as_str(), "calculator");
    check_path(um, &["utils"]);
    assert_rest_empty(&inp, rest);
}

#[test]
fn use_with_single_directory_without_alias() {
    let (rest, decl, inp) = parse_complete_ok("use utils/math\n");
    let um = use_model(&decl);
    let info = um.model_info().value();
    assert_eq!(info.top_component().value().as_str(), "math");
    assert_eq!(info.subcomponents().len(), 0);
    assert_eq!(info.get_alias().value().as_str(), "math");
    check_path(um, &["utils"]);
    assert_rest_empty(&inp, rest);
}

#[test]
fn use_with_multiple_directories() {
    let (rest, decl, inp) = parse_complete_ok("use models/physics/mechanics as dynamics\n");
    let um = use_model(&decl);
    let info = um.model_info().value();
    assert_eq!(info.top_component().value().as_str(), "mechanics");
    assert_eq!(info.subcomponents().len(), 0);
    assert_eq!(info.get_alias().value().as_str(), "dynamics");
    check_path(um, &["models", "physics"]);
    assert_rest_empty(&inp, rest);
}

#[test]
fn use_with_directory_and_subcomponents() {
    let (rest, decl, inp) = parse_complete_ok("use utils/math with trigonometry as trig\n");
    let um = use_model(&decl);
    let info = um.model_info().value();
    assert_eq!(info.top_component().value().as_str(), "math");
    assert_eq!(info.subcomponents().len(), 0);
    assert_eq!(info.get_alias().value().as_str(), "math");
    let submodels = um.imported_submodels().expect("should have submodels").value().items();
    assert_eq!(submodels.len(), 1);
    assert_eq!(submodels[0].value().top_component().value().as_str(), "trigonometry");
    assert_eq!(submodels[0].value().get_alias().value().as_str(), "trig");
    check_path(um, &["utils"]);
    assert_rest_empty(&inp, rest);
}

#[test]
fn use_with_current_directory() {
    let (rest, decl, inp) = parse_complete_ok("use ./local_model as local\n");
    let um = use_model(&decl);
    let info = um.model_info().value();
    assert_eq!(info.top_component().value().as_str(), "local_model");
    assert_eq!(info.subcomponents().len(), 0);
    assert_eq!(info.get_alias().value().as_str(), "local");
    check_path(um, &["."]);
    assert_rest_empty(&inp, rest);
}

#[test]
fn use_with_parent_directory() {
    let (rest, decl, inp) = parse_complete_ok("use ../parent_model as parent\n");
    let um = use_model(&decl);
    let info = um.model_info().value();
    assert_eq!(info.top_component().value().as_str(), "parent_model");
    assert_eq!(info.subcomponents().len(), 0);
    assert_eq!(info.get_alias().value().as_str(), "parent");
    check_path(um, &[".."]);
    assert_rest_empty(&inp, rest);
}

#[test]
fn use_with_mixed_directory_types() {
    let (rest, decl, inp) = parse_complete_ok("use ../shared/./utils/math as shared_math\n");
    let um = use_model(&decl);
    let info = um.model_info().value();
    assert_eq!(info.top_component().value().as_str(), "math");
    assert_eq!(info.subcomponents().len(), 0);
    assert_eq!(info.get_alias().value().as_str(), "shared_math");
    check_path(um, &["..", "shared", ".", "utils"]);
    assert_rest_empty(&inp, rest);
}

#[test]
fn use_with_complex_path_and_subcomponents() {
    let (rest, decl, inp) =
        parse_complete_ok("use models/physics/mechanics with rotational.dynamics as rotation\n");
    let um = use_model(&decl);
    let info = um.model_info().value();
    assert_eq!(info.top_component().value().as_str(), "mechanics");
    assert_eq!(info.subcomponents().len(), 0);
    assert_eq!(info.get_alias().value().as_str(), "mechanics");
    let submodels = um.imported_submodels().expect("should have submodels").value().items();
    assert_eq!(submodels.len(), 1);
    let sub = submodels[0].value();
    assert_eq!(sub.top_component().value().as_str(), "rotational");
    assert_eq!(sub.subcomponents().len(), 1);
    assert_eq!(sub.subcomponents()[0].value().as_str(), "dynamics");
    assert_eq!(sub.get_alias().value().as_str(), "rotation");
    check_path(um, &["models", "physics"]);
    assert_rest_empty(&inp, rest);
}

#[test]
fn directory_name_parsing() {
    let inp = input("..");
    let (t, dir) = directory_name(&inp.bytes, 0).expect("should parse parent directory");
    assert_eq!(dir.as_str(), "..");
    assert!(inp.fragment_from(t.next).is_empty());

    let inp = input(".");
    let (t, dir) = directory_name(&inp.bytes, 0).expect("should parse current directory");
    assert_eq!(dir.as_str(), ".");
    assert!(inp.fragment_from(t.next).is_empty());

    let inp = input("foo");
    let (t, dir) = directory_name(&inp.bytes, 0).expect("should parse regular directory name");
    assert_eq!(dir.as_str(), "foo");
    assert!(inp.fragment_from(t.next).is_empty());
}

#[test]
fn mixed_directory_path_parsing() {
    let inp = input("../shared/./utils/");
    let (_rest, directory_path) = opt_directory_path(&inp.bytes, 0);
    assert_eq!(directory_path.len(), 4);
    assert!(matches!(directory_path[0].value(), Directory::Parent));
    assert!(matches!(directory_path[1].value(), Directory::Name(s) if s == "shared"));
    assert!(matches!(directory_path[2].value(), Directory::Current));
    assert!(matches!(directory_path[3].value(), Directory::Name(s) if s == "utils"));
}

#[test]
fn use_decl_with_submodel_with_subcomponents() {
    let (rest, decl, inp) = parse_ok("use foo with bar.qux\n");
    let um = use_model(&decl);
    let info = um.model_info().value();
    assert_eq!(info.top_component().value().as_str(), "foo");
    assert_eq!(info.subcomponents().len(), 0);
    assert_eq!(info.get_alias().value().as_str(), "foo");
    let submodels = um.imported_submodels().expect("should have submodels").value().items();
    assert_eq!(submodels.len(), 1);
    let sub = submodels[0].value();
    assert_eq!(sub.top_component().value().as_str(), "bar");
    assert_eq!(sub.subcomponents().len(), 1);
    assert_eq!(sub.subcomponents()[0].value().as_str(), "qux");
    assert_eq!(sub.get_alias().value().as_str(), "qux");
    assert_rest_empty(&inp, rest);
}

/// Checks (top, subcomponents, alias) of each submodel.
fn check_submodels(um: &UseModel, expected: &[(&str, &[&str], &str)]) {
    let submodels = um.imported_submodels().expect("should have submodels").value().items();
    assert_eq!(submodels.len(), expected.len());
    for (sub, (top, subs, alias)) in submodels.iter().zip(expected) {
        let sub = sub.value();
        assert_eq!(sub.top_component().value().as_str(), *top);
        assert_eq!(sub.subcomponents().len(), subs.len());
        for (a, b) in sub.subcomponents().iter().zip(subs.iter()) {
            assert_eq!(a.value().as_str(), *b);
        }
        assert_eq!(sub.get_alias().value().as_str(), *alias);
    }
}

fn check_main(um: &UseModel, top: &str, alias: &str) {
    let info = um.model_info().value();
    assert_eq!(info.top_component().value().as_str(), top);
    assert_eq!(info.subcomponents().len(), 0);
    assert_eq!(info.get_alias().value().as_str(), alias);
}

#[test]
fn use_decl_with_multiple_submodels() {
    let (rest, decl, inp) = parse_ok("use foo with [bar, qux]\n");
    let um = use_model(&decl);
    check_main(um, "foo", "foo");
    check_submodels(um, &[("bar", &[], "bar"), ("qux", &[], "qux")]);
    assert_rest_empty(&inp, rest);
}

#[test]
fn use_decl_with_multiple_submodels_with_aliases() {
    let (rest, decl, inp) = parse_ok("use foo with [bar as baz, qux as quux]\n");
    let um = use_model(&decl);
    check_main(um, "foo", "foo");
    check_submodels(um, &[("bar", &[], "baz"), ("qux", &[], "quux")]);
    assert_rest_empty(&inp, rest);
}

#[test]
fn use_decl_with_multiple_submodels_with_subcomponents() {
    let (rest, decl, inp) = parse_ok("use foo with [bar.qux, baz.quux.quuz]\n");
    let um = use_model(&decl);
    check_main(um, "foo", "foo");
    check_submodels(um, &[("bar", &["qux"], "qux"), ("baz", &["quux", "quuz"], "quuz")]);
    assert_rest_empty(&inp, rest);
}

#[test]
fn use_decl_with_multiple_submodels_with_trailing_comma() {
    let (rest, decl, inp) = parse_ok("use foo with [bar, qux,]\n");
    let um = use_model(&decl);
    check_main(um, "foo", "foo");
    check_submodels(um, &[("bar", &[], "bar"), ("qux", &[], "qux")]);
    assert_rest_empty(&inp, rest);
}

#[test]
fn use_decl_with_empty_submodel_list() {
    let (rest, decl, inp) = parse_ok("use foo with []\n");
    let um = use_model(&decl);
    check_main(um, "foo", "foo");
    check_submodels(um, &[]);
    assert_rest_empty(&inp, rest);
}

#[test]
fn use_decl_with_model_alias_and_submodels() {
    let (rest, decl, inp) = parse_ok("use foo as bar with [qux, baz]\n");
    let um = use_model(&decl);
    check_main(um, "foo", "bar");
    check_submodels(um, &[("qux", &[], "qux"), ("baz", &[], "baz")]);
    assert_rest_empty(&inp, rest);
}

#[test]
fn use_decl_with_complex_path_and_submodels() {
    let (rest, decl, inp) =
        parse_ok("use utils/math with [trigonometry as trig, sin, cos as cosine]\n");
    let um = use_model(&decl);
    check_main(um, "math", "math");
    check_path(um, &["utils"]);
    check_submodels(
        um,
        &[("trigonometry", &[], "trig"), ("sin", &[], "sin"), ("cos", &[], "cosine")],
    );
    assert_rest_empty(&inp, rest);
}

#[test]
fn use_decl_with_submodels_and_newlines() {
    let (rest, decl, inp) = parse_ok("use foo with [\nbar,\nqux\n]\n");
    let um = use_model(&decl);
    check_main(um, "foo", "foo");
    check_submodels(um, &[("bar", &[], "bar"), ("qux", &[], "qux")]);
    assert_rest_empty(&inp, rest);
}

#[test]
fn expect_decl_errors() {
    let cases: &[&str] = &[
        "",
        "foo\n",
        "   \n",
        "# comment\n",
        "invalid syntax\n",
        "impor\n",
        "export foo\n",
        "Import foo\n",
        "+++---\n",
        "123 456\n",
    ];
    for input_str in cases {
        let error = parse_err(input_str);
        assert_eq!(error.reason, ParserErrorReason::Expect(ExpectKind::Decl), "reason for {input_str:?}");
    }
}

#[test]
fn import_incomplete_errors() {
    let cases: &[(&str, usize, IncompleteKind, usize, usize)] = &[
        ("import\n", 6, IncompleteKind::ImportMissingPath, 0, 6),
        ("import 123\n", 7, IncompleteKind::ImportMissingPath, 0, 6),
        ("import foo@bar\n", 10, IncompleteKind::ImportMissingEndOfLine, 7, 10),
    ];
    for &(input_str, offset, kind, cs, ce) in cases {
        assert_failure(input_str, offset, kind, cs, ce);
    }
}

#[test]
fn use_incomplete_errors() {
    let cases: &[(&str, usize, IncompleteKind, usize, usize)] = &[
        ("use foo with bar as\n", 19, IncompleteKind::AsMissingAlias, 17, 19),
        ("use 123 with bar as baz\n", 4, IncompleteKind::UseMissingModelInfo, 0, 3),
        ("use foo with bar as 123\n", 20, IncompleteKind::AsMissingAlias, 17, 19),
    ];
    for &(input_str, offset, kind, cs, ce) in cases {
        assert_failure(input_str, offset, kind, cs, ce);
    }
}

#[test]
fn model_info_expect_identifier_errors() {
    let cases: &[&str] = &["", "123.bar"];
    for input_str in cases {
        let inp = input(input_str);
        let Err(error) = model_info(&inp.bytes, 0) else {
            panic!("Expected Error for {input_str:?}");
        };
        assert!(!error.failure);
        assert_eq!(error.error_offset, 0, "offset for {input_str:?}");
        assert_eq!(error.reason, ParserErrorReason::Expect(ExpectKind::Identifier), "reason for {input_str:?}");
    }
}

#[test]
fn model_info_missing_subcomponent() {
    let cases: &[(&str, usize, usize, usize)] =
        &[("foo.", 4, 3, 4), ("foo.123", 4, 3, 4), ("foo.bar.", 8, 7, 8)];
    for &(input_str, offset, cs, ce) in cases {
        let inp = input(input_str);
        let Err(error) = model_info(&inp.bytes, 0) else {
            panic!("Expected Failure for {input_str:?}");
        };
        assert!(error.failure);
        assert_eq!(error.error_offset, offset, "offset for {input_str:?}");
        let ParserErrorReason::Incomplete { kind, cause } = error.reason else {
            panic!("Expected Incomplete for {input_str:?}, got {:?}", error.reason);
        };
        assert_eq!(kind, IncompleteKind::ModelMissingSubcomponent, "kind for {input_str:?}");
        assert_eq!(cause.start, cs, "cause_start for {input_str:?}");
        assert_eq!(cause.end, ce, "cause_end for {input_str:?}");
    }
}

#[test]
fn parse_complete_with_remaining_input() {
    let inp = input("import foo\nrest");
    let result = parse_complete(&inp);
    let Err(error) = result else {
        panic!("Unexpected result {result:?}");
    };
    assert_eq!(error.error_offset, 11);
    assert_eq!(error.reason, ParserErrorReason::UnexpectedToken);
}

#[test]
fn unclosed_bracket_errors() {
    let cases: &[(&str, usize, usize, usize)] = &[
        ("use foo with [\n", 15, 13, 14),
        ("use foo with [bar\n", 18, 13, 14),
        ("use foo with [bar, baz\n", 23, 13, 14),
        ("use foo with [bar, baz,\n", 24, 13, 14),
        ("use foo with [bar.qux, baz.quux\n", 32, 13, 14),
        ("use foo with [bar as baz, qux as quux\n", 38, 13, 14),
        ("use foo as bar with [qux, baz\n", 30, 20, 21),
        ("use foo with [\nbar,\nbaz\n", 24, 13, 14),
        ("use utils/math with [trigonometry as trig, sin, cos as cosine\n", 62, 20, 21),
    ];
    for &(input_str, offset, cs, ce) in cases {
        assert_failure(input_str, offset, IncompleteKind::UnclosedBracket, cs, ce);
    }
}

fn rest_is_blank(inp: &InputSpan, rest: usize) -> bool {
    inp.fragment_from(rest).iter().all(|c| c.is_ascii_whitespace())
}

#[test]
fn use_model_parses_in_design_context() {
    let inp = input("use foo as bar\n");
    let result = decl_inner(&inp, true);
    let Ok((rest, decl)) = result else {
        panic!("Expected Ok, got {result:?}");
    };
    assert!(rest_is_blank(&inp, rest));
    assert!(matches!(decl.value(), Decl::UseModel(_)), "Expected UseModel, got {:?}", decl.value());
}

#[test]
fn use_model_parses_in_regular_context() {
    let inp = input("use foo as bar\n");
    let result = decl_inner(&inp, false);
    let Ok((rest, decl)) = result else {
        panic!("Expected Ok, got {result:?}");
    };
    assert!(rest_is_blank(&inp, rest));
    assert!(matches!(decl.value(), Decl::UseModel(_)), "Expected UseModel, got {:?}", decl.value());
}

#[test]
fn use_model_with_submodels_single() {
    let inp = input("use foo as bar with baz\n");
    let result = decl_inner(&inp, true);
    let Ok((rest, decl)) = result else {
        panic!("Expected Ok, got {result:?}");
    };
    assert!(rest_is_blank(&inp, rest));
    let um = use_model(&decl);
    assert_eq!(um.model_info().value().top_component().value().as_str(), "foo");
    assert_eq!(um.model_info().value().get_alias().value().as_str(), "bar");
    let submodels = um.imported_submodels().expect("Expected submodel list").value().items();
    assert_eq!(submodels.len(), 1);
    assert_eq!(submodels[0].value().get_model_name().value().as_str(), "baz");
}

#[test]
fn use_model_with_submodels_list() {
    let inp = input("use foo as bar with [baz, qux]\n");
    let result = decl_inner(&inp, true);
    let Ok((rest, decl)) = result else {
        panic!("Expected Ok, got {result:?}");
    };
    assert!(rest_is_blank(&inp, rest));
    let um = use_model(&decl);
    assert_eq!(um.model_info().value().top_component().value().as_str(), "foo");
    assert_eq!(um.model_info().value().get_alias().value().as_str(), "bar");
    let submodels = um.imported_submodels().expect("Expected submodel list").value().items();
    assert_eq!(submodels.len(), 2);
    assert_eq!(submodels[0].value().get_model_name().value().as_str(), "baz");
    assert_eq!(submodels[1].value().get_model_name().value().as_str(), "qux");
}

#[test]
fn use_model_without_submodels() {
    let inp = input("use foo as bar\n");
    let result = decl_inner(&inp, true);
    let Ok((_, decl)) = result else {
        panic!("Expected Ok, got {result:?}");
    };
    assert!(use_model(&decl).imported_submodels().is_none());
}

fn design_param(decl: &DeclNode) -> &oneil::ast::DesignParameter {
    let Decl::DesignParameter(p) = decl.value() else {
        panic!("Expected design parameter");
    };
    p.value()
}

#[test]
fn design_parameter_lines_in_design_files() {
    let inp = input("mass = 5 kg\n");
    let (rest, decl) = parse(&inp, true).expect("design parameter");
    assert_rest_empty(&inp, rest);
    let p = design_param(&decl);
    assert_eq!(p.ident().value().as_str(), "mass");
    assert!(p.instance().is_none());
    assert_eq!(p.value().value().text, "5 kg");

    let inp = input("mass.sat = 10   # heavier\n");
    let (rest, decl) = parse(&inp, true).expect("scoped design parameter");
    assert_rest_empty(&inp, rest);
    let p = design_param(&decl);
    assert_eq!(p.instance().expect("instance").value().as_str(), "sat");
    assert_eq!(p.value().value().text, "10");

    let inp = input("size = 2 µm\n");
    let (_, decl) = parse(&inp, true).expect("non-ASCII value");
    assert_eq!(design_param(&decl).value().value().text, "2 µm");
}

#[test]
fn design_parameter_lines_elsewhere_or_malformed() {
    assert!(matches!(parse_err("mass = 5\n").reason, ParserErrorReason::Expect(ExpectKind::Decl)));
    match parse(&input("mass =   \n"), true) {
        Err(e) => assert!(matches!(e.reason, ParserErrorReason::Expect(ExpectKind::Decl))),
        Ok(_) => panic!("a line without a value is not a declaration"),
    }
}
