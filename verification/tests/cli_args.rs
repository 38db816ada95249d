use oneil::cli_args::{
    split, trim, IrIncludeSection, ModelResultIncludeSection, PrintMode, Variable, VariableList,
};

#[test]
fn variable_to_vec_splits_at_dots() {
    let v: Variable = "param.submodel1.submodel2".parse().unwrap();
    assert_eq!(v.to_vec(), vec!["param", "submodel1", "submodel2"]);
    assert_eq!(v.to_display_string(), "param.submodel1.submodel2");
}

#[test]
fn variable_keeps_empty_pieces() {
    let v = Variable::parse("a..b");
    assert_eq!(v.to_vec(), vec!["a", "", "b"]);
    assert_eq!(Variable::parse("").to_vec(), vec![""]);
}

#[test]
fn variable_list_skips_empty_and_trims() {
    let list: VariableList = "x, y.z,,w ".parse().unwrap();
    let vars: Vec<Vec<String>> = list.iter().iter().map(|v| v.to_vec()).collect();
    assert_eq!(vars, vec![vec!["x".to_string()], vec!["y".to_string(), "z".to_string()], vec!["w".to_string()]]);
    assert_eq!(list.to_display_string(), "x,y.z,w");
}

#[test]
fn variable_list_blank_piece_is_kept_as_empty_name() {
    let list = VariableList::parse("a, ,b");
    let vars: Vec<Vec<String>> = list.iter().iter().map(|v| v.to_vec()).collect();
    assert_eq!(vars, vec![vec!["a".to_string()], vec!["".to_string()], vec!["b".to_string()]]);
    assert!(VariableList::parse("").iter().is_empty());
}

#[test]
fn split_and_trim() {
    assert_eq!(split("a,b,", ','), vec!["a", "b", ""]);
    assert_eq!(trim("  tests\t\n"), "tests");
    assert_eq!(trim("   "), "");
}

#[test]
fn ir_include_sections() {
    assert_eq!(" Python ".parse::<IrIncludeSection>(), Ok(IrIncludeSection::PythonImports));
    assert_eq!("SUBMODELS".parse::<IrIncludeSection>(), Ok(IrIncludeSection::Submodels));
    assert_eq!("references".parse::<IrIncludeSection>(), Ok(IrIncludeSection::References));
    assert_eq!("parameters".parse::<IrIncludeSection>(), Ok(IrIncludeSection::Parameters));
    assert_eq!("tests".parse::<IrIncludeSection>(), Ok(IrIncludeSection::Tests));
    assert_eq!(
        "units".parse::<IrIncludeSection>(),
        Err("unknown section \"units\"; valid options are: python, submodels, references, parameters, tests".to_string())
    );
    assert_eq!(IrIncludeSection::from_key("Python"), None);
}

#[test]
fn model_result_include_sections() {
    assert_eq!("Tests".parse::<ModelResultIncludeSection>(), Ok(ModelResultIncludeSection::Tests));
    assert_eq!(
        "python".parse::<ModelResultIncludeSection>(),
        Err("unknown section \"python\"; valid options are: submodels, references, parameters, tests".to_string())
    );
}

#[test]
fn print_modes() {
    assert_eq!("all".parse::<PrintMode>(), Ok(PrintMode::All));
    assert_eq!("trace".parse::<PrintMode>(), Ok(PrintMode::Trace));
    assert_eq!("perf".parse::<PrintMode>(), Ok(PrintMode::Performance));
    assert_eq!(
        "ALL".parse::<PrintMode>(),
        Err("valid options are `all`, `trace`, or `perf`".to_string())
    );
    assert_eq!(PrintMode::default(), PrintMode::Trace);
    assert_eq!(PrintMode::Performance.as_str(), "perf");
}

#[test]
fn trim_drops_every_kind_of_white_space() {
    assert_eq!(oneil::cli_args::trim("\u{2003}\t parameters\u{3000}\n"), "parameters");
    assert_eq!(oneil::cli_args::trim("\u{200b}x"), "\u{200b}x");
    assert_eq!(oneil::cli_args::trim(" \u{85}\u{a0}"), "");
}
