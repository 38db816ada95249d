use oneil::contribution::{
    merge_contributions, rewrite_extracted_aliases, splice_into_chain, Design, DesignContribution,
    InstanceKey,
};
use oneil::imports::SubmodelImport;
use oneil::ordmap::OrderedMap;
use oneil::paths::ModelPath;
use oneil::span::Span;

type Contribution = DesignContribution<u64, u64, u64>;

fn key(path: &str) -> InstanceKey {
    InstanceKey { model_path: ModelPath::new(path.to_string()), instance_path: vec![] }
}

fn with_overrides(anchor: &str, overrides: &[(&str, u64)]) -> Contribution {
    let mut c = DesignContribution::empty(key(anchor));
    for (k, v) in overrides {
        c.overrides.insert(k.to_string(), *v);
    }
    c
}

fn override_pairs(c: &Contribution) -> Vec<(String, u64)> {
    c.overrides.entries.iter().map(|(k, v)| (k.clone(), *v)).collect()
}

fn nested_names(c: &Contribution) -> Vec<String> {
    c.nested_by_ref.iter().map(|(k, _)| k.clone()).collect()
}

#[test]
fn merge_later_wins_and_children_merge() {
    let mut a = with_overrides("/a", &[("x", 1), ("y", 2)]);
    a.nested_by_ref.push(("c".to_string(), with_overrides("/a", &[("o", 10)])));
    a.nested_by_ref.push(("e".to_string(), with_overrides("/a", &[])));
    let mut b = with_overrides("/b", &[("y", 3), ("z", 4)]);
    b.nested_by_ref.push(("c".to_string(), with_overrides("/b", &[("o", 20), ("q", 5)])));
    b.nested_by_ref.push(("d".to_string(), with_overrides("/b", &[])));
    let m = merge_contributions(a, b);
    assert_eq!(m.anchor_key.model_path.as_str(), "/a");
    assert_eq!(
        override_pairs(&m),
        vec![("x".to_string(), 1), ("y".to_string(), 3), ("z".to_string(), 4)]
    );
    assert_eq!(nested_names(&m), vec!["e", "c", "d"]);
    let c = &m.nested_by_ref[1].1;
    assert_eq!(c.anchor_key.model_path.as_str(), "/a");
    assert_eq!(override_pairs(c), vec![("o".to_string(), 20), ("q".to_string(), 5)]);
}

#[test]
fn splice_creates_missing_steps() {
    let mut target = with_overrides("/t", &[]);
    let payload = with_overrides("/p", &[("mass", 7)]);
    splice_into_chain(&mut target, &["sat".to_string(), "arm".to_string()], payload);
    assert_eq!(nested_names(&target), vec!["sat"]);
    let sat = &target.nested_by_ref[0].1;
    assert_eq!(sat.anchor_key.model_path.as_str(), "/p");
    assert_eq!(nested_names(sat), vec!["arm"]);
    assert_eq!(override_pairs(&sat.nested_by_ref[0].1), vec![("mass".to_string(), 7)]);

    let again = with_overrides("/p", &[("mass", 8), ("len", 1)]);
    splice_into_chain(&mut target, &["sat".to_string(), "arm".to_string()], again);
    let arm = &target.nested_by_ref[0].1.nested_by_ref[0].1;
    assert_eq!(override_pairs(arm), vec![("mass".to_string(), 8), ("len".to_string(), 1)]);

    let unchanged = with_overrides("/p", &[("x", 1)]);
    splice_into_chain(&mut target, &[], unchanged);
    assert_eq!(nested_names(&target), vec!["sat"]);
}

#[test]
fn rewrite_routes_extracted_alias_through_parent() {
    let mut submodels: OrderedMap<SubmodelImport> = OrderedMap::new();
    submodels.insert(
        "t".to_string(),
        SubmodelImport::extracted(
            "temperature".to_string(),
            Span::new(0, 0),
            "w".to_string(),
            vec!["atmosphere".to_string(), "temperature".to_string()],
        ),
    );
    submodels.insert(
        "w".to_string(),
        SubmodelImport::new("weather".to_string(), Span::new(0, 0), "w".to_string()),
    );
    let mut c = with_overrides("/root", &[]);
    c.nested_by_ref.push(("t".to_string(), with_overrides("/d", &[("value", 3)])));
    c.nested_by_ref.push(("w".to_string(), with_overrides("/d", &[("wind", 9)])));
    rewrite_extracted_aliases(&mut c, &submodels);
    assert_eq!(nested_names(&c), vec!["w"]);
    let w = &c.nested_by_ref[0].1;
    assert_eq!(override_pairs(w), vec![("wind".to_string(), 9)]);
    assert_eq!(nested_names(w), vec!["atmosphere"]);
    let atmosphere = &w.nested_by_ref[0].1;
    assert_eq!(nested_names(atmosphere), vec!["temperature"]);
    assert_eq!(override_pairs(&atmosphere.nested_by_ref[0].1), vec![("value".to_string(), 3)]);
}

fn map_of(entries: &[(&str, u64)]) -> OrderedMap<u64> {
    let mut m = OrderedMap::new();
    for (k, v) in entries {
        m.insert(k.to_string(), *v);
    }
    m
}

#[test]
fn from_design_places_scoped_parts() {
    let design: Design<u64, u64, u64> = Design {
        target_model: None,
        parameter_overrides: map_of(&[("mass", 1)]),
        parameter_additions: map_of(&[("extra", 2)]),
        reference_replacements: OrderedMap::new(),
        scoped_overrides: vec![
            (vec!["sat".to_string(), "arm".to_string()], map_of(&[("len", 3)])),
            (vec!["sat".to_string()], map_of(&[("mass", 4)])),
        ],
        scoped_replacements: vec![(vec!["sat".to_string()], map_of(&[("cam", 5)]))],
        scoped_additions: vec![(vec!["lens".to_string()], map_of(&[("f", 6)]))],
    };
    let c = DesignContribution::from_design(design, &key("/anchor"));
    assert_eq!(c.anchor_key.model_path.as_str(), "/anchor");
    assert_eq!(override_pairs(&c), vec![("mass".to_string(), 1)]);
    assert_eq!(nested_names(&c), vec!["sat", "lens"]);
    let sat = &c.nested_by_ref[0].1;
    assert_eq!(sat.anchor_key.model_path.as_str(), "/anchor");
    assert_eq!(override_pairs(sat), vec![("mass".to_string(), 4)]);
    assert_eq!(sat.replacements.entries, vec![("cam".to_string(), 5)]);
    assert_eq!(override_pairs(&sat.nested_by_ref[0].1), vec![("len".to_string(), 3)]);
    assert_eq!(c.nested_by_ref[1].1.additions.entries, vec![("f".to_string(), 6)]);
}
