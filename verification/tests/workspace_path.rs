use oneil::workspace_path::{trim_from_candidates, trim_path};

fn roots(rs: &[&str]) -> Vec<String> {
    rs.iter().map(|r| r.to_string()).collect()
}

#[test]
fn trim_path_strips_longest_workspace_root() {
    let roots = roots(&["/ws", "/ws/nested"]);
    assert_eq!(trim_path("/ws/nested/pkg/model.on", &roots), Some("pkg/model.on".to_string()));
}

#[test]
fn trim_path_root_is_dot() {
    let roots = roots(&["/ws/proj"]);
    assert_eq!(trim_path("/ws/proj", &roots), Some(".".to_string()));
}

#[test]
fn trim_path_unmatched_unchanged() {
    let roots = roots(&["/other"]);
    assert_eq!(trim_path("/ws/a.on", &roots), None);
}

#[test]
fn trim_path_longest_root_wins_in_any_order() {
    let roots = roots(&["/ws/nested", "/ws"]);
    assert_eq!(trim_path("/ws/nested/pkg/model.on", &roots), Some("pkg/model.on".to_string()));
    assert_eq!(trim_path("/ws/top.on", &roots), Some("top.on".to_string()));
}

#[test]
fn trim_path_matches_whole_components_only() {
    let roots = roots(&["/ws"]);
    assert_eq!(trim_path("/wsx/a.on", &roots), None);
}

#[test]
fn trim_from_candidates_prefers_first_of_equal_depth() {
    let candidates = vec![
        (None, 5),
        (Some("b/c".to_string()), 2),
        (Some("c".to_string()), 3),
        (Some("x".to_string()), 3),
    ];
    assert_eq!(trim_from_candidates(&candidates), Some("c".to_string()));
}

#[test]
fn trim_from_candidates_empty_rest_is_dot() {
    let candidates = vec![(Some(String::new()), 1)];
    assert_eq!(trim_from_candidates(&candidates), Some(".".to_string()));
    let none: Vec<(Option<String>, usize)> = vec![(None, 1), (None, 2)];
    assert_eq!(trim_from_candidates(&none), None);
}
