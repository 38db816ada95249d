use oneil::ordmap::OrderedMap;
use oneil::render::{applied_designs, DesignMark};

fn mark(name: &str) -> Option<DesignMark> {
    Some(DesignMark { design_name: name.to_string(), is_addition: false })
}

#[test]
fn applied_designs_first_appearance_and_stable_colors() {
    let mut colors: OrderedMap<usize> = OrderedMap::new();
    let first = applied_designs(&[mark("light"), None, mark("heavy"), mark("light")], &mut colors);
    let got: Vec<(&str, usize)> = first.iter().map(|d| (d.design_name.as_str(), d.color_index)).collect();
    assert_eq!(got, vec![("light", 0), ("heavy", 1)]);

    let second = applied_designs(&[mark("extra"), mark("heavy")], &mut colors);
    let got: Vec<(&str, usize)> = second.iter().map(|d| (d.design_name.as_str(), d.color_index)).collect();
    assert_eq!(got, vec![("extra", 2), ("heavy", 1)]);
    assert_eq!(colors.len(), 3);
}

#[test]
fn applied_designs_none_without_marks() {
    let mut colors: OrderedMap<usize> = OrderedMap::new();
    assert!(applied_designs(&[None, None], &mut colors).is_empty());
    assert!(colors.is_empty());
}

#[test]
fn path_stem_drops_directory_and_extension() {
    use_path_stem("/path/to/vehicle.on", "vehicle");
    use_path_stem("/path/to/overlay.one", "overlay");
    use_path_stem("/", "model");
}

fn use_path_stem(path: &str, expected: &str) {
    let p = oneil::paths::ModelPath::new(path.to_string());
    assert_eq!(oneil::render::path_stem(&p), expected);
}

#[test]
fn colours_of_any_dense_map_are_kept() {
    let mut map: OrderedMap<usize> = OrderedMap::new();
    map.insert("second".to_string(), 1);
    map.insert("first".to_string(), 0);
    let marks = vec![
        Some(DesignMark { design_name: "first".to_string(), is_addition: true }),
        Some(DesignMark { design_name: "new".to_string(), is_addition: false }),
        Some(DesignMark { design_name: "second".to_string(), is_addition: true }),
    ];
    let r = applied_designs(&marks, &mut map);
    let got: Vec<(&str, usize)> = r.iter().map(|a| (a.design_name.as_str(), a.color_index)).collect();
    assert_eq!(got, vec![("first", 0), ("new", 2), ("second", 1)]);
}

#[test]
fn new_designs_get_the_next_colours_in_order() {
    let mut colors: oneil::ordmap::OrderedMap<usize> = oneil::ordmap::OrderedMap::new();
    colors.insert("a".to_string(), 1);
    colors.insert("b".to_string(), 0);
    let r = applied_designs(&[mark("c"), mark("b"), mark("d"), mark("c")], &mut colors);
    let got: Vec<(String, usize)> = r.iter().map(|d| (d.design_name.clone(), d.color_index)).collect();
    assert_eq!(got, vec![("c".to_string(), 2), ("b".to_string(), 0), ("d".to_string(), 3)]);
    assert_eq!(colors.len(), 4);
}
