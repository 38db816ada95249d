use oneil::design_segments::{display_model_path, resolve_segment_in, segment_by_stem};
use oneil::imports::ReferenceImport;
use oneil::ir::Model;
use oneil::paths::ModelPath;
use oneil::resolver::ResolutionContext;
use oneil::span::Span;

fn context_with_refs(model: &str, refs: &[(&str, &str)]) -> ResolutionContext {
    let mut m = Model::new(ModelPath::new(model.to_string()));
    for (name, path) in refs {
        let r = ReferenceImport::new(name.to_string(), Span::new(0, 0), ModelPath::new(path.to_string()));
        m.references.insert(name.to_string(), r);
    }
    let mut ctx = ResolutionContext::new();
    ctx.add_model(&ModelPath::new(model.to_string()), m);
    ctx
}

#[test]
fn segment_by_reference_name() {
    let ctx = context_with_refs("/m/parent", &[("sat", "/m/satellite")]);
    let r = resolve_segment_in(&ModelPath::new("/m/parent".to_string()), "sat", &ctx);
    assert_eq!(r, Ok("sat".to_string()));
}

#[test]
fn segment_by_unique_model_name() {
    let ctx = context_with_refs("/m/parent", &[("sat", "/m/satellite"), ("cam", "/m/camera")]);
    let r = resolve_segment_in(&ModelPath::new("/m/parent".to_string()), "camera", &ctx);
    assert_eq!(r, Ok("cam".to_string()));
}

#[test]
fn segment_ambiguous_or_missing() {
    let ctx = context_with_refs("/m/parent", &[("a", "/m/camera"), ("b", "/x/camera")]);
    let p = ModelPath::new("/m/parent".to_string());
    assert_eq!(
        resolve_segment_in(&p, "camera", &ctx),
        Err("segment `camera` is ambiguous on `parent`: matches references `a`, `b`".to_string())
    );
    assert_eq!(
        resolve_segment_in(&p, "lens", &ctx),
        Err("no reference named `lens` (and no reference whose model is named `lens`) on `parent`".to_string())
    );
}

#[test]
fn segment_on_missing_model() {
    let ctx = ResolutionContext::new();
    assert_eq!(
        resolve_segment_in(&ModelPath::new("/m/gone".to_string()), "x", &ctx),
        Err("cannot resolve `x` because target model `gone` failed to load".to_string())
    );
}

#[test]
fn segment_by_stem_on_given_stems() {
    let stems = vec![
        ("a".to_string(), Some("cam".to_string())),
        ("b".to_string(), None),
        ("c".to_string(), Some("cam".to_string())),
        ("d".to_string(), Some("cam".to_string())),
    ];
    assert_eq!(
        segment_by_stem("cam", "m", &stems),
        Err("segment `cam` is ambiguous on `m`: matches references `a`, `c`, `d`".to_string())
    );
    assert_eq!(segment_by_stem("cam", "m", &stems[..2]), Ok("a".to_string()));
    assert_eq!(display_model_path(&ModelPath::new("/a/b/model".to_string())), "model");
}

#[test]
fn referenced_model_path_found_and_missing() {
    let ctx = context_with_refs("/m/parent", &[("sat", "/m/satellite")]);
    let parent = ModelPath::new("/m/parent".to_string());
    let found = oneil::design_segments::lookup_referenced_model_path(&parent, &"sat".to_string(), &ctx);
    assert_eq!(found.expect("reference").as_str(), "/m/satellite");
    assert!(oneil::design_segments::lookup_referenced_model_path(&parent, &"cam".to_string(), &ctx).is_none());
    let gone = ModelPath::new("/m/gone".to_string());
    assert!(oneil::design_segments::lookup_referenced_model_path(&gone, &"sat".to_string(), &ctx).is_none());
}
