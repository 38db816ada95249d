use oneil::load_model::{load_model_step, LoadAction, LoadEvent, LoadState, LoadStep};
use oneil::paths::ModelPath;

fn mp(s: &str) -> ModelPath {
    ModelPath::new(s.to_string())
}

#[test]
fn load_runs_the_steps_in_order_and_once() {
    let mut st = LoadState::new();
    let a = mp("/m/a");
    assert_eq!(load_model_step(&mut st, &a, LoadEvent::Begin), LoadAction::Run(LoadStep::LoadAst));
    assert_eq!(st.active.len(), 1);
    let order = [
        LoadStep::LoadAst,
        LoadStep::ResolvePythonImports,
        LoadStep::LoadImportedModels,
        LoadStep::PreloadDesignFiles,
        LoadStep::ResolveModelImports,
        LoadStep::ResolveDesignSurface,
        LoadStep::ResolveParameters,
    ];
    for w in order.windows(2) {
        assert_eq!(load_model_step(&mut st, &a, LoadEvent::Done(w[0])), LoadAction::Run(w[1]));
    }
    // A nested load of the same model while it is active is skipped.
    assert_eq!(load_model_step(&mut st, &a, LoadEvent::Begin), LoadAction::Skip);
    assert_eq!(
        load_model_step(&mut st, &a, LoadEvent::Done(LoadStep::ResolveParameters)),
        LoadAction::Run(LoadStep::ResolveTests)
    );
    assert_eq!(load_model_step(&mut st, &a, LoadEvent::Done(LoadStep::ResolveTests)), LoadAction::Finished);
    assert!(st.active.is_empty());
    assert_eq!(st.visited.len(), 1);
    // Visited before: skipped.
    assert_eq!(load_model_step(&mut st, &a, LoadEvent::Begin), LoadAction::Skip);
}

#[test]
fn failed_syntax_trees_are_recorded() {
    let mut st = LoadState::new();
    let a = mp("/m/a");
    let b = mp("/m/b");
    assert_eq!(load_model_step(&mut st, &a, LoadEvent::Begin), LoadAction::Run(LoadStep::LoadAst));
    assert_eq!(load_model_step(&mut st, &b, LoadEvent::Begin), LoadAction::Run(LoadStep::LoadAst));
    assert_eq!(load_model_step(&mut st, &b, LoadEvent::AstFailed), LoadAction::Finished);
    assert_eq!(st.failed.len(), 1);
    assert_eq!(st.failed[0].as_str(), "/m/b");
    assert_eq!(st.active.len(), 1);
    assert_eq!(st.active[0].as_str(), "/m/a");
}
