//! The decisions of loading a model: the recursion guard, the set of
//! visited models, the order of the resolution steps, and the record of
//! models whose syntax tree could not be loaded.
//!
//! Reading files and running each step is the caller's: it hands each
//! outcome to [`load_model_step`] and performs the action it returns.
use vstd::prelude::*;

use crate::paths::ModelPath;

verus! {

/// What loading has recorded: the models being loaded (innermost last),
/// the models visited, and the models whose syntax tree failed to load.
#[derive(Debug)]
pub struct LoadState {
    pub active: Vec<ModelPath>,
    pub visited: Vec<ModelPath>,
    pub failed: Vec<ModelPath>,
}

/// The view of a [`LoadState`].
pub struct SpecLoadState {
    pub active: Seq<Seq<char>>,
    pub visited: Seq<Seq<char>>,
    pub failed: Seq<Seq<char>>,
}

/// The views of paths.
pub open spec fn paths_view(v: Seq<ModelPath>) -> Seq<Seq<char>> {
    v.map_values(|p: ModelPath| p.deep_view())
}

impl LoadState {
    /// The view of the state.
    pub open spec fn view_state(&self) -> SpecLoadState {
        SpecLoadState {
            active: paths_view(self.active@),
            visited: paths_view(self.visited@),
            failed: paths_view(self.failed@),
        }
    }

    /// Nothing loaded yet.
    pub fn new() -> (r: Self)
        ensures
            r.view_state().active.len() == 0,
            r.view_state().visited.len() == 0,
            r.view_state().failed.len() == 0,
    {
        LoadState { active: Vec::new(), visited: Vec::new(), failed: Vec::new() }
    }
}

/// A step of loading a model, in the order they run.
#[derive(Debug, Clone, Copy, PartialEq, Eq, Structural)]
pub enum LoadStep {
    /// Read and parse the model file.
    LoadAst,
    /// Check the Python imports.
    ResolvePythonImports,
    /// Load each model the model imports.
    LoadImportedModels,
    /// Load the design files the model applies.
    PreloadDesignFiles,
    /// Resolve the submodels and references.
    ResolveModelImports,
    /// Resolve the design declarations.
    ResolveDesignSurface,
    /// Resolve the parameters.
    ResolveParameters,
    /// Resolve the tests.
    ResolveTests,
}

/// What happened: a load of the model is asked for, the syntax tree could
/// not be loaded, or a step is done.
#[derive(Debug, Clone, Copy, PartialEq, Eq, Structural)]
pub enum LoadEvent {
    Begin,
    AstFailed,
    Done(LoadStep),
}

/// What to do next: nothing (the model is being loaded or was loaded
/// already), run a step, or nothing more (the load is over).
#[derive(Debug, Clone, Copy, PartialEq, Eq, Structural)]
pub enum LoadAction {
    Skip,
    Run(LoadStep),
    Finished,
}

/// The step after `s`, if any.
pub open spec fn next_step(s: LoadStep) -> Option<LoadStep> {
    match s {
        LoadStep::LoadAst => Some(LoadStep::ResolvePythonImports),
        LoadStep::ResolvePythonImports => Some(LoadStep::LoadImportedModels),
        LoadStep::LoadImportedModels => Some(LoadStep::PreloadDesignFiles),
        LoadStep::PreloadDesignFiles => Some(LoadStep::ResolveModelImports),
        LoadStep::ResolveModelImports => Some(LoadStep::ResolveDesignSurface),
        LoadStep::ResolveDesignSurface => Some(LoadStep::ResolveParameters),
        LoadStep::ResolveParameters => Some(LoadStep::ResolveTests),
        LoadStep::ResolveTests => None,
    }
}

/// The stack of models being loaded after the model at `p` is done: its
/// entry on top is taken off.
pub open spec fn pop_active(active: Seq<Seq<char>>, p: Seq<char>) -> Seq<Seq<char>> {
    if active.len() > 0 && active.last() == p {
        active.drop_last()
    } else {
        active
    }
}

/// The state and action after `event` for the model at `p`.
///
/// - A load of a model being loaded is skipped (the recursion guard), and
///   so is a load of a model visited before; otherwise the model is marked
///   visited and active, and its file is loaded.
/// - A syntax tree that fails to load is recorded, and the load is over.
/// - After each step the next one runs; after the tests the model is no
///   longer active and the load is over.
pub open spec fn spec_load_step(st: SpecLoadState, p: Seq<char>, event: LoadEvent) -> (SpecLoadState, LoadAction) {
    match event {
        LoadEvent::Begin => if st.active.contains(p) || st.visited.contains(p) {
            (st, LoadAction::Skip)
        } else {
            (
                SpecLoadState { active: st.active.push(p), visited: st.visited.push(p), ..st },
                LoadAction::Run(LoadStep::LoadAst),
            )
        },
        LoadEvent::AstFailed => (
            SpecLoadState { failed: st.failed.push(p), active: pop_active(st.active, p), ..st },
            LoadAction::Finished,
        ),
        LoadEvent::Done(s) => match next_step(s) {
            Some(n) => (st, LoadAction::Run(n)),
            None => (SpecLoadState { active: pop_active(st.active, p), ..st }, LoadAction::Finished),
        },
    }
}

/// Whether `path` is one of `paths`.
fn contains_path(paths: &Vec<ModelPath>, path: &ModelPath) -> (r: bool)
    ensures
        r == paths_view(paths@).contains(path.deep_view()),
{
    let mut i: usize = 0;
    while i < paths.len()
        invariant
            i <= paths@.len(),
            forall|j: int| 0 <= j < i ==> paths@[j].deep_view() != path.deep_view(),
        decreases paths@.len() - i,
    {
        if paths[i].same_as(path) {
            assert(paths_view(paths@)[i as int] == path.deep_view());
            return true;
        }
        i = i + 1;
    }
    proof {
        if paths_view(paths@).contains(path.deep_view()) {
            let j = choose|j: int| 0 <= j < paths_view(paths@).len() && paths_view(paths@)[j] == path.deep_view();
            assert(paths@[j].deep_view() == path.deep_view());
        }
    }
    false
}

/// Takes the model at `path` off the top of the stack of models being
/// loaded (see [`pop_active`]).
fn pop_active_model(active: &mut Vec<ModelPath>, path: &ModelPath)
    ensures
        paths_view(final(active)@) == pop_active(paths_view(old(active)@), path.deep_view()),
{
    let n = active.len();
    if n > 0 && active[n - 1].same_as(path) {
        let ghost before = active@;
        active.pop();
        assert(paths_view(active@) =~= paths_view(before).drop_last());
    }
}

/// Records `event` for the model at `path` and says what to do next (see
/// [`spec_load_step`]).
pub fn load_model_step(state: &mut LoadState, path: &ModelPath, event: LoadEvent) -> (r: LoadAction)
    ensures
        (final(state).view_state(), r) == spec_load_step(old(state).view_state(), path.deep_view(), event),
{
    match event {
        LoadEvent::Begin => {
            if contains_path(&state.active, path) || contains_path(&state.visited, path) {
                return LoadAction::Skip;
            }
            let ghost a = state.active@;
            let ghost v = state.visited@;
            state.active.push(path.duplicate());
            state.visited.push(path.duplicate());
            assert(paths_view(state.active@) =~= paths_view(a).push(path.deep_view()));
            assert(paths_view(state.visited@) =~= paths_view(v).push(path.deep_view()));
            LoadAction::Run(LoadStep::LoadAst)
        },
        LoadEvent::AstFailed => {
            let ghost f = state.failed@;
            state.failed.push(path.duplicate());
            assert(paths_view(state.failed@) =~= paths_view(f).push(path.deep_view()));
            pop_active_model(&mut state.active, path);
            LoadAction::Finished
        },
        LoadEvent::Done(s) => match s {
            LoadStep::LoadAst => LoadAction::Run(LoadStep::ResolvePythonImports),
            LoadStep::ResolvePythonImports => LoadAction::Run(LoadStep::LoadImportedModels),
            LoadStep::LoadImportedModels => LoadAction::Run(LoadStep::PreloadDesignFiles),
            LoadStep::PreloadDesignFiles => LoadAction::Run(LoadStep::ResolveModelImports),
            LoadStep::ResolveModelImports => LoadAction::Run(LoadStep::ResolveDesignSurface),
            LoadStep::ResolveDesignSurface => LoadAction::Run(LoadStep::ResolveParameters),
            LoadStep::ResolveParameters => LoadAction::Run(LoadStep::ResolveTests),
            LoadStep::ResolveTests => {
                pop_active_model(&mut state.active, path);
                LoadAction::Finished
            },
        },
    }
}

/// Loading a model leaves the stack of models being loaded as it found it:
/// beginning a load that is not skipped and then finishing it (after its
/// last step, or after a failed syntax tree) gives back the stack from
/// before.
pub proof fn law_load_restores_active(st: SpecLoadState, p: Seq<char>, last: LoadEvent)
    requires
        last == LoadEvent::AstFailed || last == LoadEvent::Done(LoadStep::ResolveTests),
        spec_load_step(st, p, LoadEvent::Begin).1 != LoadAction::Skip,
    ensures
        spec_load_step(spec_load_step(st, p, LoadEvent::Begin).0, p, last).0.active == st.active,
{
    assert(st.active.push(p).drop_last() =~= st.active);
}

/// A model is loaded at most once: once a load of it has begun, every
/// later load of it is skipped, whatever came in between for it.
pub proof fn law_loaded_once(st: SpecLoadState, p: Seq<char>, e: LoadEvent)
    requires
        spec_load_step(st, p, LoadEvent::Begin).1 == LoadAction::Run(LoadStep::LoadAst),
    ensures
        spec_load_step(spec_load_step(spec_load_step(st, p, LoadEvent::Begin).0, p, e).0, p, LoadEvent::Begin).1
            == LoadAction::Skip,
{
    let s1 = spec_load_step(st, p, LoadEvent::Begin).0;
    assert(s1.visited[s1.visited.len() - 1] == p);
    let s2 = spec_load_step(s1, p, e).0;
    assert(s2.visited == s1.visited);
    assert(s2.visited.contains(p));
}

} // verus!
