//! Workspace-relative display of paths.
use vstd::prelude::*;

use crate::paths::string_of;

verus! {

/// What `std::path::Path::strip_prefix` gives for `path` and `root`, as
/// text: the rest of `path` after the components of `root`, or `None` when
/// `root` is not a prefix of `path`.
pub uninterp spec fn path_strip_prefix(path: Seq<char>, root: Seq<char>) -> Option<Seq<char>>;

/// The number of components `std::path::Path::components` finds in a path.
pub uninterp spec fn path_component_count(path: Seq<char>) -> nat;

/// Calls `std::path::Path::strip_prefix`; the contract only names its
/// result (the rules by which components match are std's).
#[verifier::external_body]
fn strip_path_prefix(path: &str, root: &str) -> (r: Option<String>)
    ensures
        r.deep_view() == path_strip_prefix(path@, root@),
{
    match std::path::Path::new(path).strip_prefix(std::path::Path::new(root)) {
        Ok(suffix) => Some(suffix.to_string_lossy().into_owned()),
        Err(_) => None,
    }
}

/// Counts the components of a path with `std::path::Path::components`; the
/// contract only names the count.
#[verifier::external_body]
fn component_count(path: &str) -> (r: usize)
    ensures
        r == path_component_count(path@),
{
    std::path::Path::new(path).components().count()
}

/// For each workspace root: what stripping it from the path gives, and the
/// number of its components.
pub type SpecCandidates = Seq<(Option<Seq<char>>, nat)>;

/// The index of the candidate chosen among the first `n`: of the roots that
/// are a prefix of the path, the first one with the most components.
pub open spec fn best_candidate(c: SpecCandidates, n: int) -> Option<int>
    decreases n,
{
    if n <= 0 {
        None
    } else {
        let b = best_candidate(c, n - 1);
        if c[n - 1].0 is Some && (b is None || c[n - 1].1 > c[b->0].1) {
            Some(n - 1)
        } else {
            b
        }
    }
}

/// The display chosen from the candidates: the rest of the path after the
/// chosen root, or `.` when nothing is left; `None` when no root is a
/// prefix of the path.
pub open spec fn trimmed(c: SpecCandidates) -> Option<Seq<char>> {
    match best_candidate(c, c.len() as int) {
        None => None,
        Some(i) => {
            let rest = c[i].0->0;
            if rest.len() == 0 {
                Some(seq!['.'])
            } else {
                Some(rest)
            }
        },
    }
}

/// The candidates of `path` for the given roots.
pub open spec fn candidates_of(path: Seq<char>, roots: Seq<Seq<char>>) -> SpecCandidates {
    Seq::new(roots.len(), |i: int| (path_strip_prefix(path, roots[i]), path_component_count(roots[i])))
}

/// The display of `path` relative to the chosen workspace root.
pub open spec fn spec_trim_path(path: Seq<char>, roots: Seq<Seq<char>>) -> Option<Seq<char>> {
    trimmed(candidates_of(path, roots))
}

/// The views of the roots.
pub open spec fn root_views(roots: Seq<String>) -> Seq<Seq<char>> {
    Seq::new(roots.len(), |i: int| roots[i]@)
}

/// The views of candidates.
pub open spec fn candidate_views(c: Seq<(Option<String>, usize)>) -> SpecCandidates {
    Seq::new(c.len(), |i: int| (c[i].0.deep_view(), c[i].1 as nat))
}

/// Chooses the display of a path from what stripping each workspace root
/// gave (`None` where the root is not a prefix) and the roots' component
/// counts: the first root with the most components wins; `.` when the path
/// is that root.
pub fn trim_from_candidates(candidates: &[(Option<String>, usize)]) -> (r: Option<String>)
    ensures
        r.deep_view() == trimmed(candidate_views(candidates@)),
{
    let ghost c = candidate_views(candidates@);
    let mut best: Option<(usize, usize)> = None;
    let mut i: usize = 0;
    while i < candidates.len()
        invariant
            i <= candidates@.len(),
            c == candidate_views(candidates@),
            match best {
                None => best_candidate(c, i as int) is None,
                Some((k, count)) => best_candidate(c, i as int) == Some(k as int) && k < i && count == c[k as int].1,
            },
        decreases candidates@.len() - i,
    {
        let (stripped, count) = &candidates[i];
        proof {
            assert(c[i as int] == (stripped.deep_view(), *count as nat));
        }
        if stripped.is_some() {
            let better = match best {
                None => true,
                Some((_, c0)) => *count > c0,
            };
            if better {
                best = Some((i, *count));
            }
        }
        i = i + 1;
    }
    match best {
        None => None,
        Some((k, _)) => {
            let (stripped, _) = &candidates[k];
            proof {
                assert(c[k as int] == (stripped.deep_view(), candidates@[k as int].1 as nat));
                law_longest_root_wins(c, c.len() as int);
            }
            match stripped {
                Some(rest) => {
                    if rest.unicode_len() == 0 {
                        let dot = string_of(".");
                        proof {
                            reveal_strlit(".");
                        }
                        Some(dot)
                    } else {
                        Some(rest.clone())
                    }
                },
                None => None,
            }
        },
    }
}

/// Returns `path` relative to the workspace root it lies in, matching the
/// roots longest-first so a nested folder wins over its parent; `.` when
/// the path is a root; `None` when no root is a prefix of it.
pub fn trim_path(path: &str, workspace_roots: &[String]) -> (r: Option<String>)
    ensures
        r.deep_view() == spec_trim_path(path@, root_views(workspace_roots@)),
{
    let mut candidates: Vec<(Option<String>, usize)> = Vec::new();
    let mut i: usize = 0;
    while i < workspace_roots.len()
        invariant
            i <= workspace_roots@.len(),
            candidates@.len() == i,
            forall|j: int|
                0 <= j < i ==> (#[trigger] candidates@[j]).0.deep_view() == path_strip_prefix(
                    path@,
                    workspace_roots@[j]@,
                ) && candidates@[j].1 == path_component_count(workspace_roots@[j]@),
        decreases workspace_roots@.len() - i,
    {
        let root = workspace_roots[i].as_str();
        let stripped = strip_path_prefix(path, root);
        let count = component_count(root);
        candidates.push((stripped, count));
        i = i + 1;
    }
    proof {
        assert(candidate_views(candidates@) =~= candidates_of(path@, root_views(workspace_roots@)));
    }
    trim_from_candidates(candidates.as_slice())
}

/// The chosen root has the most components among the roots that are a
/// prefix of the path, and comes first among those that tie with it; when
/// none is chosen, no root is a prefix of the path.
pub proof fn law_longest_root_wins(c: SpecCandidates, n: int)
    requires
        0 <= n <= c.len(),
    ensures
        best_candidate(c, n) matches Some(b) ==> {
            &&& 0 <= b < n
            &&& c[b].0 is Some
            &&& forall|j: int| 0 <= j < n && (#[trigger] c[j]).0 is Some ==> c[j].1 <= c[b].1
            &&& forall|j: int| 0 <= j < b && (#[trigger] c[j]).0 is Some ==> c[j].1 < c[b].1
        },
        best_candidate(c, n) is None ==> forall|j: int| 0 <= j < n ==> (#[trigger] c[j]).0 is None,
    decreases n,
{
    if n > 0 {
        law_longest_root_wins(c, n - 1);
    }
}

} // verus!
