//! The children of a node of a reference tree: the parameters and tests
//! that read a parameter.
use vstd::prelude::*;

use crate::analysis::{GetTestValueError, SpecTreeModelError, Tree, TreeErrors, entry_or_no_errors, set_insert, with_test_error};
use crate::ordmap::{map_get, map_insert};
use crate::paths::ModelPath;
use crate::span::Span;

verus! {

/// Where the value of a tree node lives: a parameter of a model, reached
/// through a reference or directly.
#[derive(Debug)]
pub struct TreeValueLocation {
    pub model_path: ModelPath,
    pub reference_name: Option<String>,
    pub parameter_name: String,
}

/// The view of a [`TreeValueLocation`].
pub open spec fn location_view(l: TreeValueLocation) -> (Seq<char>, Option<Seq<char>>, Seq<char>) {
    (
        l.model_path.deep_view(),
        match l.reference_name {
            Some(r) => Some(r@),
            None => None,
        },
        l.parameter_name@,
    )
}

/// The readers of a parameter, as the dependency graph lists them: the
/// parameters of the same model, the parameters of other models, the tests
/// of the same model and the tests of other models.
#[derive(Debug)]
pub struct ReferenceSet {
    pub parameter: Vec<String>,
    pub external_parameter: Vec<(ModelPath, String)>,
    pub test: Vec<usize>,
    pub external_test: Vec<(ModelPath, usize)>,
}

/// An evaluated test: whether it passed and the span of its condition.
#[derive(Debug, Clone, Copy)]
pub struct TestOutcome {
    pub passed: bool,
    pub expr_span: Span,
}

/// What looking up a test gives: nothing (the test is not known), its
/// outcome, or why it could not be evaluated.
pub type TestLookup = Option<Result<TestOutcome, GetTestValueError>>;

/// A test in a reference tree.
#[derive(Debug)]
pub struct ReferenceTestValue {
    pub model_path: ModelPath,
    pub test_index: usize,
    pub test_passed: bool,
    pub display_info: (ModelPath, Span),
}

/// The view of a test node: model path, test index, whether it passed,
/// and the path and span shown for it.
pub open spec fn test_value_view(v: ReferenceTestValue) -> (Seq<char>, usize, bool, Seq<char>, Span) {
    (v.model_path.deep_view(), v.test_index, v.test_passed, v.display_info.0.deep_view(), v.display_info.1)
}

/// The children of a node of a reference tree: the parameters still to be
/// expanded, the tests as leaves, and the errors met looking the tests up.
#[derive(Debug)]
pub struct ReferenceChildren {
    pub parameter_children: Vec<TreeValueLocation>,
    pub test_children: Vec<Tree<ReferenceTestValue>>,
    pub test_errors: TreeErrors,
}

/// The parameter children for `deps` read from the model at `path`: the
/// readers in the same model, then those in other models, none through a
/// reference.
pub open spec fn parameter_children_spec(path: Seq<char>, deps: ReferenceSet) -> Seq<(Seq<char>, Option<Seq<char>>, Seq<char>)> {
    Seq::new(deps.parameter@.len(), |i: int| (path, None::<Seq<char>>, deps.parameter@[i]@)) + Seq::new(
        deps.external_parameter@.len(),
        |i: int| (deps.external_parameter@[i].0.deep_view(), None::<Seq<char>>, deps.external_parameter@[i].1@),
    )
}

/// The tests that read the parameter, as (model path, test index): those
/// of the same model, then those of other models.
pub open spec fn test_readers(path: Seq<char>, deps: ReferenceSet) -> Seq<(Seq<char>, usize)> {
    Seq::new(deps.test@.len(), |i: int| (path, deps.test@[i])) + Seq::new(
        deps.external_test@.len(),
        |i: int| (deps.external_test@[i].0.deep_view(), deps.external_test@[i].1),
    )
}

/// The test leaves for the first `n` readers: one for each test whose
/// lookup gave an outcome, in order.
pub open spec fn test_children_spec(
    readers: Seq<(Seq<char>, usize)>,
    lookups: Seq<TestLookup>,
    n: nat,
) -> Seq<(Seq<char>, usize, bool, Seq<char>, Span)>
    decreases n,
{
    if n == 0 {
        Seq::empty()
    } else {
        let before = test_children_spec(readers, lookups, (n - 1) as nat);
        let (p, i) = readers[n - 1];
        match lookups[n - 1] {
            Some(Ok(o)) => before.push((p, i, o.passed, p, o.expr_span)),
            _ => before,
        }
    }
}

/// The errors for the first `n` readers, starting from none: a model that
/// could not be evaluated gets a model error, a test that could not be
/// evaluated a test error.
pub open spec fn test_errors_spec(
    readers: Seq<(Seq<char>, usize)>,
    lookups: Seq<TestLookup>,
    n: nat,
) -> Seq<(Seq<char>, SpecTreeModelError)>
    decreases n,
{
    if n == 0 {
        Seq::empty()
    } else {
        let before = test_errors_spec(readers, lookups, (n - 1) as nat);
        let (p, i) = readers[n - 1];
        match lookups[n - 1] {
            Some(Err(GetTestValueError::Model)) => map_insert(before, p, SpecTreeModelError::ModelError),
            Some(Err(GetTestValueError::Test)) => map_insert(
                before,
                p,
                with_test_error(entry_or_no_errors(map_get(before, p)), i),
            ),
            _ => before,
        }
    }
}

/// The children of the reference-tree node for a parameter of the model at
/// `model_path`, given `deps`, the readers of that parameter, and
/// `lookups`, what looking up each reading test gave (first the tests of the
/// same model, then those of other models). Builtin values read no
/// parameter, so there are no builtin children.
pub fn get_reference_tree_children(model_path: &ModelPath, deps: &ReferenceSet, lookups: &Vec<TestLookup>) -> (r:
    ReferenceChildren)
    requires
        lookups@.len() == deps.test@.len() + deps.external_test@.len(),
    ensures
        r.parameter_children@.map_values(|l: TreeValueLocation| location_view(l)) == parameter_children_spec(
            model_path.deep_view(),
            *deps,
        ),
        r.test_children@.map_values(|t: Tree<ReferenceTestValue>| test_value_view(t.value)) == test_children_spec(
            test_readers(model_path.deep_view(), *deps),
            lookups@,
            lookups@.len(),
        ),
        forall|j: int| 0 <= j < r.test_children@.len() ==> (#[trigger] r.test_children@[j]).children@.len() == 0,
        r.test_errors.errors.deep_view() == test_errors_spec(
            test_readers(model_path.deep_view(), *deps),
            lookups@,
            lookups@.len(),
        ),
{
    let ghost mp = model_path.deep_view();
    let ghost pspec = parameter_children_spec(mp, *deps);
    let mut parameter_children: Vec<TreeValueLocation> = Vec::new();
    let mut i: usize = 0;
    while i < deps.parameter.len()
        invariant
            i <= deps.parameter@.len(),
            pspec == parameter_children_spec(mp, *deps),
            mp == model_path.deep_view(),
            parameter_children@.map_values(|l: TreeValueLocation| location_view(l)) =~= pspec.take(i as int),
        decreases deps.parameter@.len() - i,
    {
        let loc = TreeValueLocation {
            model_path: model_path.duplicate(),
            reference_name: None,
            parameter_name: deps.parameter[i].clone(),
        };
        let ghost before = parameter_children@;
        assert(location_view(loc) == pspec[i as int]);
        parameter_children.push(loc);
        assert(parameter_children@.map_values(|l: TreeValueLocation| location_view(l)) =~= before.map_values(
            |l: TreeValueLocation| location_view(l),
        ).push(location_view(loc)));
        assert(pspec.take(i + 1) =~= pspec.take(i as int).push(pspec[i as int]));
        i = i + 1;
    }
    let np = deps.parameter.len();
    let mut k: usize = 0;
    while k < deps.external_parameter.len()
        invariant
            k <= deps.external_parameter@.len(),
            np == deps.parameter@.len(),
            pspec == parameter_children_spec(mp, *deps),
            parameter_children@.map_values(|l: TreeValueLocation| location_view(l)) =~= pspec.take(np + k),
        decreases deps.external_parameter@.len() - k,
    {
        let (p, n) = &deps.external_parameter[k];
        let loc = TreeValueLocation { model_path: p.duplicate(), reference_name: None, parameter_name: n.clone() };
        let ghost before = parameter_children@;
        assert(location_view(loc) == pspec[np + k]);
        parameter_children.push(loc);
        assert(parameter_children@.map_values(|l: TreeValueLocation| location_view(l)) =~= before.map_values(
            |l: TreeValueLocation| location_view(l),
        ).push(location_view(loc)));
        assert(pspec.take(np + k + 1) =~= pspec.take(np + k).push(pspec[np + k]));
        k = k + 1;
    }
    assert(pspec.take(np + k) =~= pspec);

    let ghost readers = test_readers(mp, *deps);
    let mut reader_list: Vec<(ModelPath, usize)> = Vec::new();
    let mut a: usize = 0;
    while a < deps.test.len()
        invariant
            a <= deps.test@.len(),
            readers == test_readers(mp, *deps),
            mp == model_path.deep_view(),
            reader_list@.len() == a,
            forall|j: int| 0 <= j < a ==> (#[trigger] reader_list@[j]).0.deep_view() == readers[j].0
                && reader_list@[j].1 == readers[j].1,
        decreases deps.test@.len() - a,
    {
        reader_list.push((model_path.duplicate(), deps.test[a]));
        a = a + 1;
    }
    let nt = deps.test.len();
    let mut b: usize = 0;
    while b < deps.external_test.len()
        invariant
            b <= deps.external_test@.len(),
            nt == deps.test@.len(),
            readers == test_readers(mp, *deps),
            reader_list@.len() == nt + b,
            forall|j: int| 0 <= j < nt + b ==> (#[trigger] reader_list@[j]).0.deep_view() == readers[j].0
                && reader_list@[j].1 == readers[j].1,
        decreases deps.external_test@.len() - b,
    {
        let (p, t) = &deps.external_test[b];
        reader_list.push((p.duplicate(), *t));
        b = b + 1;
    }

    let mut test_children: Vec<Tree<ReferenceTestValue>> = Vec::new();
    let mut test_errors = TreeErrors::empty();
    let mut c: usize = 0;
    assert(test_errors.errors.deep_view() =~= test_errors_spec(readers, lookups@, 0));
    while c < lookups.len()
        invariant
            c <= lookups@.len(),
            lookups@.len() == reader_list@.len(),
            readers.len() == reader_list@.len(),
            forall|j: int| 0 <= j < reader_list@.len() ==> (#[trigger] reader_list@[j]).0.deep_view() == readers[j].0
                && reader_list@[j].1 == readers[j].1,
            test_children@.map_values(|t: Tree<ReferenceTestValue>| test_value_view(t.value)) =~= test_children_spec(
                readers,
                lookups@,
                c as nat,
            ),
            forall|j: int| 0 <= j < test_children@.len() ==> (#[trigger] test_children@[j]).children@.len() == 0,
            test_errors.errors.deep_view() == test_errors_spec(readers, lookups@, c as nat),
        decreases lookups@.len() - c,
    {
        let (p, t) = &reader_list[c];
        assert(reader_list@[c as int].0.deep_view() == readers[c as int].0);
        match &lookups[c] {
            Some(Ok(o)) => {
                let v = ReferenceTestValue {
                    model_path: p.duplicate(),
                    test_index: *t,
                    test_passed: o.passed,
                    display_info: (p.duplicate(), o.expr_span),
                };
                test_children.push(Tree::new(v, Vec::new()));
            },
            Some(Err(GetTestValueError::Model)) => {
                test_errors.insert_model_error(p.duplicate());
            },
            Some(Err(GetTestValueError::Test)) => {
                test_errors.insert_test_error(p.duplicate(), *t);
            },
            None => {},
        }
        c = c + 1;
    }
    ReferenceChildren { parameter_children, test_children, test_errors }
}


proof fn lemma_set_insert_has(s: Seq<usize>, x: usize, y: usize)
    ensures
        set_insert(s, x).contains(y) <==> (s.contains(y) || y == x),
{
    if !s.contains(x) {
        assert(s.push(x)[s.len() as int] == x);
        if s.push(x).contains(y) && y != x {
            let k = choose|k: int| 0 <= k < s.push(x).len() && s.push(x)[k] == y;
            assert(s[k] == y);
        }
        if s.contains(y) {
            let k = choose|k: int| 0 <= k < s.len() && s[k] == y;
            assert(s.push(x)[k] == y);
        }
    }
}

/// Whether a reader of the model at `p` among the first `n` had a lookup
/// that gave `e`.
pub open spec fn reader_error(
    readers: Seq<(Seq<char>, usize)>,
    lookups: Seq<TestLookup>,
    n: nat,
    p: Seq<char>,
    e: GetTestValueError,
) -> bool {
    exists|j: int| 0 <= j < n && (#[trigger] readers[j]).0 == p && lookups[j] == Some(Err::<TestOutcome, GetTestValueError>(e))
}

/// Whether the reader `(p, t)` is among the first `n` with a test error.
pub open spec fn test_error_of(readers: Seq<(Seq<char>, usize)>, lookups: Seq<TestLookup>, n: nat, p: Seq<char>, t: usize) -> bool {
    exists|j: int|
        0 <= j < n && #[trigger] readers[j] == (p, t) && lookups[j] == Some(Err::<TestOutcome, GetTestValueError>(GetTestValueError::Test))
}

/// Tests that could not be evaluated are recorded under their own indices.
/// For the model at `p`, after the first `n` readers: it has no entry
/// unless one of its readers failed; its entry is a model error exactly
/// when one of its models failed to evaluate; and otherwise its recorded
/// test indices are exactly the indices of its readers whose test could
/// not be evaluated, and no parameter is recorded.
pub proof fn law_test_errors_by_index(
    readers: Seq<(Seq<char>, usize)>,
    lookups: Seq<TestLookup>,
    n: nat,
    p: Seq<char>,
    t: usize,
)
    requires
        n <= readers.len(),
        n <= lookups.len(),
    ensures
        (map_get(test_errors_spec(readers, lookups, n), p) is None) <==> (!reader_error(
            readers,
            lookups,
            n,
            p,
            GetTestValueError::Model,
        ) && !reader_error(readers, lookups, n, p, GetTestValueError::Test)),
        (map_get(test_errors_spec(readers, lookups, n), p) == Some(SpecTreeModelError::ModelError)) <==> reader_error(
            readers,
            lookups,
            n,
            p,
            GetTestValueError::Model,
        ),
        map_get(test_errors_spec(readers, lookups, n), p) matches Some(SpecTreeModelError::LocalErrors { parameters, tests })
            ==> parameters.len() == 0 && (tests.contains(t) <==> test_error_of(readers, lookups, n, p, t)),
    decreases n,
{
    let errs = test_errors_spec(readers, lookups, n);
    if n == 0 {
        assert(map_get(Seq::<(Seq<char>, SpecTreeModelError)>::empty(), p) is None);
    } else {
        let m = (n - 1) as nat;
        law_test_errors_by_index(readers, lookups, m, p, t);
        let before = test_errors_spec(readers, lookups, m);
        let (q, i) = readers[m as int];
        let l = lookups[m as int];
        assert forall|e: GetTestValueError| #[trigger] reader_error(readers, lookups, n, p, e) <==> (reader_error(
            readers,
            lookups,
            m,
            p,
            e,
        ) || (q == p && l == Some(Err::<TestOutcome, GetTestValueError>(e)))) by {
            if reader_error(readers, lookups, n, p, e) {
                let j = choose|j: int|
                    0 <= j < n && (#[trigger] readers[j]).0 == p && lookups[j] == Some(Err::<TestOutcome, GetTestValueError>(e));
                if j < m {
                    assert(reader_error(readers, lookups, m, p, e));
                }
            }
            if q == p && l == Some(Err::<TestOutcome, GetTestValueError>(e)) {
                assert(readers[m as int].0 == p);
            }
        }
        assert(test_error_of(readers, lookups, n, p, t) <==> (test_error_of(readers, lookups, m, p, t) || (q == p && i == t
            && l == Some(Err::<TestOutcome, GetTestValueError>(GetTestValueError::Test))))) by {
            if test_error_of(readers, lookups, n, p, t) {
                let j = choose|j: int|
                    0 <= j < n && #[trigger] readers[j] == (p, t) && lookups[j] == Some(
                        Err::<TestOutcome, GetTestValueError>(GetTestValueError::Test),
                    );
                if j < m {
                    assert(test_error_of(readers, lookups, m, p, t));
                }
            }
            if q == p && i == t && l == Some(Err::<TestOutcome, GetTestValueError>(GetTestValueError::Test)) {
                assert(readers[m as int] == (p, t));
            }
        }
        assert(reader_error(readers, lookups, n, p, GetTestValueError::Model) == (reader_error(
            readers,
            lookups,
            m,
            p,
            GetTestValueError::Model,
        ) || (q == p && l == Some(Err::<TestOutcome, GetTestValueError>(GetTestValueError::Model)))));
        assert(reader_error(readers, lookups, n, p, GetTestValueError::Test) == (reader_error(
            readers,
            lookups,
            m,
            p,
            GetTestValueError::Test,
        ) || (q == p && l == Some(Err::<TestOutcome, GetTestValueError>(GetTestValueError::Test)))));
        match l {
            Some(Err(GetTestValueError::Model)) => {
                crate::ordmap::lemma_insert_get(before, q, SpecTreeModelError::ModelError);
            },
            Some(Err(GetTestValueError::Test)) => {
                let x = with_test_error(entry_or_no_errors(map_get(before, q)), i);
                crate::ordmap::lemma_insert_get(before, q, x);
                if q == p {
                    match map_get(before, p) {
                        Some(SpecTreeModelError::LocalErrors { parameters, tests }) => {
                            assert(set_insert(tests, i).contains(t) <==> (tests.contains(t) || t == i)) by {
                                lemma_set_insert_has(tests, i, t);
                            }
                        },
                        None => {
                            assert(set_insert(Seq::<usize>::empty(), i).contains(t) <==> t == i) by {
                                lemma_set_insert_has(Seq::<usize>::empty(), i, t);
                            }
                        },
                        _ => {},
                    }
                }
            },
            _ => {},
        }
    }
}

} // verus!
