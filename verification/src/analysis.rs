//! Trees of related parameters and the errors met while building them.
use vstd::prelude::*;

use crate::ordmap::{OrderedMap, map_get, map_insert};
use crate::paths::ModelPath;

verus! {

// ------------------------------------------------------------------------
// Trees
// ------------------------------------------------------------------------

/// A tree of values with children.
#[derive(Debug)]
pub struct Tree<T> {
    pub value: T,
    pub children: Vec<Tree<T>>,
}

impl<T> Tree<T> {
    /// A tree with the given value and children.
    pub fn new(value: T, children: Vec<Tree<T>>) -> (r: Self)
        ensures
            r.value == value,
            r.children == children,
    {
        Tree { value, children }
    }

    /// The value at the root.
    pub fn value(&self) -> (r: &T)
        ensures
            *r == self.value,
    {
        &self.value
    }

    /// The children of the root.
    pub fn children(&self) -> (r: &[Tree<T>])
        ensures
            r@ == self.children@,
    {
        self.children.as_slice()
    }
}

// ------------------------------------------------------------------------
// Errors
// ------------------------------------------------------------------------

/// Model evaluation had errors.
#[derive(Debug, Clone, Copy, PartialEq, Eq, Structural)]
pub struct ModelEvalHasErrors;

/// Why the value of a tree node could not be looked up.
#[derive(Debug, Clone, Copy, PartialEq, Eq, Structural)]
pub enum GetValueError {
    /// The model was not found or could not be evaluated.
    Model,
    /// The parameter was not found in the model.
    Parameter,
}

/// Why the value of a test node could not be looked up.
#[derive(Debug, Clone, Copy, PartialEq, Eq, Structural)]
pub enum GetTestValueError {
    /// The model was not found or could not be evaluated.
    Model,
    /// The test was not found in the evaluated model.
    Test,
}

/// The sequence with `x` added at the end unless it is already present.
pub open spec fn set_insert<A>(s: Seq<A>, x: A) -> Seq<A> {
    if s.contains(x) {
        s
    } else {
        s.push(x)
    }
}

/// The sequence with each element of `t` added in turn.
pub open spec fn set_extend<A>(s: Seq<A>, t: Seq<A>) -> Seq<A>
    decreases t.len(),
{
    if t.len() == 0 {
        s
    } else {
        set_insert(set_extend(s, t.drop_last()), t.last())
    }
}

/// Adds a name to a list of distinct names unless it is present.
pub(crate) fn insert_name(v: &mut Vec<String>, x: String)
    ensures
        final(v).deep_view() == set_insert(old(v).deep_view(), x@),
{
    let mut i: usize = 0;
    while i < v.len()
        invariant
            i <= v@.len(),
            forall|j: int| 0 <= j < i ==> v@[j]@ != x@,
        decreases v@.len() - i,
    {
        if v[i] == x {
            proof {
                assert(v.deep_view()[i as int] == x@);
            }
            return;
        }
        i = i + 1;
    }
    let ghost before = v.deep_view();
    proof {
        if before.contains(x@) {
            let j = choose|j: int| 0 <= j < before.len() && before[j] == x@;
            assert(v@[j]@ == x@);
        }
    }
    v.push(x);
    assert(v.deep_view() =~= before.push(x@));
}

/// Adds an index to a list of distinct indices unless it is present.
fn insert_index(v: &mut Vec<usize>, x: usize)
    ensures
        final(v)@ == set_insert(old(v)@, x),
{
    let mut i: usize = 0;
    while i < v.len()
        invariant
            i <= v@.len(),
            forall|j: int| 0 <= j < i ==> v@[j] != x,
        decreases v@.len() - i,
    {
        if v[i] == x {
            return;
        }
        i = i + 1;
    }
    v.push(x);
}

/// The errors of one model met while building a tree.
#[derive(Debug)]
pub enum TreeModelError {
    /// The model could not be loaded or evaluated.
    ModelError,
    /// The model loaded but some parameters and/or tests had errors.
    LocalErrors { parameters: Vec<String>, tests: Vec<usize> },
}

/// The view of a [`TreeModelError`].
pub enum SpecTreeModelError {
    ModelError,
    LocalErrors { parameters: Seq<Seq<char>>, tests: Seq<usize> },
}

impl DeepView for TreeModelError {
    type V = SpecTreeModelError;

    open spec fn deep_view(&self) -> SpecTreeModelError {
        match self {
            TreeModelError::ModelError => SpecTreeModelError::ModelError,
            TreeModelError::LocalErrors { parameters, tests } => SpecTreeModelError::LocalErrors {
                parameters: parameters.deep_view(),
                tests: tests@,
            },
        }
    }
}

/// A model error absorbs everything; local errors gain the parameter.
pub open spec fn with_parameter_error(e: SpecTreeModelError, name: Seq<char>) -> SpecTreeModelError {
    match e {
        SpecTreeModelError::ModelError => SpecTreeModelError::ModelError,
        SpecTreeModelError::LocalErrors { parameters, tests } => SpecTreeModelError::LocalErrors {
            parameters: set_insert(parameters, name),
            tests,
        },
    }
}

/// A model error absorbs everything; local errors gain the test.
pub open spec fn with_test_error(e: SpecTreeModelError, index: usize) -> SpecTreeModelError {
    match e {
        SpecTreeModelError::ModelError => SpecTreeModelError::ModelError,
        SpecTreeModelError::LocalErrors { parameters, tests } => SpecTreeModelError::LocalErrors {
            parameters,
            tests: set_insert(tests, index),
        },
    }
}

/// The merge of two errors of one model: a model error on either side wins;
/// otherwise the parameters and tests are joined.
pub open spec fn merged(a: SpecTreeModelError, b: SpecTreeModelError) -> SpecTreeModelError {
    match (a, b) {
        (SpecTreeModelError::ModelError, _) => SpecTreeModelError::ModelError,
        (_, SpecTreeModelError::ModelError) => SpecTreeModelError::ModelError,
        (
            SpecTreeModelError::LocalErrors { parameters: p1, tests: t1 },
            SpecTreeModelError::LocalErrors { parameters: p2, tests: t2 },
        ) => SpecTreeModelError::LocalErrors { parameters: set_extend(p1, p2), tests: set_extend(t1, t2) },
    }
}

/// Adds each name of `t` to the distinct names `v`.
fn extend_names(v: &mut Vec<String>, t: Vec<String>)
    ensures
        final(v).deep_view() == set_extend(old(v).deep_view(), t.deep_view()),
{
    let ghost tv = t.deep_view();
    let ghost start = v.deep_view();
    let mut i: usize = 0;
    assert(tv.take(0) =~= Seq::<Seq<char>>::empty());
    while i < t.len()
        invariant
            i <= t@.len(),
            tv == t.deep_view(),
            v.deep_view() == set_extend(start, tv.take(i as int)),
        decreases t@.len() - i,
    {
        proof {
            assert(tv.take(i + 1).drop_last() =~= tv.take(i as int));
        }
        insert_name(v, t[i].clone());
        i = i + 1;
    }
    assert(tv.take(t@.len() as int) =~= tv);
}

/// Adds each index of `t` to the distinct indices `v`.
fn extend_indices(v: &mut Vec<usize>, t: Vec<usize>)
    ensures
        final(v)@ == set_extend(old(v)@, t@),
{
    let ghost start = v@;
    let mut i: usize = 0;
    assert(t@.take(0) =~= Seq::<usize>::empty());
    while i < t.len()
        invariant
            i <= t@.len(),
            v@ == set_extend(start, t@.take(i as int)),
        decreases t@.len() - i,
    {
        proof {
            assert(t@.take(i + 1).drop_last() =~= t@.take(i as int));
        }
        insert_index(v, t[i]);
        i = i + 1;
    }
    assert(t@.take(t@.len() as int) =~= t@);
}

impl TreeModelError {
    /// Records a parameter error (no change for a model error).
    pub fn insert_parameter_error(&mut self, parameter_name: String)
        ensures
            final(self).deep_view() == with_parameter_error(old(self).deep_view(), parameter_name@),
    {
        match self {
            TreeModelError::ModelError => {},
            TreeModelError::LocalErrors { parameters, .. } => {
                insert_name(parameters, parameter_name);
            },
        }
    }

    /// Records a test error (no change for a model error).
    pub fn insert_test_error(&mut self, test_index: usize)
        ensures
            final(self).deep_view() == with_test_error(old(self).deep_view(), test_index),
    {
        match self {
            TreeModelError::ModelError => {},
            TreeModelError::LocalErrors { tests, .. } => {
                insert_index(tests, test_index);
            },
        }
    }

    /// Merges another error of the same model into this one.
    pub fn extend(&mut self, other: TreeModelError)
        ensures
            final(self).deep_view() == merged(old(self).deep_view(), other.deep_view()),
    {
        if let TreeModelError::ModelError = self {
            return;
        }
        match other {
            TreeModelError::ModelError => {
                *self = TreeModelError::ModelError;
            },
            TreeModelError::LocalErrors { parameters: other_parameters, tests: other_tests } => {
                match self {
                    TreeModelError::ModelError => {},
                    TreeModelError::LocalErrors { parameters, tests } => {
                        extend_names(parameters, other_parameters);
                        extend_indices(tests, other_tests);
                    },
                }
            },
        }
    }
}

/// The errors met while building a dependency or reference tree, by model
/// path.
#[derive(Debug)]
pub struct TreeErrors {
    pub errors: OrderedMap<TreeModelError>,
}

/// The errors recorded for a model, or, for a model with none yet, local
/// errors that name no parameter and no test.
pub open spec fn entry_or_no_errors(x: Option<SpecTreeModelError>) -> SpecTreeModelError {
    match x {
        Some(e) => e,
        None => SpecTreeModelError::LocalErrors { parameters: Seq::empty(), tests: Seq::empty() },
    }
}

/// The errors after merging in `other`, entry by entry.
pub open spec fn errors_extend(
    e: Seq<(Seq<char>, SpecTreeModelError)>,
    other: Seq<(Seq<char>, SpecTreeModelError)>,
) -> Seq<(Seq<char>, SpecTreeModelError)>
    decreases other.len(),
{
    if other.len() == 0 {
        e
    } else {
        let rest = errors_extend(e, other.drop_last());
        let (p, x) = other.last();
        match map_get(rest, p) {
            Some(old) => map_insert(rest, p, merged(old, x)),
            None => map_insert(rest, p, x),
        }
    }
}

impl TreeErrors {
    /// No errors.
    pub fn empty() -> (r: Self)
        ensures
            r.errors.deep_view().len() == 0,
    {
        TreeErrors { errors: OrderedMap::new() }
    }

    /// Records that the model at `model_path` could not be evaluated.
    pub fn insert_model_error(&mut self, model_path: ModelPath)
        ensures
            final(self).errors.deep_view() == map_insert(
                old(self).errors.deep_view(),
                model_path.deep_view(),
                SpecTreeModelError::ModelError,
            ),
    {
        self.errors.insert(model_path.path, TreeModelError::ModelError);
    }

    /// Records a parameter error of the model at `model_path`.
    pub fn insert_parameter_error(&mut self, model_path: ModelPath, parameter_name: String)
        ensures
            final(self).errors.deep_view() == map_insert(
                old(self).errors.deep_view(),
                model_path.deep_view(),
                with_parameter_error(
                    entry_or_no_errors(map_get(old(self).errors.deep_view(), model_path.deep_view())),
                    parameter_name@,
                ),
            ),
    {
        match self.errors.index_of(&model_path.path) {
            Some(i) => {
                let ghost old_view = self.errors.deep_view();
                let (k, mut e) = self.errors.entries.remove(i);
                e.insert_parameter_error(parameter_name);
                self.errors.entries.insert(i, (k, e));
                proof {
                    crate::ordmap::lemma_key_index_from(old_view, model_path.deep_view(), 0);
                    assert(self.errors.deep_view() =~= old_view.update(i as int, (model_path.deep_view(), e.deep_view())));
                }
            },
            None => {
                let mut parameters: Vec<String> = Vec::new();
                parameters.push(parameter_name);
                let e = TreeModelError::LocalErrors { parameters, tests: Vec::new() };
                assert(e.deep_view() == with_parameter_error(
                    entry_or_no_errors(None),
                    parameter_name@,
                )) by {
                    assert(e->parameters.deep_view() =~= seq![parameter_name@]);
                    assert(seq![parameter_name@] =~= Seq::<Seq<char>>::empty().push(parameter_name@));
                    assert(e->tests@ =~= Seq::<usize>::empty());
                }
                self.errors.insert(model_path.path, e);
            },
        }
    }

    /// Records a test error of the model at `model_path`.
    pub fn insert_test_error(&mut self, model_path: ModelPath, test_index: usize)
        ensures
            final(self).errors.deep_view() == map_insert(
                old(self).errors.deep_view(),
                model_path.deep_view(),
                with_test_error(entry_or_no_errors(map_get(old(self).errors.deep_view(), model_path.deep_view())), test_index),
            ),
    {
        match self.errors.index_of(&model_path.path) {
            Some(i) => {
                let ghost old_view = self.errors.deep_view();
                let (k, mut e) = self.errors.entries.remove(i);
                e.insert_test_error(test_index);
                self.errors.entries.insert(i, (k, e));
                proof {
                    crate::ordmap::lemma_key_index_from(old_view, model_path.deep_view(), 0);
                    assert(self.errors.deep_view() =~= old_view.update(i as int, (model_path.deep_view(), e.deep_view())));
                }
            },
            None => {
                let mut tests: Vec<usize> = Vec::new();
                tests.push(test_index);
                let e = TreeModelError::LocalErrors { parameters: Vec::new(), tests };
                assert(e.deep_view() == with_test_error(entry_or_no_errors(None), test_index)) by {
                    assert(e->parameters.deep_view() =~= Seq::<Seq<char>>::empty());
                    assert(e->tests@ =~= Seq::<usize>::empty().push(test_index));
                }
                self.errors.insert(model_path.path, e);
            },
        }
    }

    /// Merges the errors of `other` into these, model by model.
    pub fn extend(&mut self, other: TreeErrors)
        ensures
            final(self).errors.deep_view() == errors_extend(old(self).errors.deep_view(), other.errors.deep_view()),
    {
        let ghost start = self.errors.deep_view();
        let ghost ov = other.errors.deep_view();
        let mut entries = other.errors.entries;
        let ghost ev = entries@;
        let mut rev: Vec<(String, TreeModelError)> = Vec::new();
        // Take the entries from the back, then merge them front to back.
        while entries.len() > 0
            invariant
                ev.len() == entries@.len() + rev@.len(),
                forall|j: int| 0 <= j < entries@.len() ==> entries@[j] == ev[j],
                forall|j: int| 0 <= j < rev@.len() ==> rev@[j] == ev[ev.len() - 1 - j],
            decreases entries@.len(),
        {
            let x = entries.pop().unwrap();
            rev.push(x);
        }
        let mut i: usize = 0;
        let n = rev.len();
        assert(ov.take(0) =~= Seq::<(Seq<char>, SpecTreeModelError)>::empty());
        while rev.len() > 0
            invariant
                n == ev.len(),
                ov == ev.map_values(|p: (String, TreeModelError)| (p.0@, p.1.deep_view())),
                i + rev@.len() == n,
                forall|j: int| 0 <= j < rev@.len() ==> rev@[j] == ev[n - 1 - j],
                self.errors.deep_view() == errors_extend(start, ov.take(i as int)),
            decreases rev@.len(),
        {
            let (path, error) = rev.pop().unwrap();
            proof {
                assert(ev[i as int] == (path, error));
                assert(ov.take(i + 1).drop_last() =~= ov.take(i as int));
                assert(ov.take(i + 1).last() == (path@, error.deep_view()));
            }
            match self.errors.index_of(&path) {
                Some(k) => {
                    let ghost old_view = self.errors.deep_view();
                    let (key, mut e) = self.errors.entries.remove(k);
                    e.extend(error);
                    self.errors.entries.insert(k, (key, e));
                    proof {
                        crate::ordmap::lemma_key_index_from(old_view, path@, 0);
                        assert(self.errors.deep_view() =~= old_view.update(k as int, (path@, e.deep_view())));
                    }
                },
                None => {
                    self.errors.insert(path, error);
                },
            }
            i = i + 1;
        }
        assert(ov.take(n as int) =~= ov);
    }

    /// The paths of the models with errors, in the order they were first
    /// recorded.
    pub fn model_paths(&self) -> (r: Vec<&String>)
        ensures
            r@.len() == self.errors.deep_view().len(),
            forall|i: int| 0 <= i < r@.len() ==> r@[i]@ == #[trigger] self.errors.deep_view()[i].0,
    {
        let mut r: Vec<&String> = Vec::new();
        let mut i: usize = 0;
        while i < self.errors.entries.len()
            invariant
                i <= self.errors.entries@.len(),
                r@.len() == i,
                forall|j: int| 0 <= j < i ==> r@[j]@ == #[trigger] self.errors.deep_view()[j].0,
            decreases self.errors.entries@.len() - i,
        {
            r.push(&self.errors.entries[i].0);
            i = i + 1;
        }
        r
    }
}

/// A model error absorbs whatever is merged into it, from either side.
pub proof fn law_model_error_absorbs(x: SpecTreeModelError)
    ensures
        merged(SpecTreeModelError::ModelError, x) == SpecTreeModelError::ModelError,
        merged(x, SpecTreeModelError::ModelError) == SpecTreeModelError::ModelError,
        with_parameter_error(SpecTreeModelError::ModelError, seq![]) == SpecTreeModelError::ModelError,
{
}

/// A parameter error recorded for a model that has no model error is kept:
/// the model then has local errors that name the parameter, whether or not
/// it had errors before; the errors of other models stay as they were.
pub proof fn law_parameter_error_is_recorded(
    e: Seq<(Seq<char>, SpecTreeModelError)>,
    path: Seq<char>,
    name: Seq<char>,
    other: Seq<char>,
)
    requires
        map_get(e, path) != Some(SpecTreeModelError::ModelError),
    ensures
        ({
            let after = map_insert(e, path, with_parameter_error(entry_or_no_errors(map_get(e, path)), name));
            &&& map_get(after, path) matches Some(SpecTreeModelError::LocalErrors { parameters, .. })
                && parameters.contains(name)
            &&& other != path ==> map_get(after, other) == map_get(e, other)
        }),
{
    let entry = entry_or_no_errors(map_get(e, path));
    crate::ordmap::lemma_insert_get(e, path, with_parameter_error(entry, name));
    match entry {
        SpecTreeModelError::LocalErrors { parameters, tests } => {
            lemma_set_insert_contains(parameters, name);
        },
        SpecTreeModelError::ModelError => {},
    }
}

/// A test error recorded for a model that has no model error is kept: the
/// model then has local errors that name the test.
pub proof fn law_test_error_is_recorded(e: Seq<(Seq<char>, SpecTreeModelError)>, path: Seq<char>, index: usize)
    requires
        map_get(e, path) != Some(SpecTreeModelError::ModelError),
    ensures
        map_get(map_insert(e, path, with_test_error(entry_or_no_errors(map_get(e, path)), index)), path) matches Some(
            SpecTreeModelError::LocalErrors { tests, .. },
        ) && tests.contains(index),
{
    let entry = entry_or_no_errors(map_get(e, path));
    crate::ordmap::lemma_insert_get(e, path, with_test_error(entry, index));
    match entry {
        SpecTreeModelError::LocalErrors { parameters, tests } => {
            lemma_set_insert_contains(tests, index);
        },
        SpecTreeModelError::ModelError => {},
    }
}

proof fn lemma_set_insert_contains<A>(s: Seq<A>, x: A)
    ensures
        set_insert(s, x).contains(x),
{
    if !s.contains(x) {
        assert(s.push(x)[s.len() as int] == x);
    }
}

/// The paths of the models whose independents could not be computed, each
/// once, in the order first recorded.
#[derive(Debug)]
pub struct IndependentsErrors {
    pub paths: Vec<String>,
}

impl IndependentsErrors {
    /// No errors.
    pub fn new() -> (r: Self)
        ensures
            r.paths.deep_view().len() == 0,
    {
        let r = IndependentsErrors { paths: Vec::new() };
        assert(r.paths.deep_view() =~= Seq::<Seq<char>>::empty());
        r
    }

    /// Records the model at `path`.
    pub fn insert(&mut self, path: ModelPath)
        ensures
            final(self).paths.deep_view() == set_insert(old(self).paths.deep_view(), path.deep_view()),
    {
        insert_name(&mut self.paths, path.path);
    }

    /// Whether nothing was recorded.
    pub fn is_empty(&self) -> (r: bool)
        ensures
            r == (self.paths.deep_view().len() == 0),
    {
        self.paths.len() == 0
    }

    /// The paths recorded, in the order they were first recorded.
    pub fn paths(&self) -> (r: &[String])
        ensures
            r@ == self.paths@,
    {
        self.paths.as_slice()
    }

    /// Records every path of `other`.
    pub fn extend(&mut self, other: IndependentsErrors)
        ensures
            final(self).paths.deep_view() == set_extend(old(self).paths.deep_view(), other.paths.deep_view()),
    {
        extend_names(&mut self.paths, other.paths);
    }
}

/// Inserting into a list of distinct elements keeps them distinct, and
/// the element is then present.
pub proof fn law_set_insert_distinct<A>(s: Seq<A>, x: A)
    requires
        s.no_duplicates(),
    ensures
        set_insert(s, x).no_duplicates(),
        set_insert(s, x).contains(x),
        forall|y: A| s.contains(y) ==> set_insert(s, x).contains(y),
{
    if !s.contains(x) {
        assert(s.push(x)[s.len() as int] == x);
        assert forall|y: A| s.contains(y) implies s.push(x).contains(y) by {
            let j = choose|j: int| 0 <= j < s.len() && s[j] == y;
            assert(s.push(x)[j] == y);
        }
    }
}

} // verus!
