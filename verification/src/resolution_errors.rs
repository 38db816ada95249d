//! The errors met while resolving one model, collected by kind.
//!
//! Errors about circular dependencies and about Python imports are detected
//! by passes outside this crate; the collection holds them as values of the
//! types `C` and `P`.
use vstd::prelude::*;

use crate::errors::{ParameterResolutionError, VariableResolutionError};
use crate::ordmap::{OrderedMap, lemma_insert_get, lemma_key_index_from, map_get, map_insert};
use crate::resolver::ModelImportResolutionError;

verus! {

/// The errors of a parameter, or none.
pub open spec fn errors_of<E>(e: Seq<(Seq<char>, Seq<E>)>, k: Seq<char>) -> Seq<E> {
    match map_get(e, k) {
        Some(l) => l,
        None => Seq::empty(),
    }
}

/// The position of test `k` among the entries, from position `i` on, or -1.
pub open spec fn test_index_from<E>(e: Seq<(usize, Seq<E>)>, k: usize, i: int) -> int
    decreases e.len() - i,
{
    if 0 <= i < e.len() {
        if e[i].0 == k {
            i
        } else {
            test_index_from(e, k, i + 1)
        }
    } else {
        -1
    }
}

proof fn lemma_test_index_from<E>(e: Seq<(usize, Seq<E>)>, k: usize, i: int)
    requires
        0 <= i,
    ensures
        -1 <= test_index_from(e, k, i) < e.len(),
        test_index_from(e, k, i) >= 0 ==> e[test_index_from(e, k, i)].0 == k,
    decreases e.len() - i,
{
    if 0 <= i < e.len() && e[i].0 != k {
        lemma_test_index_from(e, k, i + 1);
    }
}

/// The errors of test `k`, or none.
pub open spec fn test_errors_of<E>(e: Seq<(usize, Seq<E>)>, k: usize) -> Seq<E> {
    if test_index_from(e, k, 0) >= 0 {
        e[test_index_from(e, k, 0)].1
    } else {
        Seq::empty()
    }
}

/// The entries after adding `err` to the errors of test `k`: an entry for
/// `k` keeps its position, a new one is added at the end.
pub open spec fn test_errors_add<E>(e: Seq<(usize, Seq<E>)>, k: usize, err: E) -> Seq<(usize, Seq<E>)> {
    if test_index_from(e, k, 0) >= 0 {
        e.update(test_index_from(e, k, 0), (k, test_errors_of(e, k).push(err)))
    } else {
        e.push((k, seq![err]))
    }
}

/// The view of the test error entries.
pub open spec fn test_entries_view(t: Seq<(usize, Vec<VariableResolutionError>)>) -> Seq<(usize, Seq<VariableResolutionError>)> {
    t.map_values(|p: (usize, Vec<VariableResolutionError>)| (p.0, p.1@))
}


/// The position of test `k` among the entries.
fn test_position(test: &Vec<(usize, Vec<VariableResolutionError>)>, k: usize) -> (r: Option<usize>)
    ensures
        match r {
            Some(i) => i as int == test_index_from(test_entries_view(test@), k, 0) && i < test@.len(),
            None => test_index_from(test_entries_view(test@), k, 0) == -1,
        },
{
    let ghost tv = test_entries_view(test@);
    let mut i: usize = 0;
    while i < test.len()
        invariant
            i <= test@.len(),
            tv == test_entries_view(test@),
            test_index_from(tv, k, i as int) == test_index_from(tv, k, 0),
        decreases test@.len() - i,
    {
        if test[i].0 == k {
            return Some(i);
        }
        i = i + 1;
    }
    None
}

/// The errors of the parameter named `k` after `err` was added to them.
pub proof fn lemma_parameter_errors_add(
    p: Seq<(Seq<char>, Seq<ParameterResolutionError>)>,
    k: Seq<char>,
    err: ParameterResolutionError,
    other: Seq<char>,
)
    ensures
        errors_of(map_insert(p, k, errors_of(p, k).push(err)), k) == errors_of(p, k).push(err),
        other != k ==> errors_of(map_insert(p, k, errors_of(p, k).push(err)), other) == errors_of(p, other),
{
    lemma_insert_get(p, k, errors_of(p, k).push(err));
}

/// Errors added to a parameter one after the other are all kept, in the
/// order they were added, after the errors it had; the errors of other
/// parameters stay as they were.
pub proof fn law_parameter_errors_accumulate(
    p: Seq<(Seq<char>, Seq<ParameterResolutionError>)>,
    name: Seq<char>,
    first: ParameterResolutionError,
    second: ParameterResolutionError,
    other: Seq<char>,
)
    ensures
        ({
            let once = map_insert(p, name, errors_of(p, name).push(first));
            let twice = map_insert(once, name, errors_of(once, name).push(second));
            &&& errors_of(twice, name) == errors_of(p, name).push(first).push(second)
            &&& other != name ==> errors_of(twice, other) == errors_of(p, other)
        }),
{
    let once = map_insert(p, name, errors_of(p, name).push(first));
    lemma_parameter_errors_add(p, name, first, other);
    lemma_parameter_errors_add(once, name, second, other);
}

/// The errors met while resolving a model.
#[derive(Debug)]
pub struct ResolutionErrorCollection<C, P> {
    pub circular_dependency: Vec<C>,
    pub python_import: OrderedMap<P>,
    pub model_import: OrderedMap<(Option<String>, ModelImportResolutionError)>,
    pub parameter: OrderedMap<Vec<ParameterResolutionError>>,
    pub test: Vec<(usize, Vec<VariableResolutionError>)>,
}

impl<C, P: DeepView> ResolutionErrorCollection<C, P> {
    /// The parameter errors, by parameter name.
    pub open spec fn parameter_view(&self) -> Seq<(Seq<char>, Seq<ParameterResolutionError>)> {
        self.parameter.deep_view()
    }

    /// The test errors, by test index.
    pub open spec fn test_view(&self) -> Seq<(usize, Seq<VariableResolutionError>)> {
        test_entries_view(self.test@)
    }

    /// Whether no error of any kind is recorded.
    pub open spec fn spec_is_empty(&self) -> bool {
        &&& self.circular_dependency@.len() == 0
        &&& self.python_import.deep_view().len() == 0
        &&& self.model_import.deep_view().len() == 0
        &&& self.parameter_view().len() == 0
        &&& self.test_view().len() == 0
    }

    /// A collection with no errors.
    pub fn empty() -> (r: Self)
        ensures
            r.spec_is_empty(),
    {
        let r = ResolutionErrorCollection {
            circular_dependency: Vec::new(),
            python_import: OrderedMap::new(),
            model_import: OrderedMap::new(),
            parameter: OrderedMap::new(),
            test: Vec::new(),
        };
        r
    }

    /// Whether no error of any kind is recorded.
    pub fn is_empty(&self) -> (r: bool)
        ensures
            r == self.spec_is_empty(),
    {
        self.circular_dependency.len() == 0 && self.python_import.is_empty() && self.model_import.is_empty()
            && self.parameter.is_empty() && self.test.len() == 0
    }

    /// Records a circular dependency error.
    pub fn add_circular_dependency_error(&mut self, error: C)
        ensures
            final(self).circular_dependency@ == old(self).circular_dependency@.push(error),
            final(self).python_import.deep_view() == old(self).python_import.deep_view(),
            final(self).model_import.deep_view() == old(self).model_import.deep_view(),
            final(self).parameter_view() == old(self).parameter_view(),
            final(self).test_view() == old(self).test_view(),
    {
        self.circular_dependency.push(error);
    }

    /// Records the error of the Python import at `python_path`, replacing an
    /// earlier one for the same path.
    pub fn add_import_error(&mut self, python_path: String, error: P)
        ensures
            final(self).python_import.deep_view() == map_insert(
                old(self).python_import.deep_view(),
                python_path@,
                error.deep_view(),
            ),
            final(self).circular_dependency@ == old(self).circular_dependency@,
            final(self).model_import.deep_view() == old(self).model_import.deep_view(),
            final(self).parameter_view() == old(self).parameter_view(),
            final(self).test_view() == old(self).test_view(),
    {
        self.python_import.insert(python_path, error);
    }

    /// Records the error of the model import named `reference_name`, with the
    /// submodel it declared if any, replacing an earlier one for the same
    /// name.
    pub fn add_model_import_resolution_error(
        &mut self,
        reference_name: String,
        submodel_name: Option<String>,
        error: ModelImportResolutionError,
    )
        ensures
            final(self).model_import.deep_view() == map_insert(
                old(self).model_import.deep_view(),
                reference_name@,
                (submodel_name.deep_view(), error.deep_view()),
            ),
            final(self).circular_dependency@ == old(self).circular_dependency@,
            final(self).python_import.deep_view() == old(self).python_import.deep_view(),
            final(self).parameter_view() == old(self).parameter_view(),
            final(self).test_view() == old(self).test_view(),
    {
        self.model_import.insert(reference_name, (submodel_name, error));
    }

    /// Adds `error` after the errors already recorded for the parameter.
    pub fn add_parameter_error(&mut self, parameter_name: String, error: ParameterResolutionError)
        ensures
            final(self).parameter_view() == map_insert(
                old(self).parameter_view(),
                parameter_name@,
                errors_of(old(self).parameter_view(), parameter_name@).push(error),
            ),
            final(self).circular_dependency@ == old(self).circular_dependency@,
            final(self).python_import.deep_view() == old(self).python_import.deep_view(),
            final(self).model_import.deep_view() == old(self).model_import.deep_view(),
            final(self).test_view() == old(self).test_view(),
    {
        let ghost before = self.parameter.deep_view();
        match self.parameter.index_of(&parameter_name) {
            Some(i) => {
                let ghost old_entries = self.parameter.entries@;
                let (k, mut list) = self.parameter.entries.remove(i);
                proof {
                    assert(before[i as int] == (k@, list.deep_view()));
                    lemma_key_index_from(before, parameter_name@, 0);
                    assert(k@ == parameter_name@);
                }
                list.push(error);
                self.parameter.entries.insert(i, (k, list));
                proof {
                    assert(self.parameter.entries@ =~= old_entries.update(i as int, (k, list)));
                    assert(list.deep_view() =~= errors_of(
                        before,
                        parameter_name@,
                    ).push(error));
                    assert(self.parameter.deep_view() =~= before.update(
                        i as int,
                        (parameter_name@, errors_of(before, parameter_name@).push(error)),
                    ));
                }
            },
            None => {
                let list = vec![error];
                assert(list.deep_view() =~= errors_of(
                    before,
                    parameter_name@,
                ).push(error));
                self.parameter.insert(parameter_name, list);
            },
        }
    }

    /// Adds `error` after the errors already recorded for the test.
    pub fn add_test_error(&mut self, test_index: usize, error: VariableResolutionError)
        ensures
            final(self).test_view() == test_errors_add(old(self).test_view(), test_index, error),
            final(self).circular_dependency@ == old(self).circular_dependency@,
            final(self).python_import.deep_view() == old(self).python_import.deep_view(),
            final(self).model_import.deep_view() == old(self).model_import.deep_view(),
            final(self).parameter_view() == old(self).parameter_view(),
    {
        let ghost before = self.test_view();
        match test_position(&self.test, test_index) {
            Some(i) => {
                let ghost old_entries = self.test@;
                let (k, mut list) = self.test.remove(i);
                proof {
                    lemma_test_index_from(before, test_index, 0);
                    assert(before[i as int] == (k, list@));
                }
                list.push(error);
                self.test.insert(i, (k, list));
                proof {
                    assert(self.test@ =~= old_entries.update(i as int, (k, list)));
                    assert(self.test_view() =~= before.update(
                        i as int,
                        (test_index, test_errors_of(before, test_index).push(error)),
                    ));
                }
            },
            None => {
                let ghost old_entries = self.test@;
                let mut list = Vec::new();
                list.push(error);
                assert(list@ =~= seq![error]);
                self.test.push((test_index, list));
                assert(self.test@ =~= old_entries.push((test_index, list)));
                assert(self.test_view() =~= before.push((test_index, seq![error])));
            },
        }
    }

    /// The circular dependency errors, in the order they were recorded.
    pub fn get_circular_dependency_errors(&self) -> (r: &[C])
        ensures
            r@ == self.circular_dependency@,
    {
        self.circular_dependency.as_slice()
    }

    /// The Python import errors, by import path.
    pub fn get_python_import_resolution_errors(&self) -> (r: &OrderedMap<P>)
        ensures
            r.deep_view() == self.python_import.deep_view(),
    {
        &self.python_import
    }

    /// The model import errors, by reference name, each with the submodel
    /// the import declared if any.
    pub fn get_model_import_resolution_errors(&self) -> (r: &OrderedMap<(Option<String>, ModelImportResolutionError)>)
        ensures
            r.deep_view() == self.model_import.deep_view(),
    {
        &self.model_import
    }

    /// The parameter errors, by parameter name. A parameter can have several.
    pub fn get_parameter_resolution_errors(&self) -> (r: &OrderedMap<Vec<ParameterResolutionError>>)
        ensures
            r.deep_view() == self.parameter_view(),
    {
        &self.parameter
    }

    /// The test errors, by test index.
    pub fn get_test_resolution_errors(&self) -> (r: &[(usize, Vec<VariableResolutionError>)])
        ensures
            test_entries_view(r@) == self.test_view(),
    {
        self.test.as_slice()
    }

    /// The errors, kind by kind.
    pub fn into_parts(
        self,
    ) -> (r: (
        Vec<C>,
        OrderedMap<P>,
        OrderedMap<(Option<String>, ModelImportResolutionError)>,
        OrderedMap<Vec<ParameterResolutionError>>,
        Vec<(usize, Vec<VariableResolutionError>)>,
    ))
        ensures
            r.0@ == self.circular_dependency@,
            r.1.deep_view() == self.python_import.deep_view(),
            r.2.deep_view() == self.model_import.deep_view(),
            r.3.deep_view() == self.parameter_view(),
            test_entries_view(r.4@) == self.test_view(),
    {
        (self.circular_dependency, self.python_import, self.model_import, self.parameter, self.test)
    }
}

} // verus!
