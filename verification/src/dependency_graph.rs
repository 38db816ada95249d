//! The dependency graph of the loaded models: one edge for each thing a
//! parameter or test reads.
use vstd::prelude::*;

use crate::ir::{Dependencies, Model, SpecModel};
use crate::ordmap::{OrderedMap, map_get};
use crate::paths::ModelPath;
use crate::span::Span;

verus! {

/// A parameter of a referenced model that a value reads: the referenced
/// model's path, the reference's name and the parameter's name.
#[derive(Debug)]
pub struct ExternalDependency {
    pub model_path: ModelPath,
    pub reference_name: String,
    pub parameter_name: String,
}

/// One edge of the dependency graph: what a parameter or a test of the
/// model at `model_path` reads.
#[derive(Debug)]
pub enum DependencyEdge {
    /// A parameter reads a builtin value.
    Builtin { model_path: ModelPath, parameter_name: String, name: String },
    /// A parameter reads another parameter of its model.
    Parameter { model_path: ModelPath, parameter_name: String, dependency: String },
    /// A parameter reads a parameter of a referenced model.
    External { model_path: ModelPath, parameter_name: String, dependency: ExternalDependency },
    /// A test reads a parameter of its model.
    TestParameter { model_path: ModelPath, test_index: usize, dependency: String },
    /// A test reads a parameter of a referenced model.
    TestExternal { model_path: ModelPath, test_index: usize, dependency: ExternalDependency },
}

/// The view of a [`DependencyEdge`]; an external dependency is viewed as
/// (model path, reference name, parameter name).
pub enum SpecEdge {
    Builtin { model_path: Seq<char>, parameter_name: Seq<char>, name: Seq<char> },
    Parameter { model_path: Seq<char>, parameter_name: Seq<char>, dependency: Seq<char> },
    External { model_path: Seq<char>, parameter_name: Seq<char>, dependency: (Seq<char>, Seq<char>, Seq<char>) },
    TestParameter { model_path: Seq<char>, test_index: usize, dependency: Seq<char> },
    TestExternal { model_path: Seq<char>, test_index: usize, dependency: (Seq<char>, Seq<char>, Seq<char>) },
}

/// The view of an external dependency.
pub open spec fn external_view(d: ExternalDependency) -> (Seq<char>, Seq<char>, Seq<char>) {
    (d.model_path.deep_view(), d.reference_name@, d.parameter_name@)
}

impl DeepView for DependencyEdge {
    type V = SpecEdge;

    open spec fn deep_view(&self) -> SpecEdge {
        match self {
            DependencyEdge::Builtin { model_path, parameter_name, name } =>
                SpecEdge::Builtin { model_path: model_path.deep_view(), parameter_name: parameter_name@, name: name@ },
            DependencyEdge::Parameter { model_path, parameter_name, dependency } => SpecEdge::Parameter {
                model_path: model_path.deep_view(),
                parameter_name: parameter_name@,
                dependency: dependency@,
            },
            DependencyEdge::External { model_path, parameter_name, dependency } => SpecEdge::External {
                model_path: model_path.deep_view(),
                parameter_name: parameter_name@,
                dependency: external_view(*dependency),
            },
            DependencyEdge::TestParameter { model_path, test_index, dependency } => SpecEdge::TestParameter {
                model_path: model_path.deep_view(),
                test_index: *test_index,
                dependency: dependency@,
            },
            DependencyEdge::TestExternal { model_path, test_index, dependency } => SpecEdge::TestExternal {
                model_path: model_path.deep_view(),
                test_index: *test_index,
                dependency: external_view(*dependency),
            },
        }
    }
}

/// The dependency graph: its edges in the order they were added.
#[derive(Debug)]
pub struct DependencyGraph {
    pub edges: Vec<DependencyEdge>,
}

/// The views of edges.
pub open spec fn edge_views(v: Seq<DependencyEdge>) -> Seq<SpecEdge> {
    v.map_values(|e: DependencyEdge| e.deep_view())
}

/// What the model reads through `name`: the path of the reference of that
/// name, or else of the reference that the submodel of that name goes
/// through.
pub open spec fn external_path(m: SpecModel, name: Seq<char>) -> Option<Seq<char>> {
    match map_get(m.references, name) {
        Some(r) => Some(r.path),
        None => match map_get(m.submodels, name) {
            Some(s) => match map_get(m.references, s.reference_name) {
                Some(r) => Some(r.path),
                None => None,
            },
            None => None,
        },
    }
}

/// Who reads: a parameter (by name) or a test (by index).
pub enum Reader {
    Parameter(Seq<char>),
    Test(usize),
}

/// The edge for a reader of the model at `path` that reads `dep` of its
/// own model.
pub open spec fn local_edge(path: Seq<char>, who: Reader, dep: Seq<char>) -> SpecEdge {
    match who {
        Reader::Parameter(n) => SpecEdge::Parameter { model_path: path, parameter_name: n, dependency: dep },
        Reader::Test(i) => SpecEdge::TestParameter { model_path: path, test_index: i, dependency: dep },
    }
}

/// The edge for a reader of the model at `path` that reads an external
/// parameter.
pub open spec fn external_edge(path: Seq<char>, who: Reader, dep: (Seq<char>, Seq<char>, Seq<char>)) -> SpecEdge {
    match who {
        Reader::Parameter(n) => SpecEdge::External { model_path: path, parameter_name: n, dependency: dep },
        Reader::Test(i) => SpecEdge::TestExternal { model_path: path, test_index: i, dependency: dep },
    }
}

/// The edges for builtin values read by parameter `name`.
pub open spec fn builtin_edges(path: Seq<char>, name: Seq<char>, b: Seq<(String, Span)>) -> Seq<SpecEdge> {
    Seq::new(b.len(), |i: int| SpecEdge::Builtin { model_path: path, parameter_name: name, name: b[i].0@ })
}

/// The edges for parameters of the same model read by `who`.
pub open spec fn local_edges(path: Seq<char>, who: Reader, d: Seq<(String, Span)>) -> Seq<SpecEdge> {
    Seq::new(d.len(), |i: int| local_edge(path, who, d[i].0@))
}

/// The edges for external parameters read by `who`; one whose reference
/// leads nowhere gives no edge.
pub open spec fn external_edges(path: Seq<char>, m: SpecModel, who: Reader, d: Seq<((String, String), Span)>) -> Seq<SpecEdge>
    decreases d.len(),
{
    if d.len() == 0 {
        Seq::empty()
    } else {
        let before = external_edges(path, m, who, d.drop_last());
        let ((r, p), _) = d.last();
        match external_path(m, r@) {
            Some(q) => before.push(external_edge(path, who, (q, r@, p@))),
            None => before,
        }
    }
}

/// The edges of one parameter: its builtin, local and external reads.
pub open spec fn parameter_edges(path: Seq<char>, m: SpecModel, name: Seq<char>, d: Dependencies) -> Seq<SpecEdge> {
    builtin_edges(path, name, d.builtin@) + local_edges(path, Reader::Parameter(name), d.parameter@) + external_edges(
        path,
        m,
        Reader::Parameter(name),
        d.external@,
    )
}

/// The edges of one test: its local and external reads.
pub open spec fn test_edges(path: Seq<char>, m: SpecModel, index: usize, d: Dependencies) -> Seq<SpecEdge> {
    local_edges(path, Reader::Test(index), d.parameter@) + external_edges(path, m, Reader::Test(index), d.external@)
}

/// The edges of the parameters `ps`, in order.
pub open spec fn parameters_edges(path: Seq<char>, m: SpecModel, ps: Seq<(Seq<char>, crate::ir::Parameter)>) -> Seq<SpecEdge>
    decreases ps.len(),
{
    if ps.len() == 0 {
        Seq::empty()
    } else {
        parameters_edges(path, m, ps.drop_last()) + parameter_edges(path, m, ps.last().0, ps.last().1.dependencies)
    }
}

/// The edges of the tests `ts`, in order.
pub open spec fn tests_edges(path: Seq<char>, m: SpecModel, ts: Seq<(usize, crate::ir::Test)>) -> Seq<SpecEdge>
    decreases ts.len(),
{
    if ts.len() == 0 {
        Seq::empty()
    } else {
        tests_edges(path, m, ts.drop_last()) + test_edges(path, m, ts.last().0, ts.last().1.dependencies)
    }
}

/// The edges of one model: those of its parameters, then of its tests.
pub open spec fn model_edges(path: Seq<char>, m: SpecModel) -> Seq<SpecEdge> {
    parameters_edges(path, m, m.parameters) + tests_edges(path, m, m.tests)
}

/// The edges of all the models, model by model.
pub open spec fn graph_edges(models: Seq<(Seq<char>, SpecModel)>) -> Seq<SpecEdge>
    decreases models.len(),
{
    if models.len() == 0 {
        Seq::empty()
    } else {
        graph_edges(models.drop_last()) + model_edges(models.last().0, models.last().1)
    }
}

/// The path that `name` leads to from `m`.
fn find_external_path(m: &Model, name: &String) -> (r: Option<ModelPath>)
    ensures
        r.deep_view() == external_path(m.deep_view(), name@),
{
    match m.references.get(name) {
        Some(r) => Some(r.path.duplicate()),
        None => match m.submodels.get(name) {
            Some(s) => match m.references.get(&s.reference_name) {
                Some(r) => Some(r.path.duplicate()),
                None => None,
            },
            None => None,
        },
    }
}

fn make_local_edge(path: &ModelPath, name: &String, index: usize, is_test: bool, dep: &String) -> (r: DependencyEdge)
    ensures
        r.deep_view() == local_edge(
            path.deep_view(),
            if is_test {
                Reader::Test(index)
            } else {
                Reader::Parameter(name@)
            },
            dep@,
        ),
{
    if is_test {
        DependencyEdge::TestParameter { model_path: path.duplicate(), test_index: index, dependency: dep.clone() }
    } else {
        DependencyEdge::Parameter { model_path: path.duplicate(), parameter_name: name.clone(), dependency: dep.clone() }
    }
}

fn make_external_edge(path: &ModelPath, name: &String, index: usize, is_test: bool, dep: ExternalDependency) -> (r:
    DependencyEdge)
    ensures
        r.deep_view() == external_edge(
            path.deep_view(),
            if is_test {
                Reader::Test(index)
            } else {
                Reader::Parameter(name@)
            },
            external_view(dep),
        ),
{
    if is_test {
        DependencyEdge::TestExternal { model_path: path.duplicate(), test_index: index, dependency: dep }
    } else {
        DependencyEdge::External { model_path: path.duplicate(), parameter_name: name.clone(), dependency: dep }
    }
}

/// Adds the edges of what a reader (parameter `name`, or test `index` when
/// `is_test`) of the model `m` at `path` reads of its own model and of
/// referenced models.
fn push_reads(
    out: &mut Vec<DependencyEdge>,
    path: &ModelPath,
    m: &Model,
    name: &String,
    index: usize,
    is_test: bool,
    d: &Dependencies,
)
    ensures
        ({
            let who = if is_test {
                Reader::Test(index)
            } else {
                Reader::Parameter(name@)
            };
            edge_views(final(out)@) == edge_views(old(out)@) + local_edges(path.deep_view(), who, d.parameter@)
                + external_edges(path.deep_view(), m.deep_view(), who, d.external@)
        }),
{
    let ghost who = if is_test {
        Reader::Test(index)
    } else {
        Reader::Parameter(name@)
    };
    let ghost start = edge_views(out@);
    let mut i: usize = 0;
    assert(local_edges(path.deep_view(), who, d.parameter@.take(0)) =~= Seq::<SpecEdge>::empty());
    assert(edge_views(out@) =~= start + Seq::<SpecEdge>::empty());
    while i < d.parameter.len()
        invariant
            i <= d.parameter@.len(),
            who == (if is_test {
                Reader::Test(index)
            } else {
                Reader::Parameter(name@)
            }),
            edge_views(out@) == start + local_edges(path.deep_view(), who, d.parameter@.take(i as int)),
        decreases d.parameter@.len() - i,
    {
        let e = make_local_edge(path, name, index, is_test, &d.parameter[i].0);
        let ghost before = out@;
        out.push(e);
        assert(edge_views(out@) =~= edge_views(before).push(e.deep_view()));
        assert(local_edges(path.deep_view(), who, d.parameter@.take(i + 1)) =~= local_edges(
            path.deep_view(),
            who,
            d.parameter@.take(i as int),
        ).push(local_edge(path.deep_view(), who, d.parameter@[i as int].0@)));
        i = i + 1;
    }
    assert(d.parameter@.take(d.parameter@.len() as int) =~= d.parameter@);
    let ghost mid = edge_views(out@);
    let mut j: usize = 0;
    assert(d.external@.take(0) =~= Seq::<((String, String), Span)>::empty());
    assert(edge_views(out@) =~= mid + external_edges(path.deep_view(), m.deep_view(), who, d.external@.take(0)));
    while j < d.external.len()
        invariant
            j <= d.external@.len(),
            who == (if is_test {
                Reader::Test(index)
            } else {
                Reader::Parameter(name@)
            }),
            edge_views(out@) == mid + external_edges(path.deep_view(), m.deep_view(), who, d.external@.take(j as int)),
        decreases d.external@.len() - j,
    {
        let r = &d.external[j].0.0;
        let p = &d.external[j].0.1;
        proof {
            assert(d.external@.take(j + 1).drop_last() =~= d.external@.take(j as int));
            assert(d.external@.take(j + 1).last() == d.external@[j as int]);
        }
        match find_external_path(m, r) {
            Some(q) => {
                let dep = ExternalDependency { model_path: q, reference_name: r.clone(), parameter_name: p.clone() };
                let e = make_external_edge(path, name, index, is_test, dep);
                let ghost before = out@;
                out.push(e);
                assert(edge_views(out@) =~= edge_views(before).push(e.deep_view()));
            },
            None => {},
        }
        j = j + 1;
    }
    assert(d.external@.take(d.external@.len() as int) =~= d.external@);
}

/// Adds the edges of the builtin values parameter `name` reads.
fn push_builtins(out: &mut Vec<DependencyEdge>, path: &ModelPath, name: &String, b: &Vec<(String, Span)>)
    ensures
        edge_views(final(out)@) == edge_views(old(out)@) + builtin_edges(path.deep_view(), name@, b@),
{
    let ghost start = edge_views(out@);
    let mut i: usize = 0;
    assert(edge_views(out@) =~= start + builtin_edges(path.deep_view(), name@, b@.take(0)));
    while i < b.len()
        invariant
            i <= b@.len(),
            edge_views(out@) == start + builtin_edges(path.deep_view(), name@, b@.take(i as int)),
        decreases b@.len() - i,
    {
        let e = DependencyEdge::Builtin { model_path: path.duplicate(), parameter_name: name.clone(), name: b[i].0.clone() };
        let ghost before = out@;
        out.push(e);
        assert(edge_views(out@) =~= edge_views(before).push(e.deep_view()));
        assert(builtin_edges(path.deep_view(), name@, b@.take(i + 1)) =~= builtin_edges(
            path.deep_view(),
            name@,
            b@.take(i as int),
        ).push(e.deep_view()));
        i = i + 1;
    }
    assert(b@.take(b@.len() as int) =~= b@);
}

/// Adds the edges of one model: its parameters', then its tests'.
fn push_model_edges(out: &mut Vec<DependencyEdge>, path: &ModelPath, m: &Model)
    ensures
        edge_views(final(out)@) == edge_views(old(out)@) + model_edges(path.deep_view(), m.deep_view()),
{
    let ghost mv = m.deep_view();
    let ghost start = edge_views(out@);
    let ps = &m.parameters.entries;
    let mut i: usize = 0;
    assert(mv.parameters.take(0) =~= Seq::<(Seq<char>, crate::ir::Parameter)>::empty());
    assert(edge_views(out@) =~= start + parameters_edges(path.deep_view(), mv, mv.parameters.take(0)));
    while i < ps.len()
        invariant
            i <= ps@.len(),
            mv == m.deep_view(),
            ps@ == m.parameters.entries@,
            mv.parameters == crate::ordmap::entries_view(ps@),
            edge_views(out@) == start + parameters_edges(path.deep_view(), mv, mv.parameters.take(i as int)),
        decreases ps@.len() - i,
    {
        let name = &ps[i].0;
        let p = &ps[i].1;
        proof {
            assert(mv.parameters.take(i + 1).drop_last() =~= mv.parameters.take(i as int));
            assert(mv.parameters.take(i + 1).last() == (name@, *p));
        }
        push_builtins(out, path, name, &p.dependencies.builtin);
        push_reads(out, path, m, name, 0, false, &p.dependencies);
        proof {
            assert(edge_views(out@) =~= start + parameters_edges(path.deep_view(), mv, mv.parameters.take(i + 1)));
        }
        i = i + 1;
    }
    assert(mv.parameters.take(ps@.len() as int) =~= mv.parameters);
    let ghost mid = edge_views(out@);
    let ts = &m.tests;
    let mut j: usize = 0;
    assert(mv.tests.take(0) =~= Seq::<(usize, crate::ir::Test)>::empty());
    assert(edge_views(out@) =~= mid + tests_edges(path.deep_view(), mv, mv.tests.take(0)));
    while j < ts.len()
        invariant
            j <= ts@.len(),
            mv == m.deep_view(),
            ts@ == mv.tests,
            edge_views(out@) == mid + tests_edges(path.deep_view(), mv, mv.tests.take(j as int)),
        decreases ts@.len() - j,
    {
        let index = ts[j].0;
        let t = &ts[j].1;
        proof {
            assert(mv.tests.take(j + 1).drop_last() =~= mv.tests.take(j as int));
            assert(mv.tests.take(j + 1).last() == (index, *t));
        }
        let unnamed = String::new();
        push_reads(out, path, m, &unnamed, index, true, &t.dependencies);
        proof {
            assert(edge_views(out@) =~= mid + tests_edges(path.deep_view(), mv, mv.tests.take(j + 1)));
        }
        j = j + 1;
    }
    assert(mv.tests.take(ts@.len() as int) =~= mv.tests);
}

/// Builds the dependency graph of the loaded models: for each model in
/// turn, for each of its parameters the builtin values, parameters and
/// referenced parameters it reads, then for each of its tests the
/// parameters and referenced parameters it reads. A read through a name that
/// is neither a reference nor a submodel of the model gives no edge.
pub fn get_dependency_graph(models: &OrderedMap<Model>) -> (r: DependencyGraph)
    ensures
        edge_views(r.edges@) == graph_edges(models.deep_view()),
{
    let ghost mv = models.deep_view();
    let mut edges: Vec<DependencyEdge> = Vec::new();
    let ms = &models.entries;
    let mut i: usize = 0;
    assert(mv.take(0) =~= Seq::<(Seq<char>, SpecModel)>::empty());
    assert(edge_views(edges@) =~= graph_edges(mv.take(0)));
    while i < ms.len()
        invariant
            i <= ms@.len(),
            mv == models.deep_view(),
            ms@ == models.entries@,
            mv == crate::ordmap::entries_view(ms@),
            edge_views(edges@) == graph_edges(mv.take(i as int)),
        decreases ms@.len() - i,
    {
        let path = ModelPath::new(ms[i].0.clone());
        proof {
            assert(mv.take(i + 1).drop_last() =~= mv.take(i as int));
            assert(mv.take(i + 1).last() == (path.deep_view(), ms@[i as int].1.deep_view()));
        }
        push_model_edges(&mut edges, &path, &ms[i].1);
        i = i + 1;
    }
    assert(mv.take(ms@.len() as int) =~= mv);
    DependencyGraph { edges }
}


/// What a parameter's value reads, each thing once in order of first
/// appearance: builtin values, parameters of its model, and (reference,
/// parameter) pairs of referenced models.
#[derive(Debug)]
pub struct DependencySet {
    pub builtin: Vec<String>,
    pub parameter: Vec<String>,
    pub external: Vec<(String, String)>,
}

/// The elements of `s`, each once, in order of first appearance.
pub open spec fn distinct_in_order<A>(s: Seq<A>) -> Seq<A>
    decreases s.len(),
{
    if s.len() == 0 {
        Seq::empty()
    } else {
        crate::analysis::set_insert(distinct_in_order(s.drop_last()), s.last())
    }
}

/// The names of a list of named reads.
pub open spec fn read_names(v: Seq<(String, Span)>) -> Seq<Seq<char>> {
    v.map_values(|e: (String, Span)| e.0@)
}

/// The (reference, parameter) names of a list of external reads.
pub open spec fn external_names(v: Seq<((String, String), Span)>) -> Seq<(Seq<char>, Seq<char>)> {
    v.map_values(|e: ((String, String), Span)| (e.0.0@, e.0.1@))
}

/// The distinct names of named reads, in order.
fn distinct_names(v: &Vec<(String, Span)>) -> (r: Vec<String>)
    ensures
        r.deep_view() == distinct_in_order(read_names(v@)),
{
    let ghost names = read_names(v@);
    let mut out: Vec<String> = Vec::new();
    let mut i: usize = 0;
    assert(names.take(0) =~= Seq::<Seq<char>>::empty());
    assert(out.deep_view() =~= Seq::<Seq<char>>::empty());
    while i < v.len()
        invariant
            i <= v@.len(),
            names == read_names(v@),
            out.deep_view() == distinct_in_order(names.take(i as int)),
        decreases v@.len() - i,
    {
        proof {
            assert(names.take(i + 1).drop_last() =~= names.take(i as int));
            assert(names.take(i + 1).last() == v@[i as int].0@);
        }
        let name = &v[i].0;
        if !crate::design_resolution::contains_name(&out, name) {
            let ghost before = out.deep_view();
            out.push(name.clone());
            assert(out.deep_view() =~= before.push(name@));
        }
        i = i + 1;
    }
    assert(names.take(v@.len() as int) =~= names);
    out
}

/// Whether the pair `(a, b)` is one of `pairs`.
fn contains_pair(pairs: &Vec<(String, String)>, a: &String, b: &String) -> (r: bool)
    ensures
        r == pairs@.map_values(|p: (String, String)| (p.0@, p.1@)).contains((a@, b@)),
{
    let ghost pv = pairs@.map_values(|p: (String, String)| (p.0@, p.1@));
    let mut i: usize = 0;
    while i < pairs.len()
        invariant
            i <= pairs@.len(),
            pv == pairs@.map_values(|p: (String, String)| (p.0@, p.1@)),
            forall|j: int| 0 <= j < i ==> pv[j] != (a@, b@),
        decreases pairs@.len() - i,
    {
        if pairs[i].0 == *a && pairs[i].1 == *b {
            assert(pv[i as int] == (a@, b@));
            return true;
        }
        i = i + 1;
    }
    proof {
        if pv.contains((a@, b@)) {
            let j = choose|j: int| 0 <= j < pv.len() && #[trigger] pv[j] == (a@, b@);
            assert(false);
        }
    }
    false
}

/// What a parameter's value reads (see [`DependencySet`]).
pub fn dependency_set(deps: &Dependencies) -> (r: DependencySet)
    ensures
        r.builtin.deep_view() == distinct_in_order(read_names(deps.builtin@)),
        r.parameter.deep_view() == distinct_in_order(read_names(deps.parameter@)),
        r.external@.map_values(|p: (String, String)| (p.0@, p.1@)) == distinct_in_order(external_names(deps.external@)),
{
    let ghost names = external_names(deps.external@);
    let mut external: Vec<(String, String)> = Vec::new();
    let mut i: usize = 0;
    assert(names.take(0) =~= Seq::<(Seq<char>, Seq<char>)>::empty());
    assert(external@.map_values(|p: (String, String)| (p.0@, p.1@)) =~= Seq::<(Seq<char>, Seq<char>)>::empty());
    while i < deps.external.len()
        invariant
            i <= deps.external@.len(),
            names == external_names(deps.external@),
            external@.map_values(|p: (String, String)| (p.0@, p.1@)) == distinct_in_order(names.take(i as int)),
        decreases deps.external@.len() - i,
    {
        proof {
            assert(names.take(i + 1).drop_last() =~= names.take(i as int));
        }
        let (pair, _) = &deps.external[i];
        let (a, b) = pair;
        assert(names.take(i + 1).last() == (a@, b@));
        if !contains_pair(&external, a, b) {
            let ghost before = external@.map_values(|p: (String, String)| (p.0@, p.1@));
            external.push((a.clone(), b.clone()));
            assert(external@.map_values(|p: (String, String)| (p.0@, p.1@)) =~= before.push((a@, b@)));
        }
        i = i + 1;
    }
    assert(names.take(deps.external@.len() as int) =~= names);
    DependencySet { builtin: distinct_names(&deps.builtin), parameter: distinct_names(&deps.parameter), external }
}

} // verus!
