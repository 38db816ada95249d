//! The intermediate representation of a model: its imports, its parameters
//! and the expressions they hold.
//!
//! Expressions and parameters hold their structure and their source spans:
//! what navigation over a model reads. Operators, literal values and units
//! are evaluated elsewhere and are not held here.
use vstd::prelude::*;

use crate::imports::{ReferenceImport, SpecReferenceImport, SpecSubmodelImport, SubmodelImport, imports_wf};
use crate::ordmap::{OrderedMap, key_index, map_get, map_insert};
use crate::paths::ModelPath;
use crate::print::TraceLevel;
use crate::contribution::Design;
use crate::design_resolution::{ResolvedDesign, SpecDesign, design_is_empty, design_view};
use crate::span::Span;

verus! {

/// A variable read by an expression.
#[derive(Debug)]
pub enum Variable {
    /// A builtin value, such as `pi`.
    Builtin { name: String, span: Span },
    /// A parameter of the same model.
    Parameter { parameter_name: String, parameter_span: Span },
    /// A parameter of a referenced model, written `parameter.reference`.
    External {
        model_path: ModelPath,
        reference_name: String,
        reference_span: Span,
        parameter_name: String,
        parameter_span: Span,
    },
}

/// The function a call names.
#[derive(Debug)]
pub enum FunctionName {
    /// A builtin function, with the span of its name.
    Builtin(String, Span),
    /// A function imported from a Python file.
    Imported { python_path: String, name: String, name_span: Span },
}

/// An expression, as far as its structure and spans go.
#[derive(Debug)]
pub enum Expr {
    /// A literal value.
    Literal { span: Span },
    /// A variable.
    Variable { span: Span, variable: Variable },
    /// A comparison, possibly chained (`a < b < c`): the operands after the
    /// second are in `rest_chained`.
    ComparisonOp { span: Span, left: Box<Expr>, right: Box<Expr>, rest_chained: Vec<Expr> },
    /// A binary operation.
    BinaryOp { span: Span, left: Box<Expr>, right: Box<Expr> },
    /// A unary operation.
    UnaryOp { span: Span, expr: Box<Expr> },
    /// A cast of a value to a unit.
    UnitCast { span: Span, expr: Box<Expr> },
    /// A function call.
    FunctionCall { span: Span, name_span: Span, name: FunctionName, args: Vec<Expr> },
}

/// One piece of a piecewise parameter value: `expr if if_expr`.
#[derive(Debug)]
pub struct PiecewiseExpr {
    pub expr: Expr,
    pub if_expr: Expr,
}

/// The value of a parameter.
#[derive(Debug)]
pub enum ParameterValue {
    /// A single expression.
    Simple(Expr),
    /// A list of guarded expressions.
    Piecewise(Vec<PiecewiseExpr>),
}

/// The limits of a parameter's value.
#[derive(Debug)]
pub enum Limits {
    /// No limits were written.
    Default,
    /// A continuous range `[min, max]`.
    Continuous { min: Expr, max: Expr },
    /// A list of allowed values.
    Discrete { values: Vec<Expr> },
}

/// What a parameter's or test's value reads: builtin values, parameters of
/// the same model, and parameters of referenced models (`parameter.reference`),
/// each with the span where it is read.
#[derive(Debug)]
pub struct Dependencies {
    pub builtin: Vec<(String, Span)>,
    pub parameter: Vec<(String, Span)>,
    pub external: Vec<((String, String), Span)>,
}

impl Dependencies {
    /// No dependencies.
    pub fn new() -> (r: Self)
        ensures
            r.builtin@.len() == 0,
            r.parameter@.len() == 0,
            r.external@.len() == 0,
    {
        Dependencies { builtin: Vec::new(), parameter: Vec::new(), external: Vec::new() }
    }
}

/// A parameter of a model.
#[derive(Debug)]
pub struct Parameter {
    pub name: String,
    pub name_span: Span,
    pub span: Span,
    pub value: ParameterValue,
    pub limits: Limits,
    pub dependencies: Dependencies,
}

/// Parameters are read in specifications as they are.
impl DeepView for Parameter {
    type V = Parameter;

    open spec fn deep_view(&self) -> Parameter {
        *self
    }
}

/// A value that a design gives to a parameter of its target: the value,
/// the span of the assignment in the design, and the span of the
/// parameter's own definition on the target (the assignment's span where
/// the target has no such parameter).
#[derive(Debug)]
pub struct OverlayParameterValue {
    pub value: ParameterValue,
    pub design_span: Span,
    pub original_model_span: Span,
}

/// Overlay values are read in specifications as they are.
impl DeepView for OverlayParameterValue {
    type V = OverlayParameterValue;

    open spec fn deep_view(&self) -> OverlayParameterValue {
        *self
    }
}

/// A reference of the target that a design points at another model.
#[derive(Debug)]
pub struct ReferenceReplacement {
    pub replacement_path: ModelPath,
}

impl DeepView for ReferenceReplacement {
    type V = Seq<char>;

    open spec fn deep_view(&self) -> Seq<char> {
        self.replacement_path.deep_view()
    }
}

/// A Python import of a model, with the functions it provides.
#[derive(Debug)]
pub struct PythonImport {
    pub import_path: String,
    pub import_path_span: Span,
    pub functions: Vec<String>,
}

/// The view of a [`PythonImport`].
pub struct SpecPythonImport {
    pub import_path: Seq<char>,
    pub import_path_span: Span,
    pub functions: Seq<Seq<char>>,
}

impl DeepView for PythonImport {
    type V = SpecPythonImport;

    open spec fn deep_view(&self) -> SpecPythonImport {
        SpecPythonImport {
            import_path: self.import_path@,
            import_path_span: self.import_path_span,
            functions: self.functions@.map_values(|f: String| f@),
        }
    }
}

impl PythonImport {
    /// A Python import of `functions` from `import_path`.
    pub fn new(import_path: String, import_path_span: Span, functions: Vec<String>) -> (r: Self)
        ensures
            r.import_path@ == import_path@,
            r.import_path_span == import_path_span,
            r.functions@ == functions@,
    {
        PythonImport { import_path, import_path_span, functions }
    }

    /// The path of the imported file.
    pub fn import_path(&self) -> (r: &String)
        ensures
            r@ == self.import_path@,
    {
        &self.import_path
    }

    /// The span of the import path.
    pub fn import_path_span(&self) -> (r: Span)
        ensures
            r == self.import_path_span,
    {
        self.import_path_span
    }

    /// The functions the import provides, in order.
    pub fn functions(&self) -> (r: &[String])
        ensures
            r@ == self.functions@,
    {
        self.functions.as_slice()
    }
}

/// A test of a model: a condition its parameters must meet.
#[derive(Debug)]
pub struct Test {
    pub span: Span,
    pub trace_level: TraceLevel,
    pub expr: Expr,
    pub dependencies: Dependencies,
    pub section_label: Option<String>,
}

impl Test {
    /// A test of `expr`, declared at `span`.
    pub fn new(
        span: Span,
        trace_level: TraceLevel,
        expr: Expr,
        dependencies: Dependencies,
        section_label: Option<String>,
    ) -> (r: Self)
        ensures
            r.span == span,
            r.trace_level == trace_level,
            r.expr == expr,
            r.dependencies == dependencies,
            r.section_label == section_label,
    {
        Test { span, trace_level, expr, dependencies, section_label }
    }

    /// What the condition reads.
    pub fn dependencies(&self) -> (r: &Dependencies)
        ensures
            *r == self.dependencies,
    {
        &self.dependencies
    }

    /// The span of the whole test.
    pub fn span(&self) -> (r: Span)
        ensures
            r == self.span,
    {
        self.span
    }

    /// The trace marker of the test.
    pub fn trace_level(&self) -> (r: TraceLevel)
        ensures
            r == self.trace_level,
    {
        self.trace_level
    }

    /// The condition the test checks.
    pub fn expr(&self) -> (r: &Expr)
        ensures
            *r == self.expr,
    {
        &self.expr
    }

    /// The condition the test checks, for rewriting in place.
    pub fn expr_mut(&mut self) -> (r: &mut Expr)
        ensures
            *r == old(self).expr,
            final(self).expr == *final(r),
            final(self).span == old(self).span,
            final(self).trace_level == old(self).trace_level,
            final(self).dependencies == old(self).dependencies,
            final(self).section_label == old(self).section_label,
    {
        &mut self.expr
    }

    /// The label of the section the test is in, if any.
    pub fn section_label(&self) -> (r: Option<&String>)
        ensures
            r == match self.section_label {
                Some(l) => Some(&l),
                None => None::<&String>,
            },
    {
        self.section_label.as_ref()
    }
}

/// The position of test `k` among the entries, from position `i` on, or -1.
pub open spec fn test_key_index(e: Seq<(usize, Test)>, k: usize, i: int) -> int
    decreases e.len() - i,
{
    if 0 <= i < e.len() {
        if e[i].0 == k {
            i
        } else {
            test_key_index(e, k, i + 1)
        }
    } else {
        -1
    }
}

/// The tests after inserting test `t` at index `k`: a present index keeps
/// its position and gets the new test; a new one is added at the end.
pub open spec fn tests_insert(e: Seq<(usize, Test)>, k: usize, t: Test) -> Seq<(usize, Test)> {
    if test_key_index(e, k, 0) >= 0 {
        e.update(test_key_index(e, k, 0), (k, t))
    } else {
        e.push((k, t))
    }
}

/// The position of test `k` among the entries.
fn test_position(tests: &Vec<(usize, Test)>, k: usize) -> (r: Option<usize>)
    ensures
        match r {
            Some(i) => i as int == test_key_index(tests@, k, 0) && i < tests@.len(),
            None => test_key_index(tests@, k, 0) == -1,
        },
{
    let mut i: usize = 0;
    while i < tests.len()
        invariant
            i <= tests@.len(),
            test_key_index(tests@, k, i as int) == test_key_index(tests@, k, 0),
        decreases tests@.len() - i,
    {
        if tests[i].0 == k {
            return Some(i);
        }
        i = i + 1;
    }
    None
}

/// The name declared for a model, with its span.
#[derive(Debug)]
pub struct ModelName {
    pub value: String,
    pub span: Span,
}

impl ModelName {
    /// The name `value` declared at `span`.
    pub fn new(value: String, span: Span) -> (r: Self)
        ensures
            r.value@ == value@,
            r.span == span,
    {
        ModelName { value, span }
    }

    /// The name as text.
    pub fn as_str(&self) -> (r: &str)
        ensures
            r@ == self.value@,
    {
        self.value.as_str()
    }

    /// The span of the declaration of the name.
    pub fn span(&self) -> (r: Span)
        ensures
            r == self.span,
    {
        self.span
    }

    /// The name as a string.
    pub fn into_string(self) -> (r: String)
        ensures
            r@ == self.value@,
    {
        self.value
    }
}

/// A model: its path, imports, parameters and design target.
#[derive(Debug)]
pub struct Model {
    pub path: ModelPath,
    pub python_imports: OrderedMap<PythonImport>,
    pub submodels: OrderedMap<SubmodelImport>,
    pub references: OrderedMap<ReferenceImport>,
    pub parameters: OrderedMap<Parameter>,
    pub tests: Vec<(usize, Test)>,
    pub note: Option<String>,
    pub design_target: Option<ModelPath>,
    pub design_export: ResolvedDesign,
    pub applied_designs: Vec<DesignApplication>,
}

/// A design that a model applies: the design file, and the reference it is
/// applied to, if any.
#[derive(Debug)]
pub struct DesignApplication {
    pub design_path: ModelPath,
    pub applied_to: Option<String>,
}

/// The view of a [`DesignApplication`].
pub struct SpecApplication {
    pub design_path: Seq<char>,
    pub applied_to: Option<Seq<char>>,
}

impl DeepView for DesignApplication {
    type V = SpecApplication;

    open spec fn deep_view(&self) -> SpecApplication {
        SpecApplication { design_path: self.design_path.deep_view(), applied_to: self.applied_to.deep_view() }
    }
}

/// The view of a [`Model`].
pub struct SpecModel {
    pub path: Seq<char>,
    pub python_imports: Seq<(Seq<char>, SpecPythonImport)>,
    pub submodels: Seq<(Seq<char>, SpecSubmodelImport)>,
    pub references: Seq<(Seq<char>, SpecReferenceImport)>,
    pub parameters: Seq<(Seq<char>, Parameter)>,
    pub tests: Seq<(usize, Test)>,
    pub note: Option<Seq<char>>,
    pub design_target: Option<Seq<char>>,
    pub design_export: SpecDesign,
    pub applied_designs: Seq<SpecApplication>,
}

impl DeepView for Model {
    type V = SpecModel;

    open spec fn deep_view(&self) -> SpecModel {
        SpecModel {
            path: self.path.deep_view(),
            python_imports: self.python_imports.deep_view(),
            submodels: self.submodels.deep_view(),
            references: self.references.deep_view(),
            parameters: self.parameters.deep_view(),
            tests: self.tests@,
            note: self.note.deep_view(),
            design_target: self.design_target.deep_view(),
            design_export: design_view(&self.design_export),
            applied_designs: self.applied_designs@.map_values(|a: DesignApplication| a.deep_view()),
        }
    }
}

/// The reference that the submodel with alias `alias` goes through, if the
/// model has such a submodel.
pub open spec fn submodel_reference(m: SpecModel, alias: Seq<char>) -> Option<SpecReferenceImport> {
    match map_get(m.submodels, alias) {
        Some(s) => map_get(m.references, s.reference_name),
        None => None,
    }
}

impl Model {
    /// A model at `path` with no imports, parameters or design target.
    pub fn new(path: ModelPath) -> (r: Self)
        ensures
            r.deep_view().path == path.deep_view(),
            r.deep_view().python_imports.len() == 0,
            r.deep_view().submodels.len() == 0,
            r.deep_view().references.len() == 0,
            r.deep_view().parameters.len() == 0,
            r.deep_view().tests.len() == 0,
            r.deep_view().note is None,
            r.deep_view().design_target is None,
            design_is_empty(r.deep_view().design_export),
            r.deep_view().applied_designs.len() == 0,
    {
        Model {
            path,
            python_imports: OrderedMap::new(),
            submodels: OrderedMap::new(),
            references: OrderedMap::new(),
            parameters: OrderedMap::new(),
            tests: Vec::new(),
            note: None,
            design_target: None,
            design_export: Design::new(),
            applied_designs: Vec::new(),
        }
    }

    /// Records that the model applies the design `app`.
    pub fn add_applied_design(&mut self, app: DesignApplication)
        ensures
            final(self).deep_view() == (SpecModel {
                applied_designs: old(self).deep_view().applied_designs.push(app.deep_view()),
                ..old(self).deep_view()
            }),
    {
        self.applied_designs.push(app);
        assert(self.deep_view().applied_designs =~= old(self).deep_view().applied_designs.push(app.deep_view()));
    }

    /// Adds a direct submodel named `name` whose reference has the same name
    /// and resolves to `path`.
    pub fn with_submodel(self, name: &str, path: &ModelPath) -> (r: Self)
        requires
            imports_wf(self.deep_view().submodels, self.deep_view().references),
        ensures
            imports_wf(r.deep_view().submodels, r.deep_view().references),
            r.deep_view().path == self.deep_view().path,
            r.deep_view().python_imports == self.deep_view().python_imports,
            r.deep_view().parameters == self.deep_view().parameters,
            r.deep_view().tests == self.deep_view().tests,
            r.deep_view().note == self.deep_view().note,
            r.deep_view().design_export == self.deep_view().design_export,
            r.deep_view().design_target == self.deep_view().design_target,
            r.deep_view().submodels == map_insert(
                self.deep_view().submodels,
                name@,
                SpecSubmodelImport {
                    name: name@,
                    name_span: Span { start: 0, end: 0 },
                    reference_name: name@,
                    submodel_path: Seq::empty(),
                },
            ),
            r.deep_view().references == map_insert(
                self.deep_view().references,
                name@,
                SpecReferenceImport { name: name@, name_span: Span { start: 0, end: 0 }, path: path.deep_view() },
            ),
    {
        let mut m = self;
        let span = Span::new(0, 0);
        let s = SubmodelImport::new(crate::paths::string_of(name), span, crate::paths::string_of(name));
        let rf = ReferenceImport::new(crate::paths::string_of(name), span, path.duplicate());
        let ghost old_subs = m.submodels.deep_view();
        let ghost old_refs = m.references.deep_view();
        m.submodels.insert(crate::paths::string_of(name), s);
        m.references.insert(crate::paths::string_of(name), rf);
        proof {
            crate::ordmap::lemma_insert_get(old_subs, name@, s.deep_view());
            crate::ordmap::lemma_insert_get(old_refs, name@, rf.deep_view());
            assert forall|i: int| 0 <= i < m.submodels.deep_view().len() implies key_index(
                m.references.deep_view(),
                #[trigger] m.submodels.deep_view()[i].1.reference_name,
            ) >= 0 by {
                let k = m.submodels.deep_view()[i].1.reference_name;
                crate::ordmap::lemma_insert_keeps_keys(old_refs, name@, rf.deep_view(), k);
                crate::ordmap::lemma_insert_entries(old_subs, name@, s.deep_view(), i);
            }
        }
        m
    }

    /// The reference of the submodel with alias `alias`.
    pub fn get_submodel_reference(&self, alias: &String) -> (r: Option<&ReferenceImport>)
        requires
            imports_wf(self.deep_view().submodels, self.deep_view().references),
        ensures
            match r {
                Some(x) => submodel_reference(self.deep_view(), alias@) == Some(x.deep_view()),
                None => submodel_reference(self.deep_view(), alias@) is None,
            },
    {
        match self.submodels.index_of(alias) {
            None => None,
            Some(i) => {
                let s = &self.submodels.entries[i].1;
                proof {
                    assert(self.submodels.deep_view()[i as int].1 == s.deep_view());
                }
                self.references.get(&s.reference_name)
            },
        }
    }

    /// The path of the model.
    pub fn get_path(&self) -> (r: &ModelPath)
        ensures
            r.deep_view() == self.deep_view().path,
    {
        &self.path
    }

    /// The Python imports of the model, by path.
    pub fn get_python_imports(&self) -> (r: &OrderedMap<PythonImport>)
        ensures
            r.deep_view() == self.deep_view().python_imports,
    {
        &self.python_imports
    }

    /// The submodel with alias `identifier`.
    pub fn get_submodel(&self, identifier: &String) -> (r: Option<&SubmodelImport>)
        ensures
            match r {
                Some(s) => map_get(self.deep_view().submodels, identifier@) == Some(s.deep_view()),
                None => map_get(self.deep_view().submodels, identifier@) is None,
            },
    {
        self.submodels.get(identifier)
    }

    /// The submodels of the model, by alias.
    pub fn get_submodels(&self) -> (r: &OrderedMap<SubmodelImport>)
        ensures
            r.deep_view() == self.deep_view().submodels,
    {
        &self.submodels
    }

    /// The parameter named `identifier`.
    pub fn get_parameter(&self, identifier: &String) -> (r: Option<&Parameter>)
        ensures
            match r {
                Some(p) => map_get(self.deep_view().parameters, identifier@) == Some(*p),
                None => map_get(self.deep_view().parameters, identifier@) is None,
            },
    {
        self.parameters.get(identifier)
    }

    /// The parameters of the model, by name.
    pub fn get_parameters(&self) -> (r: &OrderedMap<Parameter>)
        ensures
            r.deep_view() == self.deep_view().parameters,
    {
        &self.parameters
    }

    /// The reference named `identifier`.
    pub fn get_reference(&self, identifier: &String) -> (r: Option<&ReferenceImport>)
        ensures
            match r {
                Some(x) => map_get(self.deep_view().references, identifier@) == Some(x.deep_view()),
                None => map_get(self.deep_view().references, identifier@) is None,
            },
    {
        self.references.get(identifier)
    }

    /// The references of the model, by name.
    pub fn get_references(&self) -> (r: &OrderedMap<ReferenceImport>)
        ensures
            r.deep_view() == self.deep_view().references,
    {
        &self.references
    }

    /// The model named by the `design <model>` declaration of the file, if any.
    pub fn design_target(&self) -> (r: Option<&ModelPath>)
        ensures
            r.deep_view() == self.deep_view().design_target,
    {
        self.design_target.as_ref()
    }

    /// Sets the design target of the file.
    pub fn set_design_target(&mut self, target: Option<ModelPath>)
        ensures
            final(self).deep_view().design_target == target.deep_view(),
            final(self).deep_view().path == old(self).deep_view().path,
            final(self).deep_view().python_imports == old(self).deep_view().python_imports,
            final(self).deep_view().submodels == old(self).deep_view().submodels,
            final(self).deep_view().references == old(self).deep_view().references,
            final(self).deep_view().parameters == old(self).deep_view().parameters,
            final(self).deep_view().tests == old(self).deep_view().tests,
            final(self).deep_view().note == old(self).deep_view().note,
            final(self).deep_view().design_export == old(self).deep_view().design_export,
    {
        self.design_target = target;
    }

    /// Adds a Python import under `path`, replacing one with the same path.
    pub fn add_python_import(&mut self, path: String, import: PythonImport)
        ensures
            final(self).deep_view().python_imports == map_insert(
                old(self).deep_view().python_imports,
                path@,
                import.deep_view(),
            ),
            final(self).deep_view().path == old(self).deep_view().path,
            final(self).deep_view().submodels == old(self).deep_view().submodels,
            final(self).deep_view().references == old(self).deep_view().references,
            final(self).deep_view().parameters == old(self).deep_view().parameters,
            final(self).deep_view().tests == old(self).deep_view().tests,
            final(self).deep_view().note == old(self).deep_view().note,
            final(self).deep_view().design_export == old(self).deep_view().design_export,
            final(self).deep_view().design_target == old(self).deep_view().design_target,
    {
        self.python_imports.insert(path, import);
    }

    /// Adds a reference under `name`, replacing one with the same name.
    pub fn add_reference(&mut self, name: String, import: ReferenceImport)
        ensures
            final(self).deep_view().references == map_insert(
                old(self).deep_view().references,
                name@,
                import.deep_view(),
            ),
            final(self).deep_view().path == old(self).deep_view().path,
            final(self).deep_view().python_imports == old(self).deep_view().python_imports,
            final(self).deep_view().submodels == old(self).deep_view().submodels,
            final(self).deep_view().parameters == old(self).deep_view().parameters,
            final(self).deep_view().tests == old(self).deep_view().tests,
            final(self).deep_view().note == old(self).deep_view().note,
            final(self).deep_view().design_export == old(self).deep_view().design_export,
            final(self).deep_view().design_target == old(self).deep_view().design_target,
    {
        self.references.insert(name, import);
    }

    /// Adds a submodel under `name`, replacing one with the same name.
    pub fn add_submodel(&mut self, name: String, import: SubmodelImport)
        ensures
            final(self).deep_view().submodels == map_insert(
                old(self).deep_view().submodels,
                name@,
                import.deep_view(),
            ),
            final(self).deep_view().path == old(self).deep_view().path,
            final(self).deep_view().python_imports == old(self).deep_view().python_imports,
            final(self).deep_view().references == old(self).deep_view().references,
            final(self).deep_view().parameters == old(self).deep_view().parameters,
            final(self).deep_view().tests == old(self).deep_view().tests,
            final(self).deep_view().note == old(self).deep_view().note,
            final(self).deep_view().design_export == old(self).deep_view().design_export,
            final(self).deep_view().design_target == old(self).deep_view().design_target,
    {
        self.submodels.insert(name, import);
    }

    /// Adds a parameter under `name`, replacing one with the same name.
    pub fn add_parameter(&mut self, name: String, parameter: Parameter)
        ensures
            final(self).deep_view().parameters == map_insert(old(self).deep_view().parameters, name@, parameter),
            final(self).deep_view().tests == old(self).deep_view().tests,
            final(self).deep_view().note == old(self).deep_view().note,
            final(self).deep_view().design_export == old(self).deep_view().design_export,
            final(self).deep_view().path == old(self).deep_view().path,
            final(self).deep_view().python_imports == old(self).deep_view().python_imports,
            final(self).deep_view().submodels == old(self).deep_view().submodels,
            final(self).deep_view().references == old(self).deep_view().references,
            final(self).deep_view().design_target == old(self).deep_view().design_target,
    {
        self.parameters.insert(name, parameter);
    }

    /// The tests of the model, by index.
    pub fn get_tests(&self) -> (r: &[(usize, Test)])
        ensures
            r@ == self.deep_view().tests,
    {
        self.tests.as_slice()
    }

    /// Adds a test under `index`, replacing one with the same index.
    pub fn add_test(&mut self, index: usize, test: Test)
        ensures
            final(self).deep_view().tests == tests_insert(old(self).deep_view().tests, index, test),
            final(self).deep_view().note == old(self).deep_view().note,
            final(self).deep_view().design_export == old(self).deep_view().design_export,
            final(self).deep_view().path == old(self).deep_view().path,
            final(self).deep_view().python_imports == old(self).deep_view().python_imports,
            final(self).deep_view().submodels == old(self).deep_view().submodels,
            final(self).deep_view().references == old(self).deep_view().references,
            final(self).deep_view().parameters == old(self).deep_view().parameters,
            final(self).deep_view().design_target == old(self).deep_view().design_target,
    {
        match test_position(&self.tests, index) {
            Some(i) => {
                self.tests.set(i, (index, test));
            },
            None => {
                self.tests.push((index, test));
            },
        }
    }

    /// The note attached to the model, if any.
    pub fn note(&self) -> (r: Option<&String>)
        ensures
            match r {
                Some(n) => self.deep_view().note == Some(n@),
                None => self.deep_view().note is None,
            },
    {
        self.note.as_ref()
    }

    /// Attaches `note` to the model, replacing an earlier one.
    pub fn set_note(&mut self, note: String)
        ensures
            final(self).deep_view().note == Some(note@),
            final(self).deep_view().path == old(self).deep_view().path,
            final(self).deep_view().python_imports == old(self).deep_view().python_imports,
            final(self).deep_view().submodels == old(self).deep_view().submodels,
            final(self).deep_view().references == old(self).deep_view().references,
            final(self).deep_view().parameters == old(self).deep_view().parameters,
            final(self).deep_view().tests == old(self).deep_view().tests,
            final(self).deep_view().design_target == old(self).deep_view().design_target,
            final(self).deep_view().design_export == old(self).deep_view().design_export,
    {
        self.note = Some(note);
    }

    /// The content the design file exports.
    pub fn design_export(&self) -> (r: &ResolvedDesign)
        ensures
            design_view(r) == self.deep_view().design_export,
    {
        &self.design_export
    }

    /// Sets the content the design file exports.
    pub fn set_design_export(&mut self, design: ResolvedDesign)
        ensures
            final(self).deep_view().design_export == design_view(&design),
            final(self).deep_view().path == old(self).deep_view().path,
            final(self).deep_view().python_imports == old(self).deep_view().python_imports,
            final(self).deep_view().submodels == old(self).deep_view().submodels,
            final(self).deep_view().references == old(self).deep_view().references,
            final(self).deep_view().parameters == old(self).deep_view().parameters,
            final(self).deep_view().tests == old(self).deep_view().tests,
            final(self).deep_view().note == old(self).deep_view().note,
            final(self).deep_view().design_target == old(self).deep_view().design_target,
    {
        self.design_export = design;
    }
}

} // verus!
