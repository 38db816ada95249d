//! Finding the symbol under a cursor in a model, and where it is defined.
//!
//! The search visits a model's parameters (name, value, limits) in order,
//! then its submodel names, its reference names and its Python imports; the
//! first thing whose span holds the cursor wins.
use vstd::prelude::*;

use crate::imports::{SpecReferenceImport, SpecSubmodelImport, imports_wf};
use crate::ir::{
    Expr, FunctionName, Limits, Model, Parameter, ParameterValue, PiecewiseExpr, SpecModel, SpecPythonImport,
    Variable,
};
use crate::ordmap::{entries_view, key_index, map_get};
use crate::paths::ModelPath;
use crate::span::Span;

verus! {

/// A symbol found at a cursor position.
#[derive(Debug)]
pub enum SymbolAtPosition {
    /// The name of a parameter in its declaration.
    ParameterDefinition { span: Span },
    /// A parameter of the same model used in an expression.
    ParameterReference { name: String },
    /// The parameter part of `parameter.reference`.
    ExternalParameterReference { model_path: ModelPath, parameter_name: String },
    /// The name of a submodel or reference import.
    ModelImportDefinition { name: String, path: ModelPath },
    /// The reference part of `parameter.reference`.
    ModelImportReference { reference_name: String },
    /// A Python import.
    PythonImport { path: String },
    /// The name of a called Python function.
    PythonFunctionReference { python_path: String, name: String },
    /// The name of a called builtin function.
    BuiltinFunctionReference { name: String },
}

/// The view of a [`SymbolAtPosition`].
pub enum SpecSymbol {
    ParameterDefinition { span: Span },
    ParameterReference { name: Seq<char> },
    ExternalParameterReference { model_path: Seq<char>, parameter_name: Seq<char> },
    ModelImportDefinition { name: Seq<char>, path: Seq<char> },
    ModelImportReference { reference_name: Seq<char> },
    PythonImport { path: Seq<char> },
    PythonFunctionReference { python_path: Seq<char>, name: Seq<char> },
    BuiltinFunctionReference { name: Seq<char> },
}

impl DeepView for SymbolAtPosition {
    type V = SpecSymbol;

    open spec fn deep_view(&self) -> SpecSymbol {
        match self {
            SymbolAtPosition::ParameterDefinition { span } => SpecSymbol::ParameterDefinition { span: *span },
            SymbolAtPosition::ParameterReference { name } => SpecSymbol::ParameterReference { name: name@ },
            SymbolAtPosition::ExternalParameterReference { model_path, parameter_name } =>
                SpecSymbol::ExternalParameterReference {
                    model_path: model_path.deep_view(),
                    parameter_name: parameter_name@,
                },
            SymbolAtPosition::ModelImportDefinition { name, path } =>
                SpecSymbol::ModelImportDefinition { name: name@, path: path.deep_view() },
            SymbolAtPosition::ModelImportReference { reference_name } =>
                SpecSymbol::ModelImportReference { reference_name: reference_name@ },
            SymbolAtPosition::PythonImport { path } => SpecSymbol::PythonImport { path: path@ },
            SymbolAtPosition::PythonFunctionReference { python_path, name } =>
                SpecSymbol::PythonFunctionReference { python_path: python_path@, name: name@ },
            SymbolAtPosition::BuiltinFunctionReference { name } =>
                SpecSymbol::BuiltinFunctionReference { name: name@ },
        }
    }
}

/// Whether the cursor at `offset` is inside `span`.
pub open spec fn contains_offset(span: Span, offset: int) -> bool {
    span.start <= offset && offset < span.end
}

/// The first of two search results that found something.
pub open spec fn or_else(a: Option<SpecSymbol>, b: Option<SpecSymbol>) -> Option<SpecSymbol> {
    if a is Some {
        a
    } else {
        b
    }
}

/// The symbol a variable shows at `offset`, given that the cursor is inside
/// the variable.
pub open spec fn symbol_in_variable(v: Variable, offset: int) -> Option<SpecSymbol> {
    match v {
        Variable::Builtin { .. } => None,
        Variable::Parameter { parameter_name, parameter_span } => if contains_offset(parameter_span, offset) {
            Some(SpecSymbol::ParameterReference { name: parameter_name@ })
        } else {
            None
        },
        Variable::External { model_path, reference_name, reference_span, parameter_name, parameter_span } =>
            if contains_offset(reference_span, offset) {
            Some(SpecSymbol::ModelImportReference { reference_name: reference_name@ })
        } else if contains_offset(parameter_span, offset) {
            Some(
                SpecSymbol::ExternalParameterReference {
                    model_path: model_path.deep_view(),
                    parameter_name: parameter_name@,
                },
            )
        } else {
            None
        },
    }
}

/// The symbol a called function's name stands for.
pub open spec fn function_symbol(n: FunctionName) -> SpecSymbol {
    match n {
        FunctionName::Builtin(name, _) => SpecSymbol::BuiltinFunctionReference { name: name@ },
        FunctionName::Imported { python_path, name, .. } =>
            SpecSymbol::PythonFunctionReference { python_path: python_path@, name: name@ },
    }
}

/// The symbol at `offset` in an expression: its parts are searched left to
/// right, and a call's name comes before its arguments.
pub open spec fn symbol_in_expr(e: Expr, offset: int) -> Option<SpecSymbol>
    decreases e,
{
    match e {
        Expr::Literal { .. } => None,
        Expr::Variable { span, variable } => if contains_offset(span, offset) {
            symbol_in_variable(variable, offset)
        } else {
            None
        },
        Expr::ComparisonOp { left, right, rest_chained, .. } => {
            proof {
                assert(decreases_to!(e => rest_chained));
                assert(decreases_to!(rest_chained => rest_chained@));
            }
            or_else(
                symbol_in_expr(*left, offset),
                or_else(symbol_in_expr(*right, offset), symbol_in_exprs(rest_chained@, offset)),
            )
        },
        Expr::BinaryOp { left, right, .. } => or_else(symbol_in_expr(*left, offset), symbol_in_expr(*right, offset)),
        Expr::UnaryOp { expr, .. } => symbol_in_expr(*expr, offset),
        Expr::UnitCast { expr, .. } => symbol_in_expr(*expr, offset),
        Expr::FunctionCall { name_span, name, args, .. } => if contains_offset(name_span, offset) {
            Some(function_symbol(name))
        } else {
            proof {
                assert(decreases_to!(e => args));
                assert(decreases_to!(args => args@));
            }
            symbol_in_exprs(args@, offset)
        },
    }
}

/// The symbol at `offset` in the first of the expressions that has one.
pub open spec fn symbol_in_exprs(es: Seq<Expr>, offset: int) -> Option<SpecSymbol>
    decreases es,
{
    if es.len() == 0 {
        None
    } else {
        proof {
            assert(decreases_to!(es => es[0]));
            assert(decreases_to!(es => es.subrange(1, es.len() as int)));
        }
        or_else(symbol_in_expr(es[0], offset), symbol_in_exprs(es.subrange(1, es.len() as int), offset))
    }
}


/// The symbol at `offset` in a parameter's limits.
pub open spec fn symbol_in_limits(l: Limits, offset: int) -> Option<SpecSymbol> {
    match l {
        Limits::Default => None,
        Limits::Continuous { min, max } => or_else(symbol_in_expr(min, offset), symbol_in_expr(max, offset)),
        Limits::Discrete { values } => symbol_in_exprs(values@, offset),
    }
}

/// The symbol at `offset` in the pieces of a piecewise value: each piece's
/// expression before its condition.
pub open spec fn symbol_in_pieces(ps: Seq<PiecewiseExpr>, offset: int) -> Option<SpecSymbol>
    decreases ps.len(),
{
    if ps.len() == 0 {
        None
    } else {
        or_else(
            symbol_in_expr(ps[0].expr, offset),
            or_else(symbol_in_expr(ps[0].if_expr, offset), symbol_in_pieces(ps.subrange(1, ps.len() as int), offset)),
        )
    }
}

/// The symbol at `offset` in a parameter's value.
pub open spec fn symbol_in_value(v: ParameterValue, offset: int) -> Option<SpecSymbol> {
    match v {
        ParameterValue::Simple(e) => symbol_in_expr(e, offset),
        ParameterValue::Piecewise(ps) => symbol_in_pieces(ps@, offset),
    }
}

/// The symbol at `offset` in a parameter: its name, then its value, then its
/// limits.
pub open spec fn symbol_in_parameter(p: Parameter, offset: int) -> Option<SpecSymbol> {
    if contains_offset(p.name_span, offset) {
        Some(SpecSymbol::ParameterDefinition { span: p.name_span })
    } else {
        or_else(symbol_in_value(p.value, offset), symbol_in_limits(p.limits, offset))
    }
}

/// The symbol at `offset` in the first of the parameters that has one.
pub open spec fn symbol_in_parameters(ps: Seq<(Seq<char>, Parameter)>, offset: int) -> Option<SpecSymbol>
    decreases ps.len(),
{
    if ps.len() == 0 {
        None
    } else {
        or_else(symbol_in_parameter(ps[0].1, offset), symbol_in_parameters(ps.subrange(1, ps.len() as int), offset))
    }
}

/// The definition of the first submodel whose name holds `offset`, with the
/// path of the reference it goes through.
pub open spec fn symbol_in_submodels(
    subs: Seq<(Seq<char>, SpecSubmodelImport)>,
    refs: Seq<(Seq<char>, SpecReferenceImport)>,
    offset: int,
) -> Option<SpecSymbol>
    decreases subs.len(),
{
    if subs.len() == 0 {
        None
    } else if contains_offset(subs[0].1.name_span, offset) {
        Some(
            SpecSymbol::ModelImportDefinition {
                name: subs[0].0,
                path: map_get(refs, subs[0].1.reference_name).unwrap().path,
            },
        )
    } else {
        symbol_in_submodels(subs.subrange(1, subs.len() as int), refs, offset)
    }
}

/// The definition of the first reference whose name holds `offset`.
pub open spec fn symbol_in_references(refs: Seq<(Seq<char>, SpecReferenceImport)>, offset: int) -> Option<SpecSymbol>
    decreases refs.len(),
{
    if refs.len() == 0 {
        None
    } else if contains_offset(refs[0].1.name_span, offset) {
        Some(SpecSymbol::ModelImportDefinition { name: refs[0].0, path: refs[0].1.path })
    } else {
        symbol_in_references(refs.subrange(1, refs.len() as int), offset)
    }
}

/// The first Python import whose path holds `offset`.
pub open spec fn symbol_in_python_imports(ims: Seq<(Seq<char>, SpecPythonImport)>, offset: int) -> Option<SpecSymbol>
    decreases ims.len(),
{
    if ims.len() == 0 {
        None
    } else if contains_offset(ims[0].1.import_path_span, offset) {
        Some(SpecSymbol::PythonImport { path: ims[0].0 })
    } else {
        symbol_in_python_imports(ims.subrange(1, ims.len() as int), offset)
    }
}

/// The symbol at `offset` in a model: parameters first, then submodel names,
/// reference names and Python imports.
pub open spec fn symbol_at(m: SpecModel, offset: int) -> Option<SpecSymbol> {
    or_else(
        symbol_in_parameters(m.parameters, offset),
        or_else(
            symbol_in_submodels(m.submodels, m.references, offset),
            or_else(symbol_in_references(m.references, offset), symbol_in_python_imports(m.python_imports, offset)),
        ),
    )
}

/// Where a symbol is defined: a span in a model's source, or the start of a
/// file.
#[derive(Debug)]
pub enum DefinitionSite {
    InModel { path: ModelPath, span: Span },
    FileStart { path: String },
}

/// The view of a [`DefinitionSite`].
pub enum SpecDefinitionSite {
    InModel { path: Seq<char>, span: Span },
    FileStart { path: Seq<char> },
}

impl DeepView for DefinitionSite {
    type V = SpecDefinitionSite;

    open spec fn deep_view(&self) -> SpecDefinitionSite {
        match self {
            DefinitionSite::InModel { path, span } => SpecDefinitionSite::InModel { path: path.deep_view(), span: *span },
            DefinitionSite::FileStart { path } => SpecDefinitionSite::FileStart { path: path@ },
        }
    }
}

/// The model whose contents resolving `s` reads, seen from the model at
/// `current`: the current model for names defined there, the referenced
/// model for an external parameter, and none where the symbol itself says
/// where it is defined.
pub open spec fn spec_definition_model(s: SpecSymbol, current: Seq<char>) -> Option<Seq<char>> {
    match s {
        SpecSymbol::ParameterReference { .. } => Some(current),
        SpecSymbol::ModelImportReference { .. } => Some(current),
        SpecSymbol::PythonFunctionReference { .. } => Some(current),
        SpecSymbol::ExternalParameterReference { model_path, .. } => Some(model_path),
        _ => None,
    }
}

/// Where `s` is defined, seen from the model at `current`, given the model
/// that [`spec_definition_model`] names (`None` where it could not be
/// loaded).
pub open spec fn spec_definition(s: SpecSymbol, current: Seq<char>, loaded: Option<SpecModel>) -> Option<SpecDefinitionSite> {
    match s {
        SpecSymbol::ParameterDefinition { span } => Some(SpecDefinitionSite::InModel { path: current, span }),
        SpecSymbol::ParameterReference { name } => match loaded {
            Some(m) => match map_get(m.parameters, name) {
                Some(p) => Some(SpecDefinitionSite::InModel { path: current, span: p.name_span }),
                None => None,
            },
            None => None,
        },
        SpecSymbol::ExternalParameterReference { model_path, parameter_name } => match loaded {
            Some(m) => match map_get(m.parameters, parameter_name) {
                Some(p) => Some(SpecDefinitionSite::InModel { path: model_path, span: p.name_span }),
                None => None,
            },
            None => None,
        },
        SpecSymbol::ModelImportDefinition { path, .. } => Some(SpecDefinitionSite::FileStart { path }),
        SpecSymbol::ModelImportReference { reference_name } => match loaded {
            Some(m) => match map_get(m.references, reference_name) {
                Some(r) => Some(SpecDefinitionSite::InModel { path: current, span: r.name_span }),
                None => None,
            },
            None => None,
        },
        SpecSymbol::PythonImport { path } => Some(SpecDefinitionSite::FileStart { path }),
        SpecSymbol::PythonFunctionReference { python_path, .. } => match loaded {
            Some(m) => match map_get(m.python_imports, python_path) {
                Some(i) => Some(SpecDefinitionSite::InModel { path: current, span: i.import_path_span }),
                None => None,
            },
            None => None,
        },
        SpecSymbol::BuiltinFunctionReference { .. } => None,
    }
}

/// Whether the cursor at `offset` is inside `span`.
fn span_contains_offset(span: Span, offset: usize) -> (r: bool)
    ensures
        r == contains_offset(span, offset as int),
{
    span.start <= offset && offset < span.end
}

fn symbol_of_variable(v: &Variable, offset: usize) -> (r: Option<SymbolAtPosition>)
    ensures
        r.deep_view() == symbol_in_variable(*v, offset as int),
{
    match v {
        Variable::Builtin { .. } => None,
        Variable::Parameter { parameter_name, parameter_span } => if span_contains_offset(*parameter_span, offset) {
            Some(SymbolAtPosition::ParameterReference { name: parameter_name.clone() })
        } else {
            None
        },
        Variable::External { model_path, reference_name, reference_span, parameter_name, parameter_span } => {
            if span_contains_offset(*reference_span, offset) {
                Some(SymbolAtPosition::ModelImportReference { reference_name: reference_name.clone() })
            } else if span_contains_offset(*parameter_span, offset) {
                Some(
                    SymbolAtPosition::ExternalParameterReference {
                        model_path: model_path.duplicate(),
                        parameter_name: parameter_name.clone(),
                    },
                )
            } else {
                None
            }
        },
    }
}

fn symbol_of_function(n: &FunctionName) -> (r: SymbolAtPosition)
    ensures
        r.deep_view() == function_symbol(*n),
{
    match n {
        FunctionName::Builtin(name, _) => SymbolAtPosition::BuiltinFunctionReference { name: name.clone() },
        FunctionName::Imported { python_path, name, .. } =>
            SymbolAtPosition::PythonFunctionReference { python_path: python_path.clone(), name: name.clone() },
    }
}

/// The symbol at `offset` in an expression.
fn find_symbol_in_expr(e: &Expr, offset: usize) -> (r: Option<SymbolAtPosition>)
    ensures
        r.deep_view() == symbol_in_expr(*e, offset as int),
    decreases e, 1nat,
{
    match e {
        Expr::Literal { .. } => None,
        Expr::Variable { span, variable } => if span_contains_offset(*span, offset) {
            symbol_of_variable(variable, offset)
        } else {
            None
        },
        Expr::ComparisonOp { left, right, rest_chained, .. } => {
            let l = find_symbol_in_expr(left, offset);
            if l.is_some() {
                return l;
            }
            let r = find_symbol_in_expr(right, offset);
            if r.is_some() {
                return r;
            }
            proof {
                assert(decreases_to!(e => rest_chained));
            }
            find_symbol_in_exprs(rest_chained, offset)
        },
        Expr::BinaryOp { left, right, .. } => {
            let l = find_symbol_in_expr(left, offset);
            if l.is_some() {
                return l;
            }
            find_symbol_in_expr(right, offset)
        },
        Expr::UnaryOp { expr, .. } => find_symbol_in_expr(expr, offset),
        Expr::UnitCast { expr, .. } => find_symbol_in_expr(expr, offset),
        Expr::FunctionCall { name_span, name, args, .. } => {
            if span_contains_offset(*name_span, offset) {
                return Some(symbol_of_function(name));
            }
            proof {
                assert(decreases_to!(e => args));
            }
            find_symbol_in_exprs(args, offset)
        },
    }
}

/// The symbol at `offset` in the first of the expressions that has one.
fn find_symbol_in_exprs(es: &Vec<Expr>, offset: usize) -> (r: Option<SymbolAtPosition>)
    ensures
        r.deep_view() == symbol_in_exprs(es@, offset as int),
    decreases es, 0nat,
{
    let mut i: usize = 0;
    assert(es@.subrange(0, es@.len() as int) =~= es@);
    while i < es.len()
        invariant
            i <= es@.len(),
            symbol_in_exprs(es@, offset as int) == symbol_in_exprs(es@.subrange(i as int, es@.len() as int), offset as int),
        decreases es@.len() - i,
    {
        proof {
            let rest = es@.subrange(i as int, es@.len() as int);
            assert(rest[0] == es@[i as int]);
            assert(rest.subrange(1, rest.len() as int) =~= es@.subrange(i + 1, es@.len() as int));
            assert(decreases_to!(es => es@));
            assert(decreases_to!(es@ => es@[i as int]));
        }
        let found = find_symbol_in_expr(&es[i], offset);
        if found.is_some() {
            return found;
        }
        i = i + 1;
    }
    None
}


fn find_symbol_in_pieces(ps: &Vec<PiecewiseExpr>, offset: usize) -> (r: Option<SymbolAtPosition>)
    ensures
        r.deep_view() == symbol_in_pieces(ps@, offset as int),
{
    let mut i: usize = 0;
    assert(ps@.subrange(0, ps@.len() as int) =~= ps@);
    while i < ps.len()
        invariant
            i <= ps@.len(),
            symbol_in_pieces(ps@, offset as int) == symbol_in_pieces(ps@.subrange(i as int, ps@.len() as int), offset as int),
        decreases ps@.len() - i,
    {
        proof {
            let rest = ps@.subrange(i as int, ps@.len() as int);
            assert(rest[0] == ps@[i as int]);
            assert(rest.subrange(1, rest.len() as int) =~= ps@.subrange(i + 1, ps@.len() as int));
        }
        let found = find_symbol_in_expr(&ps[i].expr, offset);
        if found.is_some() {
            return found;
        }
        let found = find_symbol_in_expr(&ps[i].if_expr, offset);
        if found.is_some() {
            return found;
        }
        i = i + 1;
    }
    None
}

/// The symbol at `offset` in a parameter's value.
fn find_symbol_in_parameter_value(value: &ParameterValue, offset: usize) -> (r: Option<SymbolAtPosition>)
    ensures
        r.deep_view() == symbol_in_value(*value, offset as int),
{
    match value {
        ParameterValue::Simple(e) => find_symbol_in_expr(e, offset),
        ParameterValue::Piecewise(ps) => find_symbol_in_pieces(ps, offset),
    }
}

/// The symbol at `offset` in a parameter's limits.
fn find_symbol_in_limits(limits: &Limits, offset: usize) -> (r: Option<SymbolAtPosition>)
    ensures
        r.deep_view() == symbol_in_limits(*limits, offset as int),
{
    match limits {
        Limits::Default => None,
        Limits::Continuous { min, max } => {
            let found = find_symbol_in_expr(min, offset);
            if found.is_some() {
                return found;
            }
            find_symbol_in_expr(max, offset)
        },
        Limits::Discrete { values } => find_symbol_in_exprs(values, offset),
    }
}

/// Finds the symbol at byte `offset` of a model's source: a parameter's name,
/// value or limits, then a submodel or reference name, then a Python import.
pub fn find_symbol_at_offset(model: &Model, offset: usize) -> (r: Option<SymbolAtPosition>)
    requires
        imports_wf(model.deep_view().submodels, model.deep_view().references),
    ensures
        r.deep_view() == symbol_at(model.deep_view(), offset as int),
{
    let ghost o = offset as int;
    let ghost mv = model.deep_view();
    let params = &model.parameters.entries;
    let mut i: usize = 0;
    assert(mv.parameters.subrange(0, mv.parameters.len() as int) =~= mv.parameters);
    while i < params.len()
        invariant
            i <= params@.len(),
            o == offset as int,
            mv == model.deep_view(),
            params@ == model.parameters.entries@,
            mv.parameters == entries_view(params@),
            symbol_in_parameters(mv.parameters, o) == symbol_in_parameters(
                mv.parameters.subrange(i as int, params@.len() as int),
                o,
            ),
        decreases params@.len() - i,
    {
        let p = &params[i].1;
        proof {
            let rest = mv.parameters.subrange(i as int, params@.len() as int);
            assert(rest[0].1 == *p);
            assert(rest.subrange(1, rest.len() as int) =~= mv.parameters.subrange(i + 1, params@.len() as int));
        }
        if span_contains_offset(p.name_span, offset) {
            return Some(SymbolAtPosition::ParameterDefinition { span: p.name_span });
        }
        let found = find_symbol_in_parameter_value(&p.value, offset);
        if found.is_some() {
            return found;
        }
        let found = find_symbol_in_limits(&p.limits, offset);
        if found.is_some() {
            return found;
        }
        i = i + 1;
    }
    let subs = &model.submodels.entries;
    let mut j: usize = 0;
    assert(mv.submodels.subrange(0, mv.submodels.len() as int) =~= mv.submodels);
    while j < subs.len()
        invariant
            j <= subs@.len(),
            o == offset as int,
            mv == model.deep_view(),
            symbol_in_parameters(mv.parameters, o) is None,
            subs@ == model.submodels.entries@,
            mv.submodels == entries_view(subs@),
            imports_wf(mv.submodels, mv.references),
            symbol_in_submodels(mv.submodels, mv.references, o) == symbol_in_submodels(
                mv.submodels.subrange(j as int, subs@.len() as int),
                mv.references,
                o,
            ),
        decreases subs@.len() - j,
    {
        let (name, s) = (&subs[j].0, &subs[j].1);
        proof {
            let rest = mv.submodels.subrange(j as int, subs@.len() as int);
            assert(rest[0] == mv.submodels[j as int]);
            assert(rest.subrange(1, rest.len() as int) =~= mv.submodels.subrange(j + 1, subs@.len() as int));
        }
        if span_contains_offset(s.name_span, offset) {
            proof {
                assert(key_index(mv.references, mv.submodels[j as int].1.reference_name) >= 0);
            }
            match model.references.get(&s.reference_name) {
                Some(r) => {
                    return Some(SymbolAtPosition::ModelImportDefinition { name: name.clone(), path: r.path.duplicate() });
                },
                None => {
                    return None;
                },
            }
        }
        j = j + 1;
    }
    let refs = &model.references.entries;
    let mut k: usize = 0;
    assert(mv.references.subrange(0, mv.references.len() as int) =~= mv.references);
    while k < refs.len()
        invariant
            k <= refs@.len(),
            o == offset as int,
            mv == model.deep_view(),
            symbol_in_parameters(mv.parameters, o) is None,
            symbol_in_submodels(mv.submodels, mv.references, o) is None,
            refs@ == model.references.entries@,
            mv.references == entries_view(refs@),
            symbol_in_references(mv.references, o) == symbol_in_references(
                mv.references.subrange(k as int, refs@.len() as int),
                o,
            ),
        decreases refs@.len() - k,
    {
        let (name, r) = (&refs[k].0, &refs[k].1);
        proof {
            let rest = mv.references.subrange(k as int, refs@.len() as int);
            assert(rest[0] == mv.references[k as int]);
            assert(rest.subrange(1, rest.len() as int) =~= mv.references.subrange(k + 1, refs@.len() as int));
        }
        if span_contains_offset(r.name_span, offset) {
            return Some(SymbolAtPosition::ModelImportDefinition { name: name.clone(), path: r.path.duplicate() });
        }
        k = k + 1;
    }
    let ims = &model.python_imports.entries;
    let mut n: usize = 0;
    assert(mv.python_imports.subrange(0, mv.python_imports.len() as int) =~= mv.python_imports);
    while n < ims.len()
        invariant
            n <= ims@.len(),
            o == offset as int,
            mv == model.deep_view(),
            symbol_in_parameters(mv.parameters, o) is None,
            symbol_in_submodels(mv.submodels, mv.references, o) is None,
            symbol_in_references(mv.references, o) is None,
            ims@ == model.python_imports.entries@,
            mv.python_imports == entries_view(ims@),
            symbol_in_python_imports(mv.python_imports, o) == symbol_in_python_imports(
                mv.python_imports.subrange(n as int, ims@.len() as int),
                o,
            ),
        decreases ims@.len() - n,
    {
        let (path, im) = (&ims[n].0, &ims[n].1);
        proof {
            let rest = mv.python_imports.subrange(n as int, ims@.len() as int);
            assert(rest[0] == mv.python_imports[n as int]);
            assert(rest.subrange(1, rest.len() as int) =~= mv.python_imports.subrange(n + 1, ims@.len() as int));
        }
        if span_contains_offset(im.import_path_span, offset) {
            return Some(SymbolAtPosition::PythonImport { path: path.clone() });
        }
        n = n + 1;
    }
    None
}


/// The model whose contents [`resolve_definition`] needs for `symbol`, seen
/// from the model at `current_model_path`.
pub fn definition_model(symbol: &SymbolAtPosition, current_model_path: &ModelPath) -> (r: Option<ModelPath>)
    ensures
        r.deep_view() == spec_definition_model(symbol.deep_view(), current_model_path.deep_view()),
{
    match symbol {
        SymbolAtPosition::ParameterReference { .. } => Some(current_model_path.duplicate()),
        SymbolAtPosition::ModelImportReference { .. } => Some(current_model_path.duplicate()),
        SymbolAtPosition::PythonFunctionReference { .. } => Some(current_model_path.duplicate()),
        SymbolAtPosition::ExternalParameterReference { model_path, .. } => Some(model_path.duplicate()),
        _ => None,
    }
}

/// Where `symbol`, found in the model at `current_model_path`, is defined.
/// `loaded` is the model that [`definition_model`] names, where it could be
/// loaded. A builtin function has no definition site.
pub fn resolve_definition(
    symbol: &SymbolAtPosition,
    loaded: Option<&Model>,
    current_model_path: &ModelPath,
) -> (r: Option<DefinitionSite>)
    ensures
        r.deep_view() == spec_definition(
            symbol.deep_view(),
            current_model_path.deep_view(),
            match loaded {
                Some(m) => Some(m.deep_view()),
                None => None,
            },
        ),
{
    match symbol {
        SymbolAtPosition::ParameterDefinition { span } =>
            Some(DefinitionSite::InModel { path: current_model_path.duplicate(), span: *span }),
        SymbolAtPosition::ParameterReference { name } => match loaded {
            Some(m) => match m.parameters.get(name) {
                Some(p) => Some(DefinitionSite::InModel { path: current_model_path.duplicate(), span: p.name_span }),
                None => None,
            },
            None => None,
        },
        SymbolAtPosition::ExternalParameterReference { model_path, parameter_name } => match loaded {
            Some(m) => match m.parameters.get(parameter_name) {
                Some(p) => Some(DefinitionSite::InModel { path: model_path.duplicate(), span: p.name_span }),
                None => None,
            },
            None => None,
        },
        SymbolAtPosition::ModelImportDefinition { path, .. } => Some(DefinitionSite::FileStart { path: path.path.clone() }),
        SymbolAtPosition::ModelImportReference { reference_name } => match loaded {
            Some(m) => match m.references.get(reference_name) {
                Some(x) => Some(DefinitionSite::InModel { path: current_model_path.duplicate(), span: x.name_span }),
                None => None,
            },
            None => None,
        },
        SymbolAtPosition::PythonImport { path } => Some(DefinitionSite::FileStart { path: path.clone() }),
        SymbolAtPosition::PythonFunctionReference { python_path, .. } => match loaded {
            Some(m) => match m.python_imports.get(python_path) {
                Some(i) => Some(DefinitionSite::InModel { path: current_model_path.duplicate(), span: i.import_path_span }),
                None => None,
            },
            None => None,
        },
        SymbolAtPosition::BuiltinFunctionReference { .. } => None,
    }
}


/// Whether a search result is a parameter's definition.
pub open spec fn is_definition(x: Option<SpecSymbol>) -> bool {
    x matches Some(SpecSymbol::ParameterDefinition { .. })
}

proof fn lemma_no_definition_in_expr(e: Expr, o: int)
    ensures
        !is_definition(symbol_in_expr(e, o)),
    decreases e,
{
    match e {
        Expr::ComparisonOp { left, right, rest_chained, .. } => {
            lemma_no_definition_in_expr(*left, o);
            lemma_no_definition_in_expr(*right, o);
            assert(decreases_to!(e => rest_chained));
            assert(decreases_to!(rest_chained => rest_chained@));
            lemma_no_definition_in_exprs(rest_chained@, o);
        },
        Expr::BinaryOp { left, right, .. } => {
            lemma_no_definition_in_expr(*left, o);
            lemma_no_definition_in_expr(*right, o);
        },
        Expr::UnaryOp { expr, .. } => lemma_no_definition_in_expr(*expr, o),
        Expr::UnitCast { expr, .. } => lemma_no_definition_in_expr(*expr, o),
        Expr::FunctionCall { args, .. } => {
            assert(decreases_to!(e => args));
            assert(decreases_to!(args => args@));
            lemma_no_definition_in_exprs(args@, o);
        },
        _ => {},
    }
}

proof fn lemma_no_definition_in_exprs(es: Seq<Expr>, o: int)
    ensures
        !is_definition(symbol_in_exprs(es, o)),
    decreases es,
{
    if es.len() > 0 {
        assert(decreases_to!(es => es[0]));
        assert(decreases_to!(es => es.subrange(1, es.len() as int)));
        lemma_no_definition_in_expr(es[0], o);
        lemma_no_definition_in_exprs(es.subrange(1, es.len() as int), o);
    }
}

proof fn lemma_no_definition_in_pieces(ps: Seq<PiecewiseExpr>, o: int)
    ensures
        !is_definition(symbol_in_pieces(ps, o)),
    decreases ps.len(),
{
    if ps.len() > 0 {
        lemma_no_definition_in_expr(ps[0].expr, o);
        lemma_no_definition_in_expr(ps[0].if_expr, o);
        lemma_no_definition_in_pieces(ps.subrange(1, ps.len() as int), o);
    }
}

proof fn lemma_definition_in_parameters(ps: Seq<(Seq<char>, Parameter)>, o: int)
    ensures
        symbol_in_parameters(ps, o) matches Some(SpecSymbol::ParameterDefinition { span }) ==> contains_offset(
            span,
            o,
        ),
    decreases ps.len(),
{
    if ps.len() > 0 {
        let p = ps[0].1;
        match p.value {
            ParameterValue::Simple(e) => lemma_no_definition_in_expr(e, o),
            ParameterValue::Piecewise(pieces) => lemma_no_definition_in_pieces(pieces@, o),
        }
        match p.limits {
            Limits::Continuous { min, max } => {
                lemma_no_definition_in_expr(min, o);
                lemma_no_definition_in_expr(max, o);
            },
            Limits::Discrete { values } => lemma_no_definition_in_exprs(values@, o),
            Limits::Default => {},
        }
        lemma_definition_in_parameters(ps.subrange(1, ps.len() as int), o);
    }
}

proof fn lemma_no_definition_in_imports(m: SpecModel, o: int)
    ensures
        !is_definition(symbol_in_submodels(m.submodels, m.references, o)),
        !is_definition(symbol_in_references(m.references, o)),
        !is_definition(symbol_in_python_imports(m.python_imports, o)),
{
    lemma_no_definition_in_submodels(m.submodels, m.references, o);
    lemma_no_definition_in_references(m.references, o);
    lemma_no_definition_in_python_imports(m.python_imports, o);
}

proof fn lemma_no_definition_in_submodels(
    subs: Seq<(Seq<char>, SpecSubmodelImport)>,
    refs: Seq<(Seq<char>, SpecReferenceImport)>,
    o: int,
)
    ensures
        !is_definition(symbol_in_submodels(subs, refs, o)),
    decreases subs.len(),
{
    if subs.len() > 0 {
        lemma_no_definition_in_submodels(subs.subrange(1, subs.len() as int), refs, o);
    }
}

proof fn lemma_no_definition_in_references(refs: Seq<(Seq<char>, SpecReferenceImport)>, o: int)
    ensures
        !is_definition(symbol_in_references(refs, o)),
    decreases refs.len(),
{
    if refs.len() > 0 {
        lemma_no_definition_in_references(refs.subrange(1, refs.len() as int), o);
    }
}

proof fn lemma_no_definition_in_python_imports(ims: Seq<(Seq<char>, SpecPythonImport)>, o: int)
    ensures
        !is_definition(symbol_in_python_imports(ims, o)),
    decreases ims.len(),
{
    if ims.len() > 0 {
        lemma_no_definition_in_python_imports(ims.subrange(1, ims.len() as int), o);
    }
}

/// A parameter definition found under the cursor holds the cursor, and going
/// to its definition stays where it is, whatever model was loaded.
pub proof fn law_definition_under_cursor(m: SpecModel, offset: int, current: Seq<char>, loaded: Option<SpecModel>)
    ensures
        symbol_at(m, offset) matches Some(SpecSymbol::ParameterDefinition { span }) ==> {
            &&& contains_offset(span, offset)
            &&& spec_definition(symbol_at(m, offset).unwrap(), current, loaded) == Some(
                SpecDefinitionSite::InModel { path: current, span },
            )
        },
{
    lemma_definition_in_parameters(m.parameters, offset);
    lemma_no_definition_in_imports(m, offset);
}


/// Going to the definition of a parameter of another model lands in that
/// model's file, at the parameter's name, whatever the current model is.
pub proof fn law_external_definition_in_its_model(
    model_path: Seq<char>,
    parameter_name: Seq<char>,
    current: Seq<char>,
    loaded: SpecModel,
)
    requires
        map_get(loaded.parameters, parameter_name) is Some,
    ensures
        spec_definition_model(SpecSymbol::ExternalParameterReference { model_path, parameter_name }, current) == Some(
            model_path,
        ),
        spec_definition(SpecSymbol::ExternalParameterReference { model_path, parameter_name }, current, Some(loaded))
            == Some(
            SpecDefinitionSite::InModel {
                path: model_path,
                span: map_get(loaded.parameters, parameter_name).unwrap().name_span,
            },
        ),
{
}

/// Both bounds of continuous limits are searched: where the lower bound
/// holds no symbol under the cursor, the symbol found in the limits is the
/// one in the upper bound; and a parameter whose name and value hold none
/// shows the symbol of its limits.
pub proof fn law_continuous_limits_search_both_bounds(min: Expr, max: Expr, offset: int, p: Parameter)
    ensures
        symbol_in_expr(min, offset) is None ==> symbol_in_limits(Limits::Continuous { min, max }, offset)
            == symbol_in_expr(max, offset),
        symbol_in_expr(min, offset) is Some ==> symbol_in_limits(Limits::Continuous { min, max }, offset)
            == symbol_in_expr(min, offset),
        !contains_offset(p.name_span, offset) && symbol_in_value(p.value, offset) is None
            ==> symbol_in_parameter(p, offset) == symbol_in_limits(p.limits, offset),
{
}


/// Names of the current model resolve in the current model's file: a
/// parameter at its name, a reference at its alias, a Python function at
/// its import's path; an import definition goes to the start of the
/// imported file; and a name the loaded model does not declare, or any
/// name where no model could be loaded, has no definition.
pub proof fn law_local_definitions_in_current_model(name: Seq<char>, path: Seq<char>, current: Seq<char>, loaded: SpecModel)
    ensures
        spec_definition_model(SpecSymbol::ParameterReference { name }, current) == Some(current),
        spec_definition(SpecSymbol::ParameterReference { name }, current, Some(loaded)) == match map_get(
            loaded.parameters,
            name,
        ) {
            Some(p) => Some(SpecDefinitionSite::InModel { path: current, span: p.name_span }),
            None => None::<SpecDefinitionSite>,
        },
        spec_definition(SpecSymbol::ModelImportReference { reference_name: name }, current, Some(loaded)) == match map_get(
            loaded.references,
            name,
        ) {
            Some(r) => Some(SpecDefinitionSite::InModel { path: current, span: r.name_span }),
            None => None::<SpecDefinitionSite>,
        },
        spec_definition(SpecSymbol::PythonFunctionReference { python_path: path, name }, current, Some(loaded))
            == match map_get(loaded.python_imports, path) {
            Some(i) => Some(SpecDefinitionSite::InModel { path: current, span: i.import_path_span }),
            None => None::<SpecDefinitionSite>,
        },
        spec_definition(SpecSymbol::ModelImportDefinition { name, path }, current, None) == Some(
            SpecDefinitionSite::FileStart { path },
        ),
        spec_definition(SpecSymbol::ParameterReference { name }, current, None) is None,
        spec_definition(SpecSymbol::ExternalParameterReference { model_path: path, parameter_name: name }, current, None)
            is None,
        spec_definition(SpecSymbol::BuiltinFunctionReference { name }, current, Some(loaded)) is None,
{
}

} // verus!
