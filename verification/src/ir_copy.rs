//! Structural views of the IR values that the instance graph copies onto
//! its instances, and copies of them that keep those views.
use vstd::prelude::*;

use crate::ir::{
    Dependencies, Expr, FunctionName, Limits, OverlayParameterValue, Parameter, ParameterValue, PiecewiseExpr, Test,
    Variable,
};
use crate::paths::ModelPath;
use crate::print::TraceLevel;
use crate::span::Span;

verus! {

/// The structure of an expression, with its lists read as sequences.
pub enum ExprShape {
    Literal { span: Span },
    Variable { span: Span, variable: Variable },
    ComparisonOp { span: Span, left: Box<ExprShape>, right: Box<ExprShape>, rest_chained: Seq<ExprShape> },
    BinaryOp { span: Span, left: Box<ExprShape>, right: Box<ExprShape> },
    UnaryOp { span: Span, expr: Box<ExprShape> },
    UnitCast { span: Span, expr: Box<ExprShape> },
    FunctionCall { span: Span, name_span: Span, name: FunctionName, args: Seq<ExprShape> },
}

/// The structure of `e`.
pub open spec fn expr_shape(e: Expr) -> ExprShape
    decreases e,
{
    match e {
        Expr::Literal { span } => ExprShape::Literal { span },
        Expr::Variable { span, variable } => ExprShape::Variable { span, variable },
        Expr::ComparisonOp { span, left, right, rest_chained } => ExprShape::ComparisonOp {
            span,
            left: Box::new(expr_shape(*left)),
            right: Box::new(expr_shape(*right)),
            rest_chained: Seq::new(
                rest_chained@.len(),
                |i: int|
                    if 0 <= i < rest_chained@.len() {
                        proof {
                            assert(decreases_to!(e => rest_chained));
                            assert(decreases_to!(rest_chained => rest_chained@));
                            assert(decreases_to!(rest_chained@ => rest_chained@[i]));
                        }
                        expr_shape(rest_chained@[i])
                    } else {
                        arbitrary()
                    },
            ),
        },
        Expr::BinaryOp { span, left, right } => ExprShape::BinaryOp {
            span,
            left: Box::new(expr_shape(*left)),
            right: Box::new(expr_shape(*right)),
        },
        Expr::UnaryOp { span, expr } => ExprShape::UnaryOp { span, expr: Box::new(expr_shape(*expr)) },
        Expr::UnitCast { span, expr } => ExprShape::UnitCast { span, expr: Box::new(expr_shape(*expr)) },
        Expr::FunctionCall { span, name_span, name, args } => ExprShape::FunctionCall {
            span,
            name_span,
            name,
            args: Seq::new(
                args@.len(),
                |i: int|
                    if 0 <= i < args@.len() {
                        proof {
                            assert(decreases_to!(e => args));
                            assert(decreases_to!(args => args@));
                            assert(decreases_to!(args@ => args@[i]));
                        }
                        expr_shape(args@[i])
                    } else {
                        arbitrary()
                    },
            ),
        },
    }
}

/// The structures of a list of expressions.
pub open spec fn exprs_shape(v: Seq<Expr>) -> Seq<ExprShape> {
    v.map_values(|e: Expr| expr_shape(e))
}

/// A copy of a path.
fn copy_path(p: &ModelPath) -> (r: ModelPath)
    ensures
        r == *p,
{
    ModelPath { path: p.path.clone() }
}

/// A copy of a variable.
fn copy_variable(v: &Variable) -> (r: Variable)
    ensures
        r == *v,
{
    match v {
        Variable::Builtin { name, span } => Variable::Builtin { name: name.clone(), span: *span },
        Variable::Parameter { parameter_name, parameter_span } => Variable::Parameter {
            parameter_name: parameter_name.clone(),
            parameter_span: *parameter_span,
        },
        Variable::External { model_path, reference_name, reference_span, parameter_name, parameter_span } =>
            Variable::External {
            model_path: copy_path(model_path),
            reference_name: reference_name.clone(),
            reference_span: *reference_span,
            parameter_name: parameter_name.clone(),
            parameter_span: *parameter_span,
        },
    }
}

/// A copy of a function name.
fn copy_function_name(f: &FunctionName) -> (r: FunctionName)
    ensures
        r == *f,
{
    match f {
        FunctionName::Builtin(n, s) => FunctionName::Builtin(n.clone(), *s),
        FunctionName::Imported { python_path, name, name_span } => FunctionName::Imported {
            python_path: python_path.clone(),
            name: name.clone(),
            name_span: *name_span,
        },
    }
}

/// A copy of an expression.
#[verifier::loop_isolation(false)]
pub fn copy_expr(e: &Expr) -> (r: Expr)
    ensures
        expr_shape(r) == expr_shape(*e),
    decreases e,
{
    match e {
        Expr::Literal { span } => Expr::Literal { span: *span },
        Expr::Variable { span, variable } => Expr::Variable { span: *span, variable: copy_variable(variable) },
        Expr::ComparisonOp { span, left, right, rest_chained } => {
            let l = copy_expr(left);
            let r = copy_expr(right);
            let mut rest: Vec<Expr> = Vec::new();
            let mut i: usize = 0;
            while i < rest_chained.len()
                invariant
                    i <= rest_chained@.len(),
                    rest@.len() == i,
                    forall|j: int| 0 <= j < i ==> expr_shape(#[trigger] rest@[j]) == expr_shape(rest_chained@[j]),
                decreases rest_chained@.len() - i,
            {
                proof {
                    assert(decreases_to!(*e => *rest_chained));
                    assert(decreases_to!(*rest_chained => rest_chained@));
                    assert(decreases_to!(rest_chained@ => rest_chained@[i as int]));
                }
                rest.push(copy_expr(&rest_chained[i]));
                i = i + 1;
            }
            let out = Expr::ComparisonOp { span: *span, left: Box::new(l), right: Box::new(r), rest_chained: rest };
            assert(expr_shape(out) =~= expr_shape(*e)) by {
                if let ExprShape::ComparisonOp { rest_chained: a, .. } = expr_shape(out) {
                    if let ExprShape::ComparisonOp { rest_chained: b, .. } = expr_shape(*e) {
                        assert(a =~= b);
                    }
                }
            }
            out
        },
        Expr::BinaryOp { span, left, right } => {
            let l = copy_expr(left);
            let r = copy_expr(right);
            Expr::BinaryOp { span: *span, left: Box::new(l), right: Box::new(r) }
        },
        Expr::UnaryOp { span, expr } => {
            let x = copy_expr(expr);
            Expr::UnaryOp { span: *span, expr: Box::new(x) }
        },
        Expr::UnitCast { span, expr } => {
            let x = copy_expr(expr);
            Expr::UnitCast { span: *span, expr: Box::new(x) }
        },
        Expr::FunctionCall { span, name_span, name, args } => {
            let mut out_args: Vec<Expr> = Vec::new();
            let mut i: usize = 0;
            while i < args.len()
                invariant
                    i <= args@.len(),
                    out_args@.len() == i,
                    forall|j: int| 0 <= j < i ==> expr_shape(#[trigger] out_args@[j]) == expr_shape(args@[j]),
                decreases args@.len() - i,
            {
                proof {
                    assert(decreases_to!(*e => *args));
                    assert(decreases_to!(*args => args@));
                    assert(decreases_to!(args@ => args@[i as int]));
                }
                out_args.push(copy_expr(&args[i]));
                i = i + 1;
            }
            let out = Expr::FunctionCall {
                span: *span,
                name_span: *name_span,
                name: copy_function_name(name),
                args: out_args,
            };
            assert(expr_shape(out) =~= expr_shape(*e)) by {
                if let ExprShape::FunctionCall { args: a, .. } = expr_shape(out) {
                    if let ExprShape::FunctionCall { args: b, .. } = expr_shape(*e) {
                        assert(a =~= b);
                    }
                }
            }
            out
        },
    }
}

/// Copies of a list of expressions.
fn copy_exprs(v: &Vec<Expr>) -> (r: Vec<Expr>)
    ensures
        exprs_shape(r@) == exprs_shape(v@),
{
    let mut out: Vec<Expr> = Vec::new();
    let mut i: usize = 0;
    while i < v.len()
        invariant
            i <= v@.len(),
            out@.len() == i,
            forall|j: int| 0 <= j < i ==> expr_shape(#[trigger] out@[j]) == expr_shape(v@[j]),
        decreases v@.len() - i,
    {
        out.push(copy_expr(&v[i]));
        i = i + 1;
    }
    assert(exprs_shape(out@) =~= exprs_shape(v@));
    out
}

/// The structure of a parameter value.
pub enum ValueShape {
    Simple(ExprShape),
    Piecewise(Seq<(ExprShape, ExprShape)>),
}

/// The structure of `v`.
pub open spec fn value_shape(v: ParameterValue) -> ValueShape {
    match v {
        ParameterValue::Simple(e) => ValueShape::Simple(expr_shape(e)),
        ParameterValue::Piecewise(ps) => ValueShape::Piecewise(
            ps@.map_values(|p: PiecewiseExpr| (expr_shape(p.expr), expr_shape(p.if_expr))),
        ),
    }
}

/// A copy of a parameter value.
pub fn copy_value(v: &ParameterValue) -> (r: ParameterValue)
    ensures
        value_shape(r) == value_shape(*v),
{
    match v {
        ParameterValue::Simple(e) => ParameterValue::Simple(copy_expr(e)),
        ParameterValue::Piecewise(ps) => {
            let mut out: Vec<PiecewiseExpr> = Vec::new();
            let mut i: usize = 0;
            while i < ps.len()
                invariant
                    i <= ps@.len(),
                    out@.len() == i,
                    forall|j: int|
                        0 <= j < i ==> expr_shape((#[trigger] out@[j]).expr) == expr_shape(ps@[j].expr)
                            && expr_shape(out@[j].if_expr) == expr_shape(ps@[j].if_expr),
                decreases ps@.len() - i,
            {
                out.push(PiecewiseExpr { expr: copy_expr(&ps[i].expr), if_expr: copy_expr(&ps[i].if_expr) });
                i = i + 1;
            }
            let r = ParameterValue::Piecewise(out);
            assert(value_shape(r) =~= value_shape(*v)) by {
                assert(out@.map_values(|p: PiecewiseExpr| (expr_shape(p.expr), expr_shape(p.if_expr))) =~= ps@.map_values(
                    |p: PiecewiseExpr| (expr_shape(p.expr), expr_shape(p.if_expr)),
                ));
            }
            r
        },
    }
}

/// The structure of parameter limits.
pub enum LimitsShape {
    Default,
    Continuous { min: ExprShape, max: ExprShape },
    Discrete { values: Seq<ExprShape> },
}

/// The structure of `l`.
pub open spec fn limits_shape(l: Limits) -> LimitsShape {
    match l {
        Limits::Default => LimitsShape::Default,
        Limits::Continuous { min, max } => LimitsShape::Continuous { min: expr_shape(min), max: expr_shape(max) },
        Limits::Discrete { values } => LimitsShape::Discrete { values: exprs_shape(values@) },
    }
}

/// A copy of parameter limits.
fn copy_limits(l: &Limits) -> (r: Limits)
    ensures
        limits_shape(r) == limits_shape(*l),
{
    match l {
        Limits::Default => Limits::Default,
        Limits::Continuous { min, max } => Limits::Continuous { min: copy_expr(min), max: copy_expr(max) },
        Limits::Discrete { values } => Limits::Discrete { values: copy_exprs(values) },
    }
}

/// The structure of what a value reads: builtin values, parameters of the
/// same model, and parameters of referenced models.
pub struct DependenciesShape {
    pub builtin: Seq<(String, Span)>,
    pub parameter: Seq<(String, Span)>,
    pub external: Seq<((String, String), Span)>,
}

/// The structure of `d`.
pub open spec fn dependencies_shape(d: Dependencies) -> DependenciesShape {
    DependenciesShape { builtin: d.builtin@, parameter: d.parameter@, external: d.external@ }
}

/// A copy of a list of names with spans.
fn copy_named(v: &Vec<(String, Span)>) -> (r: Vec<(String, Span)>)
    ensures
        r@ == v@,
{
    let mut out: Vec<(String, Span)> = Vec::new();
    let mut i: usize = 0;
    while i < v.len()
        invariant
            i <= v@.len(),
            out@ == v@.take(i as int),
        decreases v@.len() - i,
    {
        let (n, s) = &v[i];
        out.push((n.clone(), *s));
        assert(v@.take(i + 1) =~= v@.take(i as int).push(v@[i as int]));
        i = i + 1;
    }
    assert(v@.take(i as int) =~= v@);
    out
}

/// A copy of `d`.
pub fn copy_dependencies(d: &Dependencies) -> (r: Dependencies)
    ensures
        dependencies_shape(r) == dependencies_shape(*d),
{
    let mut external: Vec<((String, String), Span)> = Vec::new();
    let mut i: usize = 0;
    while i < d.external.len()
        invariant
            i <= d.external@.len(),
            external@ == d.external@.take(i as int),
        decreases d.external@.len() - i,
    {
        let ((a, b), s) = &d.external[i];
        external.push(((a.clone(), b.clone()), *s));
        assert(d.external@.take(i + 1) =~= d.external@.take(i as int).push(d.external@[i as int]));
        i = i + 1;
    }
    assert(d.external@.take(i as int) =~= d.external@);
    Dependencies { builtin: copy_named(&d.builtin), parameter: copy_named(&d.parameter), external }
}

/// The structure of a parameter.
pub struct ParameterShape {
    pub name: String,
    pub name_span: Span,
    pub span: Span,
    pub value: ValueShape,
    pub limits: LimitsShape,
    pub dependencies: DependenciesShape,
}

/// The structure of `p`.
pub open spec fn parameter_shape(p: Parameter) -> ParameterShape {
    ParameterShape {
        name: p.name,
        name_span: p.name_span,
        span: p.span,
        value: value_shape(p.value),
        limits: limits_shape(p.limits),
        dependencies: dependencies_shape(p.dependencies),
    }
}

/// A copy of a parameter.
pub fn copy_parameter(p: &Parameter) -> (r: Parameter)
    ensures
        parameter_shape(r) == parameter_shape(*p),
{
    Parameter {
        name: p.name.clone(),
        name_span: p.name_span,
        span: p.span,
        value: copy_value(&p.value),
        limits: copy_limits(&p.limits),
        dependencies: copy_dependencies(&p.dependencies),
    }
}

/// The structure of a value a design gives to a parameter.
pub struct OverlayShape {
    pub value: ValueShape,
    pub design_span: Span,
    pub original_model_span: Span,
}

/// The structure of `o`.
pub open spec fn overlay_shape(o: OverlayParameterValue) -> OverlayShape {
    OverlayShape { value: value_shape(o.value), design_span: o.design_span, original_model_span: o.original_model_span }
}

/// A copy of a value a design gives to a parameter.
pub fn copy_overlay(o: &OverlayParameterValue) -> (r: OverlayParameterValue)
    ensures
        overlay_shape(r) == overlay_shape(*o),
{
    OverlayParameterValue {
        value: copy_value(&o.value),
        design_span: o.design_span,
        original_model_span: o.original_model_span,
    }
}

/// The structure of a test.
pub struct TestShape {
    pub span: Span,
    pub trace_level: TraceLevel,
    pub expr: ExprShape,
    pub dependencies: DependenciesShape,
    pub section_label: Option<String>,
}

/// The structure of `t`.
pub open spec fn test_shape(t: Test) -> TestShape {
    TestShape {
        span: t.span,
        trace_level: t.trace_level,
        expr: expr_shape(t.expr),
        dependencies: dependencies_shape(t.dependencies),
        section_label: t.section_label,
    }
}

/// A copy of a test.
pub fn copy_test(t: &Test) -> (r: Test)
    ensures
        test_shape(r) == test_shape(*t),
{
    let label = match &t.section_label {
        Some(s) => Some(s.clone()),
        None => None,
    };
    Test {
        span: t.span,
        trace_level: t.trace_level,
        expr: copy_expr(&t.expr),
        dependencies: copy_dependencies(&t.dependencies),
        section_label: label,
    }
}

/// An override as it lands on an instance, read by its structure.
#[derive(Debug)]
pub struct LandedOverride(pub OverlayParameterValue);

impl DeepView for LandedOverride {
    type V = OverlayShape;

    open spec fn deep_view(&self) -> OverlayShape {
        overlay_shape(self.0)
    }
}

/// A parameter as it lands on an instance, read by its structure.
#[derive(Debug)]
pub struct LandedParameter(pub Parameter);

impl DeepView for LandedParameter {
    type V = ParameterShape;

    open spec fn deep_view(&self) -> ParameterShape {
        parameter_shape(self.0)
    }
}

} // verus!
