//! Errors and warnings met while resolving and evaluating models, and how
//! they are reported: message, span and notes.
use vstd::prelude::*;

use crate::paths::{ModelPath, string_of};
use crate::span::Span;

verus! {

/// A unit name that could not be resolved.
#[derive(Debug)]
pub struct UnitResolutionError {
    pub unit_name: String,
    pub unit_name_span: Span,
}

impl UnitResolutionError {
    /// The error for the unit `unit_name` written at `unit_name_span`.
    pub fn new(unit_name: String, unit_name_span: Span) -> (r: Self)
        ensures
            r.unit_name@ == unit_name@,
            r.unit_name_span == unit_name_span,
    {
        UnitResolutionError { unit_name, unit_name_span }
    }

    /// The unit name that could not be resolved.
    pub fn unit_name(&self) -> (r: &String)
        ensures
            r@ == self.unit_name@,
    {
        &self.unit_name
    }

    /// The span of the unit name.
    pub fn unit_name_span(&self) -> (r: Span)
        ensures
            r == self.unit_name_span,
    {
        self.unit_name_span
    }

    /// The message of the error.
    pub fn message(&self) -> (r: String)
        ensures
            r@ == "unknown unit `"@ + self.unit_name@ + "`"@,
    {
        let mut r = string_of("unknown unit `");
        r.append(self.unit_name.as_str());
        r.append("`");
        r
    }
}

/// An error met while resolving a variable of an expression.
#[derive(Debug)]
pub enum VariableResolutionError {
    /// The model that should contain the variable has errors.
    ModelHasError { path: ModelPath, reference_span: Span },
    /// The parameter that should contain the variable has errors.
    ParameterHasError { parameter_name: String, reference_span: Span },
    /// The submodel that the variable goes through could not be resolved.
    ReferenceResolutionFailed { identifier: String, reference_span: Span },
    /// The parameter is not defined in the current model (`model_path` is
    /// `None`) or in the given model.
    UndefinedParameter {
        model_path: Option<ModelPath>,
        parameter_name: String,
        reference_span: Span,
        best_match: Option<String>,
    },
    /// The reference is not defined in the current model.
    UndefinedReference { reference: String, reference_span: Span, best_match: Option<String> },
    /// The function is neither a builtin nor in a loaded Python import.
    UndefinedFunction { function_name: String, relevant_span: Span, best_match: Option<String> },
    /// The function is exported by more than one Python import.
    MultipleFunctionsFound { function_name: String, relevant_span: Span, python_paths: Vec<String> },
    /// A unit could not be resolved.
    UnitResolution(UnitResolutionError),
}

/// A note attached to a reported error.
#[derive(Debug)]
pub enum ErrorContext {
    /// A suggestion.
    Help(String),
    /// Additional information.
    Note(String),
}

/// The view of an [`ErrorContext`]: whether it is a help, and its text.
pub open spec fn context_view(c: &ErrorContext) -> (bool, Seq<char>) {
    match c {
        ErrorContext::Help(s) => (true, s@),
        ErrorContext::Note(s) => (false, s@),
    }
}

/// The message of a variable resolution error.
pub open spec fn error_message(e: &VariableResolutionError) -> Seq<char> {
    match e {
        VariableResolutionError::ModelHasError { path, .. } => "model `"@ + path.deep_view() + "` has errors"@,
        VariableResolutionError::ParameterHasError { parameter_name, .. } => "parameter `"@ + parameter_name@
            + "` has errors"@,
        VariableResolutionError::ReferenceResolutionFailed { identifier, .. } => "unable to resolve submodel `"@
            + identifier@ + "`"@,
        VariableResolutionError::UndefinedParameter { model_path, parameter_name, .. } => match model_path {
            Some(p) => "parameter `"@ + parameter_name@ + "` is not defined in model `"@ + p.deep_view() + "`"@,
            None => "parameter `"@ + parameter_name@ + "` is not defined in the current model"@,
        },
        VariableResolutionError::UndefinedReference { reference, .. } => "reference `"@ + reference@
            + "` is not defined in the current model"@,
        VariableResolutionError::UndefinedFunction { function_name, .. } => "function `"@ + function_name@
            + "` is not defined as a builtin or in any Python import"@,
        VariableResolutionError::MultipleFunctionsFound { function_name, .. } => "function `"@ + function_name@
            + "` is defined in multiple Python imports"@,
        VariableResolutionError::UnitResolution(u) => "unknown unit `"@ + u.unit_name@ + "`"@,
    }
}

/// The span that a variable resolution error is reported at.
pub open spec fn error_span(e: &VariableResolutionError) -> Span {
    match e {
        VariableResolutionError::ModelHasError { reference_span, .. } => *reference_span,
        VariableResolutionError::ParameterHasError { reference_span, .. } => *reference_span,
        VariableResolutionError::ReferenceResolutionFailed { reference_span, .. } => *reference_span,
        VariableResolutionError::UndefinedParameter { reference_span, .. } => *reference_span,
        VariableResolutionError::UndefinedReference { reference_span, .. } => *reference_span,
        VariableResolutionError::UndefinedFunction { relevant_span, .. } => *relevant_span,
        VariableResolutionError::MultipleFunctionsFound { relevant_span, .. } => *relevant_span,
        VariableResolutionError::UnitResolution(u) => u.unit_name_span,
    }
}

/// The help that suggests the best match, if there is one.
pub open spec fn best_match_help(best_match: Option<String>) -> Seq<(bool, Seq<char>)> {
    match best_match {
        Some(m) => seq![(true, "did you mean `"@ + m@ + "`?"@)],
        None => Seq::empty(),
    }
}

/// The notes of a variable resolution error: a suggestion of the best
/// match for an undefined name, or, for an ambiguous function, one note per
/// Python import that exports it.
pub open spec fn error_context(e: &VariableResolutionError) -> Seq<(bool, Seq<char>)> {
    match e {
        VariableResolutionError::UndefinedParameter { best_match, .. } => best_match_help(*best_match),
        VariableResolutionError::UndefinedReference { best_match, .. } => best_match_help(*best_match),
        VariableResolutionError::UndefinedFunction { best_match, .. } => best_match_help(*best_match),
        VariableResolutionError::MultipleFunctionsFound { function_name, python_paths, .. } => Seq::new(
            python_paths@.len(),
            |i: int| (false, "python import `"@ + python_paths@[i]@ + "` exports `"@ + function_name@ + "`"@),
        ),
        _ => Seq::empty(),
    }
}

/// The views of notes.
pub open spec fn context_views(cs: Seq<ErrorContext>) -> Seq<(bool, Seq<char>)> {
    Seq::new(cs.len(), |i: int| context_view(&cs[i]))
}

/// The help for a best match, if there is one.
fn best_match_context(best_match: &Option<String>) -> (r: Vec<ErrorContext>)
    ensures
        context_views(r@) == best_match_help(*best_match),
{
    match best_match {
        Some(m) => {
            let mut s = string_of("did you mean `");
            s.append(m.as_str());
            s.append("`?");
            let r = vec![ErrorContext::Help(s)];
            assert(context_views(r@) =~= best_match_help(*best_match));
            r
        },
        None => {
            let r: Vec<ErrorContext> = Vec::new();
            assert(context_views(r@) =~= best_match_help(*best_match));
            r
        },
    }
}

impl VariableResolutionError {
    /// The model at `model_path` has errors.
    pub fn model_has_error(model_path: ModelPath, reference_span: Span) -> (r: Self)
        ensures
            r == (VariableResolutionError::ModelHasError { path: model_path, reference_span }),
    {
        VariableResolutionError::ModelHasError { path: model_path, reference_span }
    }

    /// The parameter has errors.
    pub fn parameter_has_error(parameter_name: String, reference_span: Span) -> (r: Self)
        ensures
            r == (VariableResolutionError::ParameterHasError { parameter_name, reference_span }),
    {
        VariableResolutionError::ParameterHasError { parameter_name, reference_span }
    }

    /// The submodel that a variable goes through could not be resolved.
    pub fn reference_resolution_failed(identifier: String, reference_span: Span) -> (r: Self)
        ensures
            r == (VariableResolutionError::ReferenceResolutionFailed { identifier, reference_span }),
    {
        VariableResolutionError::ReferenceResolutionFailed { identifier, reference_span }
    }

    /// The parameter is not defined in the current model.
    pub fn undefined_parameter(parameter_name: String, reference_span: Span, best_match: Option<String>) -> (r: Self)
        ensures
            r == (VariableResolutionError::UndefinedParameter {
                model_path: None,
                parameter_name,
                reference_span,
                best_match,
            }),
    {
        VariableResolutionError::UndefinedParameter { model_path: None, parameter_name, reference_span, best_match }
    }

    /// The parameter is not defined in the model at `reference_path`.
    pub fn undefined_parameter_in_reference(
        reference_path: ModelPath,
        parameter_name: String,
        reference_span: Span,
        best_match: Option<String>,
    ) -> (r: Self)
        ensures
            r == (VariableResolutionError::UndefinedParameter {
                model_path: Some(reference_path),
                parameter_name,
                reference_span,
                best_match,
            }),
    {
        VariableResolutionError::UndefinedParameter {
            model_path: Some(reference_path),
            parameter_name,
            reference_span,
            best_match,
        }
    }

    /// The reference is not defined in the current model.
    pub fn undefined_reference(reference: String, reference_span: Span, best_match: Option<String>) -> (r: Self)
        ensures
            r == (VariableResolutionError::UndefinedReference { reference, reference_span, best_match }),
    {
        VariableResolutionError::UndefinedReference { reference, reference_span, best_match }
    }

    /// The function is not defined as a builtin or in any Python import.
    pub fn undefined_function(function_name: String, relevant_span: Span, best_match: Option<String>) -> (r: Self)
        ensures
            r == (VariableResolutionError::UndefinedFunction { function_name, relevant_span, best_match }),
    {
        VariableResolutionError::UndefinedFunction { function_name, relevant_span, best_match }
    }

    /// The function is exported by more than one Python import.
    pub fn multiple_functions_found(function_name: String, relevant_span: Span, python_paths: Vec<String>) -> (r: Self)
        ensures
            r == (VariableResolutionError::MultipleFunctionsFound { function_name, relevant_span, python_paths }),
    {
        VariableResolutionError::MultipleFunctionsFound { function_name, relevant_span, python_paths }
    }

    /// The message of the error.
    pub fn message(&self) -> (r: String)
        ensures
            r@ == error_message(self),
    {
        match self {
            VariableResolutionError::ModelHasError { path, .. } => {
                let mut r = string_of("model `");
                r.append(path.as_str());
                r.append("` has errors");
                r
            },
            VariableResolutionError::ParameterHasError { parameter_name, .. } => {
                let mut r = string_of("parameter `");
                r.append(parameter_name.as_str());
                r.append("` has errors");
                r
            },
            VariableResolutionError::ReferenceResolutionFailed { identifier, .. } => {
                let mut r = string_of("unable to resolve submodel `");
                r.append(identifier.as_str());
                r.append("`");
                r
            },
            VariableResolutionError::UndefinedParameter { model_path, parameter_name, .. } => {
                let mut r = string_of("parameter `");
                r.append(parameter_name.as_str());
                match model_path {
                    Some(p) => {
                        r.append("` is not defined in model `");
                        r.append(p.as_str());
                        r.append("`");
                    },
                    None => {
                        r.append("` is not defined in the current model");
                    },
                }
                r
            },
            VariableResolutionError::UndefinedReference { reference, .. } => {
                let mut r = string_of("reference `");
                r.append(reference.as_str());
                r.append("` is not defined in the current model");
                r
            },
            VariableResolutionError::UndefinedFunction { function_name, .. } => {
                let mut r = string_of("function `");
                r.append(function_name.as_str());
                r.append("` is not defined as a builtin or in any Python import");
                r
            },
            VariableResolutionError::MultipleFunctionsFound { function_name, .. } => {
                let mut r = string_of("function `");
                r.append(function_name.as_str());
                r.append("` is defined in multiple Python imports");
                r
            },
            VariableResolutionError::UnitResolution(u) => u.message(),
        }
    }

    /// The span the error is reported at (its location in the source).
    pub fn error_span(&self) -> (r: Span)
        ensures
            r == error_span(self),
    {
        match self {
            VariableResolutionError::ModelHasError { reference_span, .. } => *reference_span,
            VariableResolutionError::ParameterHasError { reference_span, .. } => *reference_span,
            VariableResolutionError::ReferenceResolutionFailed { reference_span, .. } => *reference_span,
            VariableResolutionError::UndefinedParameter { reference_span, .. } => *reference_span,
            VariableResolutionError::UndefinedReference { reference_span, .. } => *reference_span,
            VariableResolutionError::UndefinedFunction { relevant_span, .. } => *relevant_span,
            VariableResolutionError::MultipleFunctionsFound { relevant_span, .. } => *relevant_span,
            VariableResolutionError::UnitResolution(u) => u.unit_name_span,
        }
    }

    /// The notes reported with the error.
    pub fn context(&self) -> (r: Vec<ErrorContext>)
        ensures
            context_views(r@) == error_context(self),
    {
        match self {
            VariableResolutionError::UndefinedParameter { best_match, .. } => best_match_context(best_match),
            VariableResolutionError::UndefinedReference { best_match, .. } => best_match_context(best_match),
            VariableResolutionError::UndefinedFunction { best_match, .. } => best_match_context(best_match),
            VariableResolutionError::MultipleFunctionsFound { function_name, python_paths, .. } => {
                let mut r: Vec<ErrorContext> = Vec::new();
                let mut i: usize = 0;
                while i < python_paths.len()
                    invariant
                        i <= python_paths@.len(),
                        r@.len() == i,
                        forall|j: int|
                            0 <= j < i ==> #[trigger] context_view(&r@[j]) == (
                                false,
                                "python import `"@ + python_paths@[j]@ + "` exports `"@ + function_name@ + "`"@,
                            ),
                    decreases python_paths@.len() - i,
                {
                    let mut s = string_of("python import `");
                    s.append(python_paths[i].as_str());
                    s.append("` exports `");
                    s.append(function_name.as_str());
                    s.append("`");
                    r.push(ErrorContext::Note(s));
                    i = i + 1;
                }
                assert(context_views(r@) =~= error_context(self));
                r
            },
            _ => {
                let r: Vec<ErrorContext> = Vec::new();
                assert(context_views(r@) =~= error_context(self));
                r
            },
        }
    }

    /// Whether the error only reports an error found elsewhere (in a model,
    /// a parameter or a reference) rather than a mistake at this place.
    pub fn is_internal_error(&self) -> (r: bool)
        ensures
            r == (self is ModelHasError || self is ParameterHasError || self is ReferenceResolutionFailed),
    {
        match self {
            VariableResolutionError::ModelHasError { .. } => true,
            VariableResolutionError::ParameterHasError { .. } => true,
            VariableResolutionError::ReferenceResolutionFailed { .. } => true,
            _ => false,
        }
    }

    /// Whether the editor should leave the error out: one that only reports
    /// that a parameter it reads has errors of its own.
    pub fn is_internal_diagnostic(&self) -> (r: bool)
        ensures
            r == (self is ParameterHasError),
    {
        match self {
            VariableResolutionError::ParameterHasError { .. } => true,
            _ => false,
        }
    }
}

impl From<UnitResolutionError> for VariableResolutionError {
    fn from(error: UnitResolutionError) -> (r: Self) {
        VariableResolutionError::UnitResolution(error)
    }
}

impl vstd::std_specs::convert::FromSpecImpl<UnitResolutionError> for VariableResolutionError {
    open spec fn obeys_from_spec() -> bool {
        true
    }

    open spec fn from_spec(v: UnitResolutionError) -> VariableResolutionError {
        VariableResolutionError::UnitResolution(v)
    }
}

/// An error met while resolving a parameter.
#[derive(Debug)]
pub enum ParameterResolutionError {
    /// A variable of the parameter's value could not be resolved.
    VariableResolution(VariableResolutionError),
    /// The parameter's unit could not be resolved.
    UnitResolution(UnitResolutionError),
    /// The parameter is declared twice.
    DuplicateParameter { parameter_name: String, original_span: Span, duplicate_span: Span },
}

/// The message of a parameter resolution error.
pub open spec fn parameter_error_message(e: &ParameterResolutionError) -> Seq<char> {
    match e {
        ParameterResolutionError::VariableResolution(v) => error_message(v),
        ParameterResolutionError::UnitResolution(u) => "unknown unit `"@ + u.unit_name@ + "`"@,
        ParameterResolutionError::DuplicateParameter { parameter_name, .. } => "duplicate parameter `"@
            + parameter_name@ + "`"@,
    }
}

/// The notes of a parameter resolution error, each with the span it points
/// at, if any: those of a variable error, or, for a duplicate, a note at
/// the original declaration.
pub open spec fn parameter_error_context(e: &ParameterResolutionError) -> Seq<((bool, Seq<char>), Option<Span>)> {
    match e {
        ParameterResolutionError::VariableResolution(v) => Seq::new(
            error_context(v).len(),
            |i: int| (error_context(v)[i], None::<Span>),
        ),
        ParameterResolutionError::UnitResolution(_) => Seq::empty(),
        ParameterResolutionError::DuplicateParameter { original_span, .. } => seq![
            ((false, "original parameter found here"@), Some(*original_span)),
        ],
    }
}

/// The views of notes with their spans.
pub open spec fn located_context_views(cs: Seq<(ErrorContext, Option<Span>)>) -> Seq<((bool, Seq<char>), Option<Span>)> {
    Seq::new(cs.len(), |i: int| (context_view(&cs[i].0), cs[i].1))
}

impl ParameterResolutionError {
    /// A variable resolution error within a parameter.
    pub fn variable_resolution(error: VariableResolutionError) -> (r: Self)
        ensures
            r == ParameterResolutionError::VariableResolution(error),
    {
        ParameterResolutionError::VariableResolution(error)
    }

    /// A unit resolution error within a parameter.
    pub fn unit_resolution(error: UnitResolutionError) -> (r: Self)
        ensures
            r == ParameterResolutionError::UnitResolution(error),
    {
        ParameterResolutionError::UnitResolution(error)
    }

    /// A parameter declared a second time at `duplicate_span`.
    pub fn duplicate_parameter(parameter_name: String, original_span: Span, duplicate_span: Span) -> (r: Self)
        ensures
            r == (ParameterResolutionError::DuplicateParameter { parameter_name, original_span, duplicate_span }),
    {
        ParameterResolutionError::DuplicateParameter { parameter_name, original_span, duplicate_span }
    }

    /// The message of the error.
    pub fn message(&self) -> (r: String)
        ensures
            r@ == parameter_error_message(self),
    {
        match self {
            ParameterResolutionError::VariableResolution(v) => v.message(),
            ParameterResolutionError::UnitResolution(u) => u.message(),
            ParameterResolutionError::DuplicateParameter { parameter_name, .. } => {
                let mut r = string_of("duplicate parameter `");
                r.append(parameter_name.as_str());
                r.append("`");
                r
            },
        }
    }

    /// The span the error is reported at.
    pub fn error_span(&self) -> (r: Span)
        ensures
            r == match self {
                ParameterResolutionError::VariableResolution(v) => error_span(v),
                ParameterResolutionError::UnitResolution(u) => u.unit_name_span,
                ParameterResolutionError::DuplicateParameter { duplicate_span, .. } => *duplicate_span,
            },
    {
        match self {
            ParameterResolutionError::VariableResolution(v) => v.error_span(),
            ParameterResolutionError::UnitResolution(u) => u.unit_name_span,
            ParameterResolutionError::DuplicateParameter { duplicate_span, .. } => *duplicate_span,
        }
    }

    /// The notes reported with the error, each with the span it points at.
    pub fn context_with_spans(&self) -> (r: Vec<(ErrorContext, Option<Span>)>)
        ensures
            located_context_views(r@) == parameter_error_context(self),
    {
        match self {
            ParameterResolutionError::VariableResolution(v) => {
                let notes = v.context();
                let ghost nv = context_views(notes@);
                let mut r: Vec<(ErrorContext, Option<Span>)> = Vec::new();
                let mut rest = notes;
                let mut back: Vec<ErrorContext> = Vec::new();
                // Reverse, then pop from the back to keep the order.
                while rest.len() > 0
                    invariant
                        rest@.len() + back@.len() == nv.len(),
                        forall|j: int| 0 <= j < rest@.len() ==> context_view(&rest@[j]) == nv[j],
                        forall|j: int| 0 <= j < back@.len() ==> context_view(&back@[j]) == nv[nv.len() - 1 - j],
                    decreases rest@.len(),
                {
                    let c = rest.pop().unwrap();
                    back.push(c);
                }
                while back.len() > 0
                    invariant
                        r@.len() + back@.len() == nv.len(),
                        forall|j: int| 0 <= j < back@.len() ==> context_view(&back@[j]) == nv[nv.len() - 1 - j],
                        forall|j: int| 0 <= j < r@.len() ==> (#[trigger] r@[j]).1 is None && context_view(&r@[j].0) == nv[j],
                    decreases back@.len(),
                {
                    let c = back.pop().unwrap();
                    r.push((c, None));
                }
                assert(located_context_views(r@) =~= parameter_error_context(self));
                r
            },
            ParameterResolutionError::UnitResolution(_) => {
                let r: Vec<(ErrorContext, Option<Span>)> = Vec::new();
                assert(located_context_views(r@) =~= parameter_error_context(self));
                r
            },
            ParameterResolutionError::DuplicateParameter { original_span, .. } => {
                let note = ErrorContext::Note(string_of("original parameter found here"));
                let r = vec![(note, Some(*original_span))];
                assert(located_context_views(r@) =~= parameter_error_context(self));
                r
            },
        }
    }

    /// Whether the error only reports an error found elsewhere.
    pub fn is_internal_error(&self) -> (r: bool)
        ensures
            r == match self {
                ParameterResolutionError::VariableResolution(v) => v is ModelHasError || v is ParameterHasError
                    || v is ReferenceResolutionFailed,
                _ => false,
            },
    {
        match self {
            ParameterResolutionError::VariableResolution(v) => v.is_internal_error(),
            _ => false,
        }
    }

    /// Whether the editor should leave the error out: one that only reports
    /// that a parameter it reads has errors of its own.
    pub fn is_internal_diagnostic(&self) -> (r: bool)
        ensures
            r == (self matches ParameterResolutionError::VariableResolution(v) && v is ParameterHasError),
    {
        match self {
            ParameterResolutionError::VariableResolution(v) => v.is_internal_diagnostic(),
            _ => false,
        }
    }
}

impl From<VariableResolutionError> for ParameterResolutionError {
    fn from(error: VariableResolutionError) -> (r: Self) {
        ParameterResolutionError::VariableResolution(error)
    }
}

impl vstd::std_specs::convert::FromSpecImpl<VariableResolutionError> for ParameterResolutionError {
    open spec fn obeys_from_spec() -> bool {
        true
    }

    open spec fn from_spec(v: VariableResolutionError) -> ParameterResolutionError {
        ParameterResolutionError::VariableResolution(v)
    }
}

impl From<UnitResolutionError> for ParameterResolutionError {
    fn from(error: UnitResolutionError) -> (r: Self) {
        ParameterResolutionError::UnitResolution(error)
    }
}

impl vstd::std_specs::convert::FromSpecImpl<UnitResolutionError> for ParameterResolutionError {
    open spec fn obeys_from_spec() -> bool {
        true
    }

    open spec fn from_spec(v: UnitResolutionError) -> ParameterResolutionError {
        ParameterResolutionError::UnitResolution(v)
    }
}

/// A failure to resolve a design declaration (`design`, `use design`, or a
/// design parameter line), with its message and the span it concerns.
#[derive(Debug)]
pub struct DesignResolutionError {
    pub message: String,
    pub span: Span,
}

impl DesignResolutionError {
    /// The error with the given message at `span`.
    pub fn new(message: String, span: Span) -> (r: Self)
        ensures
            r.message@ == message@,
            r.span == span,
    {
        DesignResolutionError { message, span }
    }

    /// The message shown to the user.
    pub fn message(&self) -> (r: &str)
        ensures
            r@ == self.message@,
    {
        self.message.as_str()
    }

    /// The span the error concerns.
    pub fn span(&self) -> (r: Span)
        ensures
            r == self.span,
    {
        self.span
    }
}

/// Whether a diagnostic is an error or a warning.
#[derive(Debug, Clone, Copy, PartialEq, Eq, Structural)]
pub enum DiagnosticKind {
    Error,
    Warning,
}

/// A non-fatal issue met while evaluating expressions.
#[derive(Debug)]
pub enum EvalWarning {
    /// A Python function failed and a fallback result was used instead.
    UsedFallback {
        function_name: String,
        function_call_span: Span,
        message: String,
        traceback: Option<String>,
    },
}

/// The notes of a warning: the failure's message, then its traceback if
/// there is one.
pub open spec fn warning_context(w: &EvalWarning) -> Seq<(bool, Seq<char>)> {
    match w {
        EvalWarning::UsedFallback { message, traceback, .. } => match traceback {
            Some(t) => seq![(false, message@), (false, t@)],
            None => seq![(false, message@)],
        },
    }
}

impl EvalWarning {
    /// Warnings are not errors.
    pub fn kind(&self) -> (r: DiagnosticKind)
        ensures
            r == DiagnosticKind::Warning,
    {
        DiagnosticKind::Warning
    }

    /// The message of the warning.
    pub fn message(&self) -> (r: String)
        ensures
            r@ == match self {
                EvalWarning::UsedFallback { function_name, .. } => "python function `"@ + function_name@
                    + "` failed; using fallback"@,
            },
    {
        match self {
            EvalWarning::UsedFallback { function_name, .. } => {
                let mut r = string_of("python function `");
                r.append(function_name.as_str());
                r.append("` failed; using fallback");
                r
            },
        }
    }

    /// The span the warning is reported at: the function call.
    pub fn warning_span(&self) -> (r: Span)
        ensures
            r == match self {
                EvalWarning::UsedFallback { function_call_span, .. } => *function_call_span,
            },
    {
        match self {
            EvalWarning::UsedFallback { function_call_span, .. } => *function_call_span,
        }
    }

    /// The notes reported with the warning.
    pub fn context(&self) -> (r: Vec<ErrorContext>)
        ensures
            context_views(r@) == warning_context(self),
    {
        match self {
            EvalWarning::UsedFallback { message, traceback, .. } => {
                let mut r: Vec<ErrorContext> = Vec::new();
                r.push(ErrorContext::Note(message.clone()));
                match traceback {
                    Some(t) => {
                        r.push(ErrorContext::Note(t.clone()));
                    },
                    None => {},
                }
                assert(context_views(r@) =~= warning_context(self));
                r
            },
        }
    }
}


/// Errors are read in specifications as they are.
impl DeepView for VariableResolutionError {
    type V = VariableResolutionError;

    open spec fn deep_view(&self) -> VariableResolutionError {
        *self
    }
}

/// Errors are read in specifications as they are.
impl DeepView for ParameterResolutionError {
    type V = ParameterResolutionError;

    open spec fn deep_view(&self) -> ParameterResolutionError {
        *self
    }
}

} // verus!
