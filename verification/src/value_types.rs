//! The kinds of values, and the types that value-level errors expect.
use vstd::prelude::*;

use crate::paths::string_of;

verus! {

/// Whether a number is a single value or an interval.
#[derive(Debug, Clone, Copy, PartialEq, Eq, Structural)]
pub enum NumberType {
    Scalar,
    Interval,
}

/// A unit as it is displayed (e.g. `kg` or `m/s^2`).
#[derive(Debug)]
pub struct DisplayUnit {
    pub text: String,
}

/// The type of a value.
#[derive(Debug)]
pub enum ValueType {
    Boolean,
    String,
    Number { number_type: NumberType },
    MeasuredNumber { number_type: NumberType, unit: DisplayUnit },
}

/// The type that an operation expected of a value.
#[derive(Debug)]
pub enum ExpectedType {
    /// A boolean value.
    Boolean,
    /// A string value.
    String,
    /// A unitless number, of the given kind if one is specified.
    Number { number_type: Option<NumberType> },
    /// A number with a unit, of the given kind and unit where specified.
    MeasuredNumber { number_type: Option<NumberType>, unit: Option<DisplayUnit> },
    /// Either a unitless number or a number with a unit.
    NumberOrMeasuredNumber { number_type: Option<NumberType> },
}

/// The view of an [`ExpectedType`].
pub enum SpecExpectedType {
    Boolean,
    String,
    Number { number_type: Option<NumberType> },
    MeasuredNumber { number_type: Option<NumberType>, unit: Option<Seq<char>> },
    NumberOrMeasuredNumber { number_type: Option<NumberType> },
}

/// The view of a [`ValueType`].
pub enum SpecValueType {
    Boolean,
    String,
    Number { number_type: NumberType },
    MeasuredNumber { number_type: NumberType, unit: Seq<char> },
}

impl DeepView for ValueType {
    type V = SpecValueType;

    open spec fn deep_view(&self) -> SpecValueType {
        match self {
            ValueType::Boolean => SpecValueType::Boolean,
            ValueType::String => SpecValueType::String,
            ValueType::Number { number_type } => SpecValueType::Number { number_type: *number_type },
            ValueType::MeasuredNumber { number_type, unit } => SpecValueType::MeasuredNumber {
                number_type: *number_type,
                unit: unit.text@,
            },
        }
    }
}

impl DeepView for ExpectedType {
    type V = SpecExpectedType;

    open spec fn deep_view(&self) -> SpecExpectedType {
        match self {
            ExpectedType::Boolean => SpecExpectedType::Boolean,
            ExpectedType::String => SpecExpectedType::String,
            ExpectedType::Number { number_type } => SpecExpectedType::Number { number_type: *number_type },
            ExpectedType::MeasuredNumber { number_type, unit } => SpecExpectedType::MeasuredNumber {
                number_type: *number_type,
                unit: match unit {
                    Some(u) => Some(u.text@),
                    None => None,
                },
            },
            ExpectedType::NumberOrMeasuredNumber { number_type } => SpecExpectedType::NumberOrMeasuredNumber {
                number_type: *number_type,
            },
        }
    }
}

/// The expected type of the same kind as `v`, with the number kind left
/// unspecified.
pub open spec fn spec_matching(v: SpecValueType) -> SpecExpectedType {
    match v {
        SpecValueType::Boolean => SpecExpectedType::Boolean,
        SpecValueType::String => SpecExpectedType::String,
        SpecValueType::Number { .. } => SpecExpectedType::Number { number_type: None },
        SpecValueType::MeasuredNumber { unit, .. } => SpecExpectedType::MeasuredNumber {
            number_type: None,
            unit: Some(unit),
        },
    }
}

/// How a number kind is described.
pub open spec fn number_type_text(t: Option<NumberType>) -> Seq<char> {
    match t {
        Some(NumberType::Scalar) => "scalar"@,
        Some(NumberType::Interval) => "interval"@,
        None => "number"@,
    }
}

/// How an expected type is described in messages.
pub open spec fn expected_type_text(e: SpecExpectedType) -> Seq<char> {
    match e {
        SpecExpectedType::Boolean => "boolean"@,
        SpecExpectedType::String => "string"@,
        SpecExpectedType::Number { number_type } => "unitless "@ + number_type_text(number_type),
        SpecExpectedType::MeasuredNumber { number_type, unit } => number_type_text(number_type) + " with "@ + match unit {
            Some(u) => "unit `"@ + u + "`"@,
            None => "a unit"@,
        },
        SpecExpectedType::NumberOrMeasuredNumber { number_type } => number_type_text(number_type),
    }
}

fn number_type_str(t: Option<NumberType>) -> (r: &'static str)
    ensures
        r@ == number_type_text(t),
{
    match t {
        Some(NumberType::Scalar) => "scalar",
        Some(NumberType::Interval) => "interval",
        None => "number",
    }
}

impl ExpectedType {
    /// The expected type of the same kind as `value_type` (boolean, string,
    /// unitless number, or number with its display unit), with scalar and
    /// interval left unspecified.
    pub fn matching_value_type_ignoring_number_kind(value_type: &ValueType) -> (r: Self)
        ensures
            r.deep_view() == spec_matching(value_type.deep_view()),
    {
        match value_type {
            ValueType::Boolean => ExpectedType::Boolean,
            ValueType::String => ExpectedType::String,
            ValueType::Number { .. } => ExpectedType::Number { number_type: None },
            ValueType::MeasuredNumber { unit, .. } => ExpectedType::MeasuredNumber {
                number_type: None,
                unit: Some(DisplayUnit { text: unit.text.clone() }),
            },
        }
    }

    /// How the type is described in messages, e.g. `unitless number` or
    /// ``scalar with unit `kg` ``.
    pub fn describe(&self) -> (r: String)
        ensures
            r@ == expected_type_text(self.deep_view()),
    {
        match self {
            ExpectedType::Boolean => string_of("boolean"),
            ExpectedType::String => string_of("string"),
            ExpectedType::Number { number_type } => {
                let mut r = string_of("unitless ");
                r.append(number_type_str(*number_type));
                r
            },
            ExpectedType::MeasuredNumber { number_type, unit } => {
                let mut r = string_of(number_type_str(*number_type));
                r.append(" with ");
                match unit {
                    Some(u) => {
                        r.append("unit `");
                        r.append(u.text.as_str());
                        r.append("`");
                    },
                    None => {
                        r.append("a unit");
                    },
                }
                r
            },
            ExpectedType::NumberOrMeasuredNumber { number_type } => string_of(number_type_str(*number_type)),
        }
    }
}

/// Loading or parsing a model's syntax tree failed.
#[derive(Debug, Clone, Copy, PartialEq, Eq, Structural)]
pub struct AstLoadingFailedError;

/// Loading a Python import failed.
#[derive(Debug, Clone, Copy, PartialEq, Eq, Structural)]
pub struct PythonImportLoadingFailedError;

/// An IR model could not be loaded.
#[derive(Debug, Clone, Copy, PartialEq, Eq, Structural)]
pub struct IrLoadError;

/// A builtin unit as a test context declares it: its name, and whether SI
/// prefixes may be put before it.
#[derive(Debug, Clone, Copy)]
pub struct TestBuiltinUnit {
    pub name: &'static str,
    pub supports_si_prefixes: bool,
}

} // verus!
