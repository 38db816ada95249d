//! Print levels of evaluated parameters.
use vstd::prelude::*;

verus! {

/// How much of a parameter is printed. Higher levels give more detail, and
/// the levels are ordered `Off < Trace < Performance`.
#[derive(Debug, Clone, Copy, PartialEq, Eq, Structural, PartialOrd, Ord, Hash)]
pub enum PrintLevel {
    /// No output.
    Off,
    /// Basic tracing output.
    Trace,
    /// Performance output.
    Performance,
}

/// The trace marker written on a parameter.
#[derive(Debug, Clone, Copy, PartialEq, Eq, Structural, Hash)]
pub enum TraceLevel {
    /// No marker.
    Off,
    /// Trace the parameter.
    Trace,
    /// Trace the parameter and record the values of its dependencies.
    Debug,
}

/// The position of a level in the order `Off < Trace < Performance`.
pub open spec fn level_rank(l: PrintLevel) -> int {
    match l {
        PrintLevel::Off => 0,
        PrintLevel::Trace => 1,
        PrintLevel::Performance => 2,
    }
}

/// The level a parameter is printed at: performance parameters at
/// `Performance`, traced ones at `Trace`, others at `Off`.
pub open spec fn spec_print_level(trace_level: TraceLevel, is_performance: bool) -> PrintLevel {
    if is_performance {
        PrintLevel::Performance
    } else {
        match trace_level {
            TraceLevel::Off => PrintLevel::Off,
            _ => PrintLevel::Trace,
        }
    }
}

impl PrintLevel {
    /// The position of the level in the order `Off < Trace < Performance`.
    pub fn rank(self) -> (r: u8)
        ensures
            r == level_rank(self),
    {
        match self {
            PrintLevel::Off => 0,
            PrintLevel::Trace => 1,
            PrintLevel::Performance => 2,
        }
    }

    /// The name of the level as shown to users.
    pub fn as_str(self) -> (r: &'static str)
        ensures
            r@ == match self {
                PrintLevel::Off => "none"@,
                PrintLevel::Trace => "trace"@,
                PrintLevel::Performance => "performance"@,
            },
    {
        match self {
            PrintLevel::Off => "none",
            PrintLevel::Trace => "trace",
            PrintLevel::Performance => "performance",
        }
    }
}

/// The print level of a parameter, and whether the values of its
/// dependencies are recorded for debugging (only for a `Debug` marker).
pub fn print_settings(trace_level: TraceLevel, is_performance: bool) -> (r: (PrintLevel, bool))
    ensures
        r.0 == spec_print_level(trace_level, is_performance),
        r.1 == (trace_level == TraceLevel::Debug),
{
    match trace_level {
        TraceLevel::Debug => if is_performance {
            (PrintLevel::Performance, true)
        } else {
            (PrintLevel::Trace, true)
        },
        TraceLevel::Trace => if is_performance {
            (PrintLevel::Performance, false)
        } else {
            (PrintLevel::Trace, false)
        },
        TraceLevel::Off => if is_performance {
            (PrintLevel::Performance, false)
        } else {
            (PrintLevel::Off, false)
        },
    }
}

/// Whether a parameter printed at `parameter_level` is shown when printing
/// at `print_level`: when its level is at least as high.
pub fn should_print(parameter_level: PrintLevel, print_level: PrintLevel) -> (r: bool)
    ensures
        r == (level_rank(parameter_level) >= level_rank(print_level)),
{
    parameter_level.rank() >= print_level.rank()
}

/// A parameter shown at some level is shown at every lower level, and a
/// performance parameter is shown at every level.
pub proof fn law_print_level_monotone(parameter_level: PrintLevel, high: PrintLevel, low: PrintLevel)
    ensures
        level_rank(parameter_level) >= level_rank(high) && level_rank(high) >= level_rank(low)
            ==> level_rank(parameter_level) >= level_rank(low),
        level_rank(PrintLevel::Performance) >= level_rank(low),
        level_rank(parameter_level) >= level_rank(PrintLevel::Off),
{
}

/// Marking a parameter as performance never lowers its print level.
pub proof fn law_performance_is_highest(trace_level: TraceLevel)
    ensures
        level_rank(spec_print_level(trace_level, true)) >= level_rank(spec_print_level(trace_level, false)),
        spec_print_level(trace_level, true) == PrintLevel::Performance,
{
}

} // verus!
