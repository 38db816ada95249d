//! Compilation units, the files an instance graph is built for, and the
//! error reported when their dependencies form a cycle.
use vstd::prelude::*;

use crate::errors::{DiagnosticKind, ErrorContext, context_views};
use crate::paths::{ModelPath, string_of};
use crate::span::Span;

verus! {

/// The path of a design file.
#[derive(Debug)]
pub struct DesignPath {
    pub path: String,
}

impl DesignPath {
    /// The design file at `path`.
    pub fn new(path: String) -> (r: Self)
        ensures
            r.path@ == path@,
    {
        DesignPath { path }
    }

    /// The path as text.
    pub fn as_str(&self) -> (r: &str)
        ensures
            r@ == self.path@,
    {
        self.path.as_str()
    }

    /// The same file, as a model path.
    pub fn to_model_path(&self) -> (r: ModelPath)
        ensures
            r.deep_view() == self.path@,
    {
        ModelPath::new(self.path.clone())
    }
}

/// A file that an instance graph is built for: a model file, or a design
/// file (whose graph is its target model with the design laid over it).
#[derive(Debug)]
pub enum CompilationUnit {
    Model(ModelPath),
    Design(DesignPath),
}

/// The view of a [`CompilationUnit`]: its kind and its path.
pub enum SpecUnit {
    Model(Seq<char>),
    Design(Seq<char>),
}

impl DeepView for CompilationUnit {
    type V = SpecUnit;

    open spec fn deep_view(&self) -> SpecUnit {
        match self {
            CompilationUnit::Model(p) => SpecUnit::Model(p.deep_view()),
            CompilationUnit::Design(p) => SpecUnit::Design(p.path@),
        }
    }
}

/// The path of the file a unit lives in.
pub open spec fn unit_path(u: SpecUnit) -> Seq<char> {
    match u {
        SpecUnit::Model(p) => p,
        SpecUnit::Design(p) => p,
    }
}

impl CompilationUnit {
    /// The path of the file this unit lives in, as a model path.
    pub fn source_path(&self) -> (r: ModelPath)
        ensures
            r.deep_view() == unit_path(self.deep_view()),
    {
        match self {
            CompilationUnit::Model(p) => p.duplicate(),
            CompilationUnit::Design(p) => p.to_model_path(),
        }
    }

    /// Whether the unit is a model file.
    pub fn is_model(&self) -> (r: bool)
        ensures
            r == (self.deep_view() is Model),
    {
        match self {
            CompilationUnit::Model(_) => true,
            CompilationUnit::Design(_) => false,
        }
    }

    /// Whether the unit is a design file.
    pub fn is_design(&self) -> (r: bool)
        ensures
            r == (self.deep_view() is Design),
    {
        match self {
            CompilationUnit::Model(_) => false,
            CompilationUnit::Design(_) => true,
        }
    }

    /// The unit as text: the path of its file.
    pub fn to_display_string(&self) -> (r: String)
        ensures
            r@ == unit_path(self.deep_view()),
    {
        match self {
            CompilationUnit::Model(p) => p.path.clone(),
            CompilationUnit::Design(p) => p.path.clone(),
        }
    }
}

impl From<ModelPath> for CompilationUnit {
    fn from(value: ModelPath) -> (r: Self) {
        CompilationUnit::Model(value)
    }
}

impl vstd::std_specs::convert::FromSpecImpl<ModelPath> for CompilationUnit {
    open spec fn obeys_from_spec() -> bool {
        true
    }

    open spec fn from_spec(v: ModelPath) -> Self {
        CompilationUnit::Model(v)
    }
}

impl From<DesignPath> for CompilationUnit {
    fn from(value: DesignPath) -> (r: Self) {
        CompilationUnit::Design(value)
    }
}

impl vstd::std_specs::convert::FromSpecImpl<DesignPath> for CompilationUnit {
    open spec fn obeys_from_spec() -> bool {
        true
    }

    open spec fn from_spec(v: DesignPath) -> Self {
        CompilationUnit::Design(v)
    }
}

/// The units of a cycle, their paths joined with ` -> `.
pub open spec fn chain_text(units: Seq<SpecUnit>) -> Seq<char>
    decreases units.len(),
{
    if units.len() == 0 {
        Seq::empty()
    } else if units.len() == 1 {
        unit_path(units[0])
    } else {
        chain_text(units.drop_last()) + " -> "@ + unit_path(units.last())
    }
}

/// The views of a list of units.
pub open spec fn unit_views(s: Seq<CompilationUnit>) -> Seq<SpecUnit> {
    s.map_values(|u: CompilationUnit| u.deep_view())
}

/// Whether a list of units is a cycle: it has the back edge, so at least
/// two entries, and ends where it starts.
pub open spec fn closes_on_itself(s: Seq<SpecUnit>) -> bool {
    s.len() >= 2 && s[0] == s.last()
}

/// A cycle among compilation units, met while building an instance graph.
///
/// The cycle lists the units in the order they were entered, starting and
/// ending at the unit the cycle closes on; the span is the declaration, in
/// the file at `source_path`, of the reference that leads on along the
/// cycle.
#[derive(Debug)]
pub struct CompilationCycleError {
    cycle: Vec<CompilationUnit>,
    source_path: ModelPath,
    span: Span,
}

impl CompilationCycleError {
    #[verifier::type_invariant]
    spec fn closes(&self) -> bool {
        closes_on_itself(unit_views(self.cycle@))
    }

    /// The units of the cycle, in entry order.
    pub closed spec fn cycle_view(&self) -> Seq<SpecUnit> {
        unit_views(self.cycle@)
    }

    /// The file the span is in.
    pub closed spec fn source_path_view(&self) -> Seq<char> {
        self.source_path.deep_view()
    }

    /// The span of the reference that leads on along the cycle.
    pub closed spec fn span_view(&self) -> Span {
        self.span
    }

    /// The error for `cycle`, seen from the file at `source_path`.
    pub fn new(cycle: Vec<CompilationUnit>, source_path: ModelPath, span: Span) -> (r: Self)
        requires
            closes_on_itself(unit_views(cycle@)),
        ensures
            r.cycle_view() == unit_views(cycle@),
            r.source_path_view() == source_path.deep_view(),
            r.span_view() == span,
    {
        CompilationCycleError { cycle, source_path, span }
    }

    /// The units of the cycle, in entry order, with the unit the cycle closes
    /// on at both ends.
    pub fn cycle(&self) -> (r: &[CompilationUnit])
        ensures
            unit_views(r@) == self.cycle_view(),
            closes_on_itself(unit_views(r@)),
    {
        proof {
            use_type_invariant(self);
        }
        self.cycle.as_slice()
    }

    /// The file the span is in.
    pub fn source_path(&self) -> (r: &ModelPath)
        ensures
            r.deep_view() == self.source_path_view(),
    {
        &self.source_path
    }

    /// The span of the reference that leads on along the cycle.
    pub fn span(&self) -> (r: Span)
        ensures
            r == self.span_view(),
    {
        self.span
    }

    fn render_chain(&self) -> (r: String)
        ensures
            r@ == chain_text(self.cycle_view()),
    {
        let ghost views = unit_views(self.cycle@);
        let mut r = string_of("");
        proof {
            reveal_strlit("");
            assert(views.take(0) =~= Seq::<SpecUnit>::empty());
        }
        let mut i: usize = 0;
        while i < self.cycle.len()
            invariant
                i <= self.cycle@.len(),
                views == unit_views(self.cycle@),
                r@ == chain_text(views.take(i as int)),
            decreases self.cycle@.len() - i,
        {
            if i > 0 {
                r.append(" -> ");
            }
            let part = self.cycle[i].to_display_string();
            r.append(part.as_str());
            proof {
                reveal_strlit(" -> ");
                assert(views.take(i + 1).drop_last() =~= views.take(i as int));
                assert(views[i as int] == self.cycle@[i as int].deep_view());
                if i == 0 {
                    assert(r@ =~= chain_text(views.take(1)));
                } else {
                    assert(r@ =~= chain_text(views.take(i as int)) + " -> "@ + unit_path(views[i as int]));
                }
            }
            i = i + 1;
        }
        proof {
            assert(views.take(self.cycle@.len() as int) =~= views);
        }
        r
    }

    /// The message of the error.
    pub fn message(&self) -> (r: String)
        ensures
            r@ == "compilation cycle detected: "@ + chain_text(self.cycle_view()),
    {
        let mut r = string_of("compilation cycle detected: ");
        let chain = self.render_chain();
        r.append(chain.as_str());
        r
    }

    /// A cycle is an error.
    pub fn kind(&self) -> (r: DiagnosticKind)
        ensures
            r == DiagnosticKind::Error,
    {
        DiagnosticKind::Error
    }

    /// Where the error is shown: the span of the reference.
    pub fn diagnostic_location(&self) -> (r: Option<Span>)
        ensures
            r == Some(self.span_view()),
    {
        Some(self.span)
    }

    /// The help shown with the error.
    pub fn context(&self) -> (r: Vec<ErrorContext>)
        ensures
            context_views(r@) == seq![(true, "break the cycle by removing one of the references along the chain"@)],
    {
        let r = vec![ErrorContext::Help(string_of("break the cycle by removing one of the references along the chain"))];
        assert(context_views(r@) =~= seq![(true, "break the cycle by removing one of the references along the chain"@)]);
        r
    }
}

} // verus!
