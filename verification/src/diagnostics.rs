//! Shaping errors for the editor: the diagnostic text and the range an
//! error covers.
use vstd::prelude::*;

use crate::cli_args::join_with;
use crate::paths::string_of;
use crate::errors::{ErrorContext, context_view, context_views};

verus! {

/// A position in a text: a line and a character on it, both from 0.
#[derive(Debug, Clone, Copy, PartialEq, Eq, Structural)]
pub struct Position {
    pub line: u32,
    pub character: u32,
}

/// A range between two positions.
#[derive(Debug, Clone, Copy, PartialEq, Eq, Structural)]
pub struct Range {
    pub start: Position,
    pub end: Position,
}

/// How a note is shown: `note: …` or `help: …`.
pub open spec fn context_text(c: (bool, Seq<char>)) -> Seq<char> {
    if c.0 {
        "help: "@ + c.1
    } else {
        "note: "@ + c.1
    }
}

/// Shows a note as `note: …` or `help: …`.
pub fn context_to_string(ctx: &ErrorContext) -> (r: String)
    ensures
        r@ == context_text(context_view(ctx)),
{
    match ctx {
        ErrorContext::Note(s) => {
            let mut r = string_of("note: ");
            r.append(s.as_str());
            r
        },
        ErrorContext::Help(s) => {
            let mut r = string_of("help: ");
            r.append(s.as_str());
            r
        },
    }
}

/// The text of a diagnostic: the message, then, if there are notes, a
/// blank line and one line per note.
pub open spec fn diagnostic_text(message: Seq<char>, notes: Seq<(bool, Seq<char>)>) -> Seq<char> {
    if notes.len() == 0 {
        message
    } else {
        message + "\n\n"@ + join_with(Seq::new(notes.len(), |i: int| context_text(notes[i])), '\n')
    }
}

/// Builds the text of a diagnostic from an error's message and notes.
pub fn build_diagnostic_message(message: &str, context: &[ErrorContext]) -> (r: String)
    ensures
        r@ == diagnostic_text(message@, context_views(context@)),
{
    let mut r = string_of(message);
    if context.len() == 0 {
        return r;
    }
    let mut lines: Vec<String> = Vec::new();
    let mut i: usize = 0;
    while i < context.len()
        invariant
            i <= context@.len(),
            lines@.len() == i,
            forall|j: int| 0 <= j < i ==> #[trigger] lines@[j]@ == context_text(context_view(&context@[j])),
        decreases context@.len() - i,
    {
        lines.push(context_to_string(&context[i]));
        i = i + 1;
    }
    r.append("\n\n");
    let newline = "\n";
    proof {
        reveal_strlit("\n");
    }
    let joined = crate::cli_args::join(lines.as_slice(), newline);
    r.append(joined.as_str());
    proof {
        assert(lines@.map_values(|p: String| p@) =~= Seq::new(
            context_views(context@).len(),
            |k: int| context_text(context_views(context@)[k]),
        ));
    }
    r
}

/// The range of an error at a 1-based `line` and `column` covering
/// `length` characters on that line, in 0-based positions.
pub open spec fn location_range(line: usize, column: usize, length: usize) -> Range {
    let l = (if line >= 1 { (line - 1) as usize } else { 0usize }) as u32;
    let c = (if column >= 1 { (column - 1) as usize } else { 0usize }) as u32;
    let e = if c + (length as u32) <= u32::MAX { (c + (length as u32)) as u32 } else { u32::MAX };
    Range { start: Position { line: l, character: c }, end: Position { line: l, character: e } }
}

/// The 0-based range of an error located at a 1-based `line` and `column`
/// and covering `length` characters (on the one line).
pub fn error_location_to_range(line: usize, column: usize, length: usize) -> (r: Range)
    ensures
        r == location_range(line, column, length),
{
    let l = line.saturating_sub(1) as u32;
    let c = column.saturating_sub(1) as u32;
    let n = length as u32;
    let e = c.saturating_add(n);
    Range { start: Position { line: l, character: c }, end: Position { line: l, character: e } }
}

} // verus!
