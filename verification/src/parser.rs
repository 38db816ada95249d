//! Parser for declarations in an Oneil program.
//!
//! Each parser reads the source bytes from a position and either returns the
//! position after what it consumed together with the node it built, or an
//! error. An error is recoverable (`failure == false`) when the parser did
//! not recognize its construct at all, and a failure when it recognized the
//! construct but the rest of it is malformed.
use vstd::prelude::*;
use vstd::string::{StrSliceExecFns, StringSliceAdditionalSpecFns};

use crate::ast::{
    Decl, DeclNode, DesignParameter, DesignTarget, Directory, DirectoryNode, Identifier, IdentifierNode, Import,
    ModelInfo, ModelInfoNode, ModelKind, Node, ParameterValue, SpecDecl, SpecDesignParameter, SpecDesignTarget,
    SpecDirectory,
    SpecModelInfo, SpecNode, SpecUseDesign, SpecUseModel, SubmodelList, SubmodelListNode,
    UseDesign, UseModel,
};
use crate::lexer::{
    Keyword, Token, ascii_text, chars_of, dot, dot_dot, end_of_line, identifier, keyword,
    lemma_ident_end_bounds, spec_dot, spec_dot_dot, spec_eol, spec_ident, spec_keyword,
    spec_symbol, symbol, token_ok, is_ws, string_from_utf8_lossy, utf8_lossy_text,
};
use crate::paths::{ModelPath, is_design_path};
use crate::span::{Span, span_of};

verus! {

// ------------------------------------------------------------------------
// Configuration and input
// ------------------------------------------------------------------------

/// Options that affect parsing of whole-model input.
#[derive(Debug)]
pub struct Config {
    /// When `true`, a top-level `design <model>` line is required (`.one`
    /// design bundles); ordinary model files keep this `false`.
    pub require_design_header: bool,
    /// Enables design-body shorthand lines; set by the parser after a
    /// `design <model>` header.
    pub allow_design_shorthand: bool,
    /// Path of the source file being parsed; empty for in-memory input.
    pub path: String,
    /// Full source text of the file being parsed.
    pub source: String,
}

impl Config {
    /// A configuration with model-file semantics and no path or source.
    pub fn new() -> (r: Self)
        ensures
            !r.require_design_header,
            !r.allow_design_shorthand,
            r.path@ == Seq::<char>::empty(),
            r.source@ == Seq::<char>::empty(),
    {
        Config {
            require_design_header: false,
            allow_design_shorthand: false,
            path: String::new(),
            source: String::new(),
        }
    }

    /// A configuration with the given source file path and full source text.
    pub fn with_source(path: String, source: String) -> (r: Self)
        ensures
            !r.require_design_header,
            !r.allow_design_shorthand,
            r.path@ == path@,
            r.source@ == source@,
    {
        Config { require_design_header: false, allow_design_shorthand: false, path, source }
    }

    /// The configuration for parsing the file at `model_path`: a design file
    /// (`.one`) must start with its `design <model>` line.
    pub fn for_model_path(model_path: &ModelPath, path: String, source: String) -> (r: Self)
        ensures
            r.require_design_header == is_design_path(model_path.deep_view()),
            !r.allow_design_shorthand,
            r.path@ == path@,
            r.source@ == source@,
    {
        Config { require_design_header: model_path.is_design_file(), allow_design_shorthand: false, path, source }
    }
}

impl Default for Config {
    fn default() -> (r: Self)
        ensures
            !r.require_design_header,
            !r.allow_design_shorthand,
            r.path@ == Seq::<char>::empty(),
            r.source@ == Seq::<char>::empty(),
    {
        Config::new()
    }
}

/// Source bytes to be parsed, a start offset and the parser configuration.
#[derive(Debug)]
pub struct InputSpan {
    pub bytes: Vec<u8>,
    pub offset: usize,
    pub extra: Config,
}

impl InputSpan {
    /// The input that starts at the beginning of `text`.
    pub fn new_extra(text: &str, extra: Config) -> (r: Self)
        ensures
            r.bytes@ == text.spec_bytes(),
            r.offset == 0,
            r.extra == extra,
    {
        InputSpan { bytes: text.as_bytes_vec(), offset: 0, extra }
    }

    /// The bytes from `pos` to the end of the input.
    pub fn fragment_from(&self, pos: usize) -> (r: &[u8])
        requires
            pos <= self.bytes@.len(),
        ensures
            r@ == self.bytes@.subrange(pos as int, self.bytes@.len() as int),
    {
        vstd::slice::slice_subrange(self.bytes.as_slice(), pos, self.bytes.len())
    }
}

// ------------------------------------------------------------------------
// Errors
// ------------------------------------------------------------------------

/// What was expected where a parser did not recognize its construct.
#[derive(Debug, Clone, Copy, PartialEq, Eq, Structural)]
pub enum ExpectKind {
    /// A declaration.
    Decl,
    /// An identifier.
    Identifier,
    /// The given keyword.
    Keyword(Keyword),
    /// The given one-byte symbol.
    Symbol(u8),
}

/// Which construct was left incomplete.
#[derive(Debug, Clone, Copy, PartialEq, Eq, Structural)]
pub enum IncompleteKind {
    ImportMissingPath,
    ImportMissingEndOfLine,
    DesignMissingTarget,
    UseDesignMissingFile,
    UseMissingModelInfo,
    UseMissingEndOfLine,
    AsMissingAlias,
    ModelMissingSubcomponent,
    UnclosedBracket,
    ParameterMissingValue,
}

/// The reason for a parser error.
#[derive(Debug, Clone, Copy, PartialEq, Eq, Structural)]
pub enum ParserErrorReason {
    /// Something else was expected.
    Expect(ExpectKind),
    /// A construct was started but not completed; `cause` is the span of the
    /// token that started it.
    Incomplete { kind: IncompleteKind, cause: Span },
    /// Input remained after a complete declaration.
    UnexpectedToken,
    /// A second `design` header in a design file.
    DesignHeaderDuplicate { span: Span },
    /// A `design` header in a model file.
    DesignHeaderWrongFile { span: Span },
}

/// A parser error.
#[derive(Debug, Clone, Copy, PartialEq, Eq, Structural)]
pub struct ParserError {
    /// Whether the construct was recognized and then found malformed.
    pub failure: bool,
    /// Where the error was detected.
    pub error_offset: usize,
    /// Why parsing failed.
    pub reason: ParserErrorReason,
}

/// A recoverable error: `k` was expected at `i`.
pub open spec fn expected(i: int, k: ExpectKind) -> ParserError {
    ParserError { failure: false, error_offset: i as usize, reason: ParserErrorReason::Expect(k) }
}

/// A failure: the construct started by `cause` is incomplete at `i`.
pub open spec fn incomplete(i: int, kind: IncompleteKind, cause: Span) -> ParserError {
    ParserError {
        failure: true,
        error_offset: i as usize,
        reason: ParserErrorReason::Incomplete { kind, cause },
    }
}

fn mk_expected(i: usize, k: ExpectKind) -> (r: ParserError)
    ensures
        r == expected(i as int, k),
{
    ParserError { failure: false, error_offset: i, reason: ParserErrorReason::Expect(k) }
}

fn mk_incomplete(i: usize, kind: IncompleteKind, cause: Span) -> (r: ParserError)
    ensures
        r == incomplete(i as int, kind, cause),
{
    ParserError {
        failure: true,
        error_offset: i,
        reason: ParserErrorReason::Incomplete { kind, cause },
    }
}

/// The exec result `r` is the spec result `sp`.
pub open spec fn agrees<T: DeepView>(
    r: Result<(usize, T), ParserError>,
    sp: Result<(int, T::V), ParserError>,
) -> bool {
    match (r, sp) {
        (Ok((k, v)), Ok((k2, v2))) => k == k2 && v.deep_view() == v2,
        (Err(e), Err(e2)) => e == e2,
        _ => false,
    }
}

// ------------------------------------------------------------------------
// Grammar
// ------------------------------------------------------------------------

/// The node of an identifier token.
pub open spec fn ident_node(s: Seq<u8>, t: Token) -> SpecNode<Seq<char>> {
    SpecNode {
        value: chars_of(s.subrange(t.start as int, t.end as int)),
        span: t.lexeme(),
        whitespace_span: t.whitespace(),
    }
}

/// The position after an optional end of line at `i`.
pub open spec fn opt_eol_next(s: Seq<u8>, i: int) -> int {
    match spec_eol(s, i) {
        Some(t) => t.next as int,
        None => i,
    }
}

/// A directory name at `i`: a name, `.` or `..`.
pub open spec fn spec_dir_name(s: Seq<u8>, i: int) -> Option<(Token, SpecDirectory)> {
    match spec_ident(s, i) {
        Some(t) => Some((t, SpecDirectory::Name(chars_of(s.subrange(t.start as int, t.end as int))))),
        None => match spec_dot(s, i) {
            Some(t) => Some((t, SpecDirectory::Current)),
            None => match spec_dot_dot(s, i) {
                Some(t) => Some((t, SpecDirectory::Parent)),
                None => None,
            },
        },
    }
}

/// The directory path at `i`: the longest run of directory names each
/// followed by `/`.
pub open spec fn spec_dir_path(s: Seq<u8>, i: int) -> (int, Seq<SpecNode<SpecDirectory>>)
    decreases s.len() - i,
{
    match spec_dir_name(s, i) {
        Some((t, d)) => match spec_symbol(s, t.next as int, 47) {
            Some(sl) => if i < sl.next <= s.len() {
                let (k, ds) = spec_dir_path(s, sl.next as int);
                (
                    k,
                    seq![SpecNode { value: d, span: t.lexeme(), whitespace_span: t.whitespace() }]
                        + ds,
                )
            } else {
                (i, seq![])
            },
            None => (i, seq![]),
        },
        None => (i, seq![]),
    }
}

/// The subcomponents at `i`: the longest run of `.name`; a dot that is not
/// followed by a name is a failure.
pub open spec fn spec_subcomponents(s: Seq<u8>, i: int) -> Result<
    (int, Seq<SpecNode<Seq<char>>>),
    ParserError,
>
    decreases s.len() - i,
{
    match spec_dot(s, i) {
        None => Ok((i, seq![])),
        Some(d) => match spec_ident(s, d.next as int) {
            None => Err(incomplete(d.next as int, IncompleteKind::ModelMissingSubcomponent, d.lexeme())),
            Some(t) => if i < t.next <= s.len() {
                match spec_subcomponents(s, t.next as int) {
                    Ok((k, r)) => Ok((k, seq![ident_node(s, t)] + r)),
                    Err(e) => Err(e),
                }
            } else {
                Ok((i, seq![]))
            },
        },
    }
}

/// `as <alias>` at `i`.
pub open spec fn spec_as_alias(s: Seq<u8>, i: int) -> Result<(int, SpecNode<Seq<char>>), ParserError> {
    match spec_keyword(s, i, Keyword::As) {
        None => Err(expected(i, ExpectKind::Keyword(Keyword::As))),
        Some(a) => match spec_ident(s, a.next as int) {
            None => Err(incomplete(a.next as int, IncompleteKind::AsMissingAlias, a.lexeme())),
            Some(t) => Ok((t.next as int, ident_node(s, t))),
        },
    }
}

/// An optional `as <alias>` at `i`.
pub open spec fn spec_opt_alias(s: Seq<u8>, i: int) -> Result<
    (int, Option<SpecNode<Seq<char>>>),
    ParserError,
> {
    match spec_as_alias(s, i) {
        Ok((k, a)) => Ok((k, Some(a))),
        Err(e) => if e.failure {
            Err(e)
        } else {
            Ok((i, None))
        },
    }
}

/// A model info without subcomponents at `i` (the model of `use`/`ref`).
pub open spec fn spec_model_info_simple(s: Seq<u8>, i: int) -> Result<
    (int, SpecNode<SpecModelInfo>),
    ParserError,
> {
    match spec_ident(s, i) {
        None => Err(expected(i, ExpectKind::Identifier)),
        Some(t) => {
            let top = ident_node(s, t);
            match spec_opt_alias(s, t.next as int) {
                Err(e) => Err(e),
                Ok((k, alias)) => {
                    let last = match alias {
                        Some(a) => a,
                        None => top,
                    };
                    Ok(
                        (
                            k,
                            SpecNode {
                                value: SpecModelInfo { top_component: top, subcomponents: seq![], alias },
                                span: span_of(top.span.start as int, last.span.end as int),
                                whitespace_span: last.whitespace_span,
                            },
                        ),
                    )
                },
            }
        },
    }
}

/// A model info with optional subcomponents at `i` (a submodel in `with`).
pub open spec fn spec_model_info(s: Seq<u8>, i: int) -> Result<(int, SpecNode<SpecModelInfo>), ParserError> {
    match spec_ident(s, i) {
        None => Err(expected(i, ExpectKind::Identifier)),
        Some(t) => {
            let top = ident_node(s, t);
            match spec_subcomponents(s, t.next as int) {
                Err(e) => Err(e),
                Ok((j, subs)) => match spec_opt_alias(s, j) {
                    Err(e) => Err(e),
                    Ok((k, alias)) => {
                        let last = match alias {
                            Some(a) => a,
                            None => if subs.len() > 0 {
                                subs.last()
                            } else {
                                top
                            },
                        };
                        Ok(
                            (
                                k,
                                SpecNode {
                                    value: SpecModelInfo { top_component: top, subcomponents: subs, alias },
                                    span: span_of(top.span.start as int, last.span.end as int),
                                    whitespace_span: last.whitespace_span,
                                },
                            ),
                        )
                    },
                },
            }
        },
    }
}

/// Further submodels of a bracketed list at `i`: the longest run of
/// `, [end of line] <model info>`.
pub open spec fn spec_more_items(s: Seq<u8>, i: int) -> Result<
    (int, Seq<SpecNode<SpecModelInfo>>),
    ParserError,
>
    decreases s.len() - i,
{
    match spec_symbol(s, i, 44) {
        None => Ok((i, seq![])),
        Some(c) => match spec_model_info(s, opt_eol_next(s, c.next as int)) {
            Err(e) => if e.failure {
                Err(e)
            } else {
                Ok((i, seq![]))
            },
            Ok((j, mi)) => if i < j <= s.len() {
                match spec_more_items(s, j) {
                    Ok((k, r)) => Ok((k, seq![mi] + r)),
                    Err(e) => Err(e),
                }
            } else {
                Ok((i, seq![]))
            },
        },
    }
}

/// The body of a bracketed submodel list at `i`: optionally a submodel,
/// further submodels, a trailing comma and an end of line.
pub open spec fn spec_list_body(s: Seq<u8>, i: int) -> Result<
    (int, Seq<SpecNode<SpecModelInfo>>),
    ParserError,
> {
    match spec_model_info(s, i) {
        Err(e) => if e.failure {
            Err(e)
        } else {
            Ok((i, seq![]))
        },
        Ok((j, first)) => match spec_more_items(s, j) {
            Err(e) => Err(e),
            Ok((k, rest)) => {
                let k2 = match spec_symbol(s, k, 44) {
                    Some(c) => c.next as int,
                    None => k,
                };
                Ok((opt_eol_next(s, k2), seq![first] + rest))
            },
        },
    }
}

/// A bracketed submodel list `[a, b, ...]` at `i`.
pub open spec fn spec_bracket_list(s: Seq<u8>, i: int) -> Result<
    (int, SpecNode<Seq<SpecNode<SpecModelInfo>>>),
    ParserError,
> {
    match spec_symbol(s, i, 91) {
        None => Err(expected(i, ExpectKind::Symbol(91))),
        Some(lb) => match spec_list_body(s, opt_eol_next(s, lb.next as int)) {
            Err(e) => Err(e),
            Ok((p, items)) => match spec_symbol(s, p, 93) {
                None => Err(incomplete(p, IncompleteKind::UnclosedBracket, lb.lexeme())),
                Some(rb) => Ok(
                    (
                        rb.next as int,
                        SpecNode {
                            value: items,
                            span: span_of(lb.start as int, rb.end as int),
                            whitespace_span: rb.whitespace(),
                        },
                    ),
                ),
            },
        },
    }
}

/// The submodel list of a `with` clause at `i`: a single submodel, or a
/// bracketed list.
pub open spec fn spec_submodel_list(s: Seq<u8>, i: int) -> Result<
    (int, SpecNode<Seq<SpecNode<SpecModelInfo>>>),
    ParserError,
> {
    match spec_model_info(s, i) {
        Ok((k, mi)) => Ok(
            (k, SpecNode { value: seq![mi], span: mi.span, whitespace_span: mi.whitespace_span }),
        ),
        Err(e) => if e.failure {
            Err(e)
        } else {
            spec_bracket_list(s, i)
        },
    }
}

/// The declaration node of a declaration whose node spans `span`.
pub open spec fn decl_node(d: SpecDecl, span: Span, ws: Span) -> SpecNode<SpecDecl> {
    SpecNode { value: d, span, whitespace_span: ws }
}

/// `import <name>` followed by an end of line, at `i`.
pub open spec fn spec_import_decl(s: Seq<u8>, i: int) -> Result<(int, SpecNode<SpecDecl>), ParserError> {
    match spec_keyword(s, i, Keyword::Import) {
        None => Err(expected(i, ExpectKind::Keyword(Keyword::Import))),
        Some(kt) => match spec_ident(s, kt.next as int) {
            None => Err(incomplete(kt.next as int, IncompleteKind::ImportMissingPath, kt.lexeme())),
            Some(pt) => match spec_eol(s, pt.next as int) {
                None => Err(incomplete(pt.next as int, IncompleteKind::ImportMissingEndOfLine, pt.lexeme())),
                Some(e) => {
                    let span = span_of(kt.start as int, e.end as int);
                    let ws = e.whitespace();
                    Ok(
                        (
                            e.next as int,
                            decl_node(
                                SpecDecl::Import(SpecNode { value: ident_node(s, pt), span, whitespace_span: ws }),
                                span,
                                ws,
                            ),
                        ),
                    )
                },
            },
        },
    }
}

/// `design [path/]<name>` followed by an end of line, at `i`.
pub open spec fn spec_design_target_line(s: Seq<u8>, i: int) -> Result<
    (int, SpecNode<SpecDecl>),
    ParserError,
> {
    match spec_keyword(s, i, Keyword::Design) {
        None => Err(expected(i, ExpectKind::Keyword(Keyword::Design))),
        Some(dt) => {
            let (j, dirs) = spec_dir_path(s, dt.next as int);
            match spec_ident(s, j) {
                None => Err(incomplete(j, IncompleteKind::DesignMissingTarget, dt.lexeme())),
                Some(tt) => match spec_eol(s, tt.next as int) {
                    None => Err(incomplete(tt.next as int, IncompleteKind::ImportMissingEndOfLine, tt.lexeme())),
                    Some(e) => {
                        let span = span_of(dt.start as int, e.end as int);
                        let ws = e.whitespace();
                        Ok(
                            (
                                e.next as int,
                                decl_node(
                                    SpecDecl::DesignTarget(
                                        SpecNode {
                                            value: SpecDesignTarget { directory_path: dirs, target: ident_node(s, tt) },
                                            span,
                                            whitespace_span: ws,
                                        },
                                    ),
                                    span,
                                    ws,
                                ),
                            ),
                        )
                    },
                },
            }
        },
    }
}

/// An optional `for <alias>` at `i`.
pub open spec fn spec_opt_for(s: Seq<u8>, i: int) -> (int, Option<SpecNode<Seq<char>>>) {
    match spec_keyword(s, i, Keyword::For) {
        None => (i, None),
        Some(f) => match spec_ident(s, f.next as int) {
            None => (i, None),
            Some(t) => (t.next as int, Some(ident_node(s, t))),
        },
    }
}

/// `use design [path/]<file> [for <alias>]` followed by an end of line, at `i`.
pub open spec fn spec_use_design_decl(s: Seq<u8>, i: int) -> Result<
    (int, SpecNode<SpecDecl>),
    ParserError,
> {
    match spec_keyword(s, i, Keyword::Use) {
        None => Err(expected(i, ExpectKind::Keyword(Keyword::Use))),
        Some(ut) => match spec_keyword(s, ut.next as int, Keyword::Design) {
            None => Err(expected(ut.next as int, ExpectKind::Keyword(Keyword::Design))),
            Some(dt) => {
                let (j, dirs) = spec_dir_path(s, dt.next as int);
                match spec_ident(s, j) {
                    None => Err(incomplete(j, IncompleteKind::UseDesignMissingFile, dt.lexeme())),
                    Some(ft) => {
                        let file = ident_node(s, ft);
                        let (k, instance) = spec_opt_for(s, ft.next as int);
                        let final_span = match instance {
                            Some(n) => n.span,
                            None => file.span,
                        };
                        match spec_eol(s, k) {
                            None => Err(incomplete(k, IncompleteKind::UseMissingEndOfLine, final_span)),
                            Some(e) => {
                                let span = span_of(ut.start as int, e.end as int);
                                let ws = e.whitespace();
                                Ok(
                                    (
                                        e.next as int,
                                        decl_node(
                                            SpecDecl::UseDesign(
                                                SpecNode {
                                                    value: SpecUseDesign { directory_path: dirs, design_file: file, instance },
                                                    span,
                                                    whitespace_span: ws,
                                                },
                                            ),
                                            span,
                                            ws,
                                        ),
                                    ),
                                )
                            },
                        }
                    },
                }
            },
        },
    }
}


/// The end of the value of a design parameter line that starts at `j`: the
/// first `#`, line break or the end of the text.
pub open spec fn value_end(s: Seq<u8>, j: int) -> int
    decreases s.len() - j,
{
    if 0 <= j < s.len() && s[j] != 10 && s[j] != 35 {
        value_end(s, j + 1)
    } else {
        j
    }
}

/// The end of `s[a..e]` without its trailing spaces and tabs.
pub open spec fn trim_back(s: Seq<u8>, a: int, e: int) -> int
    decreases e - a,
{
    if a < e && is_ws(s[e - 1]) {
        trim_back(s, a, e - 1)
    } else {
        e
    }
}

/// An optional `.instance` after the name of a design parameter line.
pub open spec fn spec_opt_instance(s: Seq<u8>, i: int) -> (int, Option<SpecNode<Seq<char>>>) {
    match spec_dot(s, i) {
        None => (i, None),
        Some(d) => match spec_ident(s, d.next as int) {
            None => (i, None),
            Some(t) => (t.next as int, Some(ident_node(s, t))),
        },
    }
}

/// A design parameter line `name[.instance] = value` at `i`; the value is
/// the text up to the end of the line (or a comment), without trailing
/// spaces.
pub open spec fn spec_design_parameter_decl(s: Seq<u8>, i: int) -> Result<(int, SpecNode<SpecDecl>), ParserError> {
    match spec_ident(s, i) {
        None => Err(expected(i, ExpectKind::Identifier)),
        Some(it) => {
            let (j, instance) = spec_opt_instance(s, it.next as int);
            match spec_symbol(s, j, 61) {
                None => Err(expected(j, ExpectKind::Symbol(61))),
                Some(eq) => {
                    let a = eq.next as int;
                    let e = value_end(s, a);
                    let b = trim_back(s, a, e);
                    if b == a {
                        Err(incomplete(a, IncompleteKind::ParameterMissingValue, eq.lexeme()))
                    } else {
                        match spec_eol(s, e) {
                            None => Err(expected(e, ExpectKind::Decl)),
                            Some(el) => {
                                let span = span_of(it.start as int, el.end as int);
                                let ws = el.whitespace();
                                let value = SpecNode {
                                    value: utf8_lossy_text(s.subrange(a, b)),
                                    span: span_of(a, b),
                                    whitespace_span: span_of(b, e),
                                };
                                let d = SpecDesignParameter { ident: ident_node(s, it), instance, value, note: None };
                                Ok(
                                    (
                                        el.next as int,
                                        decl_node(
                                            SpecDecl::DesignParameter(SpecNode { value: d, span, whitespace_span: ws }),
                                            span,
                                            ws,
                                        ),
                                    ),
                                )
                            },
                        }
                    }
                },
            }
        },
    }
}

/// The keyword of a model usage at `i`: `ref` or `use`.
pub open spec fn spec_use_keyword(s: Seq<u8>, i: int) -> Option<(ModelKind, Token)> {
    match spec_keyword(s, i, Keyword::Ref) {
        Some(t) => Some((ModelKind::Reference, t)),
        None => match spec_keyword(s, i, Keyword::Use) {
            Some(t) => Some((ModelKind::Submodel, t)),
            None => None,
        },
    }
}

/// An optional `with <submodel list>` at `i`.
pub open spec fn spec_opt_with(s: Seq<u8>, i: int) -> Result<
    (int, Option<SpecNode<Seq<SpecNode<SpecModelInfo>>>>),
    ParserError,
> {
    match spec_keyword(s, i, Keyword::With) {
        None => Ok((i, None)),
        Some(w) => match spec_submodel_list(s, w.next as int) {
            Ok((m, l)) => Ok((m, Some(l))),
            Err(e) => if e.failure {
                Err(e)
            } else {
                Ok((i, None))
            },
        },
    }
}

/// `use|ref [path/]<model> [as <alias>] [with <submodels>]` followed by an
/// end of line, at `i`.
pub open spec fn spec_use_decl(s: Seq<u8>, i: int) -> Result<(int, SpecNode<SpecDecl>), ParserError> {
    match spec_use_keyword(s, i) {
        None => Err(expected(i, ExpectKind::Keyword(Keyword::Use))),
        Some((kind, kt)) => {
            let (j, dirs) = spec_dir_path(s, kt.next as int);
            match spec_model_info_simple(s, j) {
                Err(e) => if e.failure {
                    Err(e)
                } else {
                    Err(incomplete(j, IncompleteKind::UseMissingModelInfo, kt.lexeme()))
                },
                Ok((k, mi)) => match spec_opt_with(s, k) {
                    Err(e) => Err(e),
                    Ok((m, list)) => {
                        let final_span = match list {
                            Some(l) => l.span,
                            None => mi.span,
                        };
                        match spec_eol(s, m) {
                            None => Err(incomplete(m, IncompleteKind::UseMissingEndOfLine, final_span)),
                            Some(e) => {
                                let ws = e.whitespace();
                                Ok(
                                    (
                                        e.next as int,
                                        decl_node(
                                            SpecDecl::UseModel(
                                                SpecNode {
                                                    value: SpecUseModel {
                                                        directory_path: dirs,
                                                        model: mi,
                                                        submodel_list: list,
                                                        model_kind: kind,
                                                    },
                                                    span: final_span,
                                                    whitespace_span: ws,
                                                },
                                            ),
                                            final_span,
                                            ws,
                                        ),
                                    ),
                                )
                            },
                        }
                    },
                },
            }
        },
    }
}

/// The error for a `design` header met by the declaration parser.
pub open spec fn design_header_error(require_design_header: bool, span: Span) -> ParserError {
    ParserError {
        failure: false,
        error_offset: span.start,
        reason: if require_design_header {
            ParserErrorReason::DesignHeaderDuplicate { span }
        } else {
            ParserErrorReason::DesignHeaderWrongFile { span }
        },
    }
}

/// A declaration at `i`. The alternatives are tried in order: `import`,
/// `use design`, a `design` header (which is an error here), `use`/`ref`.
/// An `import` or `use`/`ref` declaration whose keyword matched but whose
/// rest is malformed is reported as is. Otherwise a declaration was
/// expected.
pub open spec fn spec_decl(s: Seq<u8>, i: int, require_design_header: bool, allow_design_shorthand: bool) -> Result<
    (int, SpecNode<SpecDecl>),
    ParserError,
> {
    match spec_import_decl(s, i) {
        Ok(v) => Ok(v),
        Err(e) if e.error_offset > i => Err(e),
        Err(_) => match spec_use_design_decl(s, i) {
            Ok(v) => Ok(v),
            Err(_) => match spec_design_target_line(s, i) {
                Ok((_, node)) => Err(design_header_error(require_design_header, node.span)),
                Err(_) => match spec_use_decl(s, i) {
                    Ok(v) => Ok(v),
                    Err(e) if e.error_offset > i => Err(e),
                    Err(_) => if allow_design_shorthand {
                        match spec_design_parameter_decl(s, i) {
                            Ok(v) => Ok(v),
                            Err(_) => Err(expected(i, ExpectKind::Decl)),
                        }
                    } else {
                        Err(expected(i, ExpectKind::Decl))
                    },
                },
            },
        },
    }
}

/// A declaration at `i` that must consume the whole input.
pub open spec fn spec_decl_complete(s: Seq<u8>, i: int, require_design_header: bool) -> Result<
    (int, SpecNode<SpecDecl>),
    ParserError,
> {
    match spec_decl(s, i, require_design_header, false) {
        Ok((k, d)) => if k == s.len() {
            Ok((k, d))
        } else {
            Err(ParserError { failure: false, error_offset: k as usize, reason: ParserErrorReason::UnexpectedToken })
        },
        Err(e) => Err(e),
    }
}

// ------------------------------------------------------------------------
// Parsers
// ------------------------------------------------------------------------

/// Builds the node of an identifier token.
fn make_ident_node(s: &[u8], t: Token) -> (r: IdentifierNode)
    requires
        spec_ident(s@, t.start as int) == Some(t),
    ensures
        r.deep_view() == ident_node(s@, t),
{
    let _n = s.len();
    proof {
        lemma_ident_end_bounds(s@, t.start as int);
    }
    Node::new(Identifier::new(ascii_text(s, t.start, t.end)), t.lexeme_span(), t.whitespace_span())
}

/// Builds the string node of an identifier token.
fn make_string_node(s: &[u8], t: Token) -> (r: Node<String>)
    requires
        spec_ident(s@, t.start as int) == Some(t),
    ensures
        r.deep_view() == ident_node(s@, t),
{
    let _n = s.len();
    proof {
        lemma_ident_end_bounds(s@, t.start as int);
    }
    Node::new(ascii_text(s, t.start, t.end), t.lexeme_span(), t.whitespace_span())
}

/// Parses a directory name.
pub fn directory_name(s: &[u8], i: usize) -> (r: Option<(Token, Directory)>)
    requires
        i <= s@.len(),
    ensures
        match (r, spec_dir_name(s@, i as int)) {
            (Some((t, d)), Some((t2, d2))) => t == t2 && d.deep_view() == d2 && token_ok(s@, i as int, t)
                && t.end > t.start,
            (None, None) => true,
            _ => false,
        },
{
    if let Some(t) = identifier(s, i) {
        proof {
            lemma_ident_end_bounds(s@, i as int);
        }
        let name = ascii_text(s, t.start, t.end);
        return Some((t, Directory::Name(name)));
    }
    if let Some(t) = dot(s, i) {
        return Some((t, Directory::current()));
    }
    if let Some(t) = dot_dot(s, i) {
        return Some((t, Directory::parent()));
    }
    None
}

/// Parses a directory path: the longest run of directory names each
/// followed by `/`.
pub fn opt_directory_path(s: &[u8], i: usize) -> (r: (usize, Vec<DirectoryNode>))
    requires
        i <= s@.len(),
    ensures
        r.0 == spec_dir_path(s@, i as int).0,
        r.1.deep_view() == spec_dir_path(s@, i as int).1,
        i <= r.0 <= s@.len(),
    decreases s@.len() - i,
{
    match directory_name(s, i) {
        None => (i, Vec::new()),
        Some((t, d)) => match symbol(s, t.next, 47) {
            None => (i, Vec::new()),
            Some(sl) => {
                let (k, mut ds) = opt_directory_path(s, sl.next);
                let ghost old_ds = ds.deep_view();
                let node = Node::new(d, t.lexeme_span(), t.whitespace_span());
                ds.insert(0, node);
                proof {
                    assert(ds.deep_view() =~= seq![node.deep_view()] + old_ds);
                }
                (k, ds)
            },
        },
    }
}

/// Parses subcomponents: the longest run of `.name`.
fn opt_subcomponents(s: &[u8], i: usize) -> (r: Result<(usize, Vec<IdentifierNode>), ParserError>)
    requires
        i <= s@.len(),
    ensures
        agrees(r, spec_subcomponents(s@, i as int)),
        r matches Ok((k, _)) ==> i <= k <= s@.len(),
    decreases s@.len() - i,
{
    match dot(s, i) {
        None => {
            let v: Vec<IdentifierNode> = Vec::new();
            assert(v.deep_view() =~= Seq::<SpecNode<Seq<char>>>::empty());
            Ok((i, v))
        },
        Some(d) => match identifier(s, d.next) {
            None => Err(mk_incomplete(d.next, IncompleteKind::ModelMissingSubcomponent, d.lexeme_span())),
            Some(t) => {
                let node = make_ident_node(s, t);
                match opt_subcomponents(s, t.next) {
                    Ok((k, mut rest)) => {
                        let ghost old_rest = rest.deep_view();
                        rest.insert(0, node);
                        proof {
                            assert(rest.deep_view() =~= seq![node.deep_view()] + old_rest);
                        }
                        Ok((k, rest))
                    },
                    Err(e) => Err(e),
                }
            },
        },
    }
}

/// Parses an optional `as <alias>`.
fn opt_as_alias(s: &[u8], i: usize) -> (r: Result<(usize, Option<IdentifierNode>), ParserError>)
    requires
        i <= s@.len(),
    ensures
        agrees(r, spec_opt_alias(s@, i as int)),
        r matches Ok((k, _)) ==> i <= k <= s@.len(),
{
    match as_alias(s, i) {
        Ok((k, a)) => Ok((k, Some(a))),
        Err(e) => if e.failure {
            Err(e)
        } else {
            Ok((i, None))
        },
    }
}

/// Parses `as <alias>`.
pub fn as_alias(s: &[u8], i: usize) -> (r: Result<(usize, IdentifierNode), ParserError>)
    requires
        i <= s@.len(),
    ensures
        agrees(r, spec_as_alias(s@, i as int)),
        r matches Ok((k, _)) ==> i <= k <= s@.len(),
{
    match keyword(s, i, Keyword::As) {
        None => Err(mk_expected(i, ExpectKind::Keyword(Keyword::As))),
        Some(a) => match identifier(s, a.next) {
            None => Err(mk_incomplete(a.next, IncompleteKind::AsMissingAlias, a.lexeme_span())),
            Some(t) => Ok((t.next, make_ident_node(s, t))),
        },
    }
}

/// Parses a model info without subcomponents (the model of `use`/`ref`).
fn model_info_simple(s: &[u8], i: usize) -> (r: Result<(usize, ModelInfoNode), ParserError>)
    requires
        i <= s@.len(),
    ensures
        agrees(r, spec_model_info_simple(s@, i as int)),
        r matches Ok((k, _)) ==> i <= k <= s@.len(),
{
    match identifier(s, i) {
        None => Err(mk_expected(i, ExpectKind::Identifier)),
        Some(t) => {
            let top = make_ident_node(s, t);
            match opt_as_alias(s, t.next) {
                Err(e) => Err(e),
                Ok((k, alias)) => {
                    let (end, ws) = match &alias {
                        Some(a) => (a.span().end, a.whitespace_span()),
                        None => (top.span().end, top.whitespace_span()),
                    };
                    let span = Span::new(top.span().start, end);
                    let info = ModelInfo::new(top, Vec::new(), alias);
                    let node = Node::new(info, span, ws);
                    proof {
                        assert(node.deep_view().value.subcomponents =~= Seq::<SpecNode<Seq<char>>>::empty());
                    }
                    Ok((k, node))
                },
            }
        },
    }
}

/// Parses a model info with optional subcomponents (a submodel in `with`).
pub fn model_info(s: &[u8], i: usize) -> (r: Result<(usize, ModelInfoNode), ParserError>)
    requires
        i <= s@.len(),
    ensures
        agrees(r, spec_model_info(s@, i as int)),
        r matches Ok((k, _)) ==> i <= k <= s@.len(),
{
    match identifier(s, i) {
        None => Err(mk_expected(i, ExpectKind::Identifier)),
        Some(t) => {
            let top = make_ident_node(s, t);
            match opt_subcomponents(s, t.next) {
                Err(e) => Err(e),
                Ok((j, subs)) => match opt_as_alias(s, j) {
                    Err(e) => Err(e),
                    Ok((k, alias)) => {
                        let n = subs.len();
                        let (end, ws) = match &alias {
                            Some(a) => (a.span().end, a.whitespace_span()),
                            None => if n > 0 {
                                (subs[n - 1].span().end, subs[n - 1].whitespace_span())
                            } else {
                                (top.span().end, top.whitespace_span())
                            },
                        };
                        let span = Span::new(top.span().start, end);
                        let info = ModelInfo::new(top, subs, alias);
                        Ok((k, Node::new(info, span, ws)))
                    },
                },
            }
        },
    }
}

/// Position after an optional end of line.
fn opt_end_of_line(s: &[u8], i: usize) -> (r: usize)
    requires
        i <= s@.len(),
    ensures
        r == opt_eol_next(s@, i as int),
        i <= r <= s@.len(),
{
    match end_of_line(s, i) {
        Some(t) => t.next,
        None => i,
    }
}

/// Parses further submodels of a bracketed list.
fn more_items(s: &[u8], i: usize) -> (r: Result<(usize, Vec<ModelInfoNode>), ParserError>)
    requires
        i <= s@.len(),
    ensures
        agrees(r, spec_more_items(s@, i as int)),
        r matches Ok((k, _)) ==> i <= k <= s@.len(),
    decreases s@.len() - i,
{
    let empty = |i: usize| -> (r: Result<(usize, Vec<ModelInfoNode>), ParserError>)
        ensures
            r matches Ok((k, v)) && k == i && v.deep_view() == Seq::<SpecNode<SpecModelInfo>>::empty(),
        {
            let v: Vec<ModelInfoNode> = Vec::new();
            assert(v.deep_view() =~= Seq::<SpecNode<SpecModelInfo>>::empty());
            Ok((i, v))
        };
    match symbol(s, i, 44) {
        None => empty(i),
        Some(c) => {
            let p = opt_end_of_line(s, c.next);
            match model_info(s, p) {
                Err(e) => if e.failure {
                    Err(e)
                } else {
                    empty(i)
                },
                Ok((j, mi)) => match more_items(s, j) {
                    Ok((k, mut rest)) => {
                        let ghost old_rest = rest.deep_view();
                        let ghost mv = mi.deep_view();
                        rest.insert(0, mi);
                        proof {
                            assert(rest.deep_view() =~= seq![mv] + old_rest);
                        }
                        Ok((k, rest))
                    },
                    Err(e) => Err(e),
                },
            }
        },
    }
}

/// Parses the body of a bracketed submodel list.
fn list_body(s: &[u8], i: usize) -> (r: Result<(usize, Vec<ModelInfoNode>), ParserError>)
    requires
        i <= s@.len(),
    ensures
        agrees(r, spec_list_body(s@, i as int)),
        r matches Ok((k, _)) ==> i <= k <= s@.len(),
{
    match model_info(s, i) {
        Err(e) => if e.failure {
            Err(e)
        } else {
            let v: Vec<ModelInfoNode> = Vec::new();
            assert(v.deep_view() =~= Seq::<SpecNode<SpecModelInfo>>::empty());
            Ok((i, v))
        },
        Ok((j, first)) => match more_items(s, j) {
            Err(e) => Err(e),
            Ok((k, mut rest)) => {
                let k2 = match symbol(s, k, 44) {
                    Some(c) => c.next,
                    None => k,
                };
                let k3 = opt_end_of_line(s, k2);
                let ghost old_rest = rest.deep_view();
                let ghost fv = first.deep_view();
                rest.insert(0, first);
                proof {
                    assert(rest.deep_view() =~= seq![fv] + old_rest);
                }
                Ok((k3, rest))
            },
        },
    }
}

/// Parses a bracketed submodel list.
fn bracket_list(s: &[u8], i: usize) -> (r: Result<(usize, SubmodelListNode), ParserError>)
    requires
        i <= s@.len(),
    ensures
        agrees(r, spec_bracket_list(s@, i as int)),
        r matches Ok((k, _)) ==> i <= k <= s@.len(),
{
    match symbol(s, i, 91) {
        None => Err(mk_expected(i, ExpectKind::Symbol(91))),
        Some(lb) => {
            let p0 = opt_end_of_line(s, lb.next);
            match list_body(s, p0) {
                Err(e) => Err(e),
                Ok((p, items)) => match symbol(s, p, 93) {
                    None => Err(mk_incomplete(p, IncompleteKind::UnclosedBracket, lb.lexeme_span())),
                    Some(rb) => {
                        let node = Node::new(
                            SubmodelList::new(items),
                            Span::new(lb.start, rb.end),
                            rb.whitespace_span(),
                        );
                        Ok((rb.next, node))
                    },
                },
            }
        },
    }
}

/// Parses the submodel list of a `with` clause.
fn submodel_list(s: &[u8], i: usize) -> (r: Result<(usize, SubmodelListNode), ParserError>)
    requires
        i <= s@.len(),
    ensures
        agrees(r, spec_submodel_list(s@, i as int)),
        r matches Ok((k, _)) ==> i <= k <= s@.len(),
{
    match model_info(s, i) {
        Ok((k, mi)) => {
            let span = mi.span();
            let ws = mi.whitespace_span();
            let ghost mv = mi.deep_view();
            let mut v: Vec<ModelInfoNode> = Vec::new();
            v.push(mi);
            proof {
                assert(v.deep_view() =~= seq![mv]);
            }
            Ok((k, Node::new(SubmodelList::new(v), span, ws)))
        },
        Err(e) => if e.failure {
            Err(e)
        } else {
            bracket_list(s, i)
        },
    }
}

/// Parses `import <name>` followed by an end of line.
fn import_decl(s: &[u8], i: usize) -> (r: Result<(usize, DeclNode), ParserError>)
    requires
        i <= s@.len(),
    ensures
        agrees(r, spec_import_decl(s@, i as int)),
        r matches Ok((k, _)) ==> i <= k <= s@.len(),
{
    match keyword(s, i, Keyword::Import) {
        None => Err(mk_expected(i, ExpectKind::Keyword(Keyword::Import))),
        Some(kt) => match identifier(s, kt.next) {
            None => Err(mk_incomplete(kt.next, IncompleteKind::ImportMissingPath, kt.lexeme_span())),
            Some(pt) => match end_of_line(s, pt.next) {
                None => Err(mk_incomplete(pt.next, IncompleteKind::ImportMissingEndOfLine, pt.lexeme_span())),
                Some(e) => {
                    let span = Span::new(kt.start, e.end);
                    let ws = e.whitespace_span();
                    let path = make_string_node(s, pt);
                    let import = Node::new(Import::new(path), span, ws);
                    Ok((e.next, Node::new(Decl::Import(import), span, ws)))
                },
            },
        },
    }
}

/// Parses a `design [path/]<name>` line.
pub fn parse_design_target_line(s: &[u8], i: usize) -> (r: Result<(usize, DeclNode), ParserError>)
    requires
        i <= s@.len(),
    ensures
        agrees(r, spec_design_target_line(s@, i as int)),
        r matches Ok((k, _)) ==> i <= k <= s@.len(),
{
    match keyword(s, i, Keyword::Design) {
        None => Err(mk_expected(i, ExpectKind::Keyword(Keyword::Design))),
        Some(dt) => {
            let (j, dirs) = opt_directory_path(s, dt.next);
            match identifier(s, j) {
                None => Err(mk_incomplete(j, IncompleteKind::DesignMissingTarget, dt.lexeme_span())),
                Some(tt) => match end_of_line(s, tt.next) {
                    None => Err(mk_incomplete(tt.next, IncompleteKind::ImportMissingEndOfLine, tt.lexeme_span())),
                    Some(e) => {
                        let span = Span::new(dt.start, e.end);
                        let ws = e.whitespace_span();
                        let target = make_ident_node(s, tt);
                        let inner = if dirs.len() == 0 {
                            let d = DesignTarget::new(target);
                            proof {
                                assert(d.directory_path.deep_view() =~= dirs.deep_view());
                            }
                            Node::new(d, span, ws)
                        } else {
                            Node::new(DesignTarget::with_path(dirs, target), span, ws)
                        };
                        Ok((e.next, Node::new(Decl::DesignTarget(inner), span, ws)))
                    },
                },
            }
        },
    }
}

/// Parses an optional `for <alias>`.
fn opt_for(s: &[u8], i: usize) -> (r: (usize, Option<IdentifierNode>))
    requires
        i <= s@.len(),
    ensures
        r.0 == spec_opt_for(s@, i as int).0,
        r.1.deep_view() == spec_opt_for(s@, i as int).1,
        i <= r.0 <= s@.len(),
{
    match keyword(s, i, Keyword::For) {
        None => (i, None),
        Some(f) => match identifier(s, f.next) {
            None => (i, None),
            Some(t) => (t.next, Some(make_ident_node(s, t))),
        },
    }
}

/// Parses `use design [path/]<file> [for <alias>]`.
fn use_design_decl(s: &[u8], i: usize) -> (r: Result<(usize, DeclNode), ParserError>)
    requires
        i <= s@.len(),
    ensures
        agrees(r, spec_use_design_decl(s@, i as int)),
        r matches Ok((k, _)) ==> i <= k <= s@.len(),
{
    match keyword(s, i, Keyword::Use) {
        None => Err(mk_expected(i, ExpectKind::Keyword(Keyword::Use))),
        Some(ut) => match keyword(s, ut.next, Keyword::Design) {
            None => Err(mk_expected(ut.next, ExpectKind::Keyword(Keyword::Design))),
            Some(dt) => {
                let (j, dirs) = opt_directory_path(s, dt.next);
                match identifier(s, j) {
                    None => Err(mk_incomplete(j, IncompleteKind::UseDesignMissingFile, dt.lexeme_span())),
                    Some(ft) => {
                        let file = make_ident_node(s, ft);
                        let (k, instance) = opt_for(s, ft.next);
                        let final_span = match &instance {
                            Some(n) => n.span(),
                            None => file.span(),
                        };
                        match end_of_line(s, k) {
                            None => Err(mk_incomplete(k, IncompleteKind::UseMissingEndOfLine, final_span)),
                            Some(e) => {
                                let span = Span::new(ut.start, e.end);
                                let ws = e.whitespace_span();
                                let inner = if dirs.len() == 0 {
                                    let d = UseDesign::new(file, instance);
                                    proof {
                                        assert(d.directory_path.deep_view() =~= dirs.deep_view());
                                    }
                                    Node::new(d, span, ws)
                                } else {
                                    Node::new(UseDesign::with_path(dirs, file, instance), span, ws)
                                };
                                Ok((e.next, Node::new(Decl::UseDesign(inner), span, ws)))
                            },
                        }
                    },
                }
            },
        },
    }
}

/// Parses an optional `with <submodel list>`.
fn opt_with(s: &[u8], i: usize) -> (r: Result<(usize, Option<SubmodelListNode>), ParserError>)
    requires
        i <= s@.len(),
    ensures
        agrees(r, spec_opt_with(s@, i as int)),
        r matches Ok((k, _)) ==> i <= k <= s@.len(),
{
    match keyword(s, i, Keyword::With) {
        None => Ok((i, None)),
        Some(w) => match submodel_list(s, w.next) {
            Ok((m, l)) => Ok((m, Some(l))),
            Err(e) => if e.failure {
                Err(e)
            } else {
                Ok((i, None))
            },
        },
    }
}

/// Parses a `use`/`ref` declaration.
fn use_decl(s: &[u8], i: usize) -> (r: Result<(usize, DeclNode), ParserError>)
    requires
        i <= s@.len(),
    ensures
        agrees(r, spec_use_decl(s@, i as int)),
        r matches Ok((k, _)) ==> i <= k <= s@.len(),
{
    let kw = match keyword(s, i, Keyword::Ref) {
        Some(t) => Some((ModelKind::Reference, t)),
        None => match keyword(s, i, Keyword::Use) {
            Some(t) => Some((ModelKind::Submodel, t)),
            None => None,
        },
    };
    match kw {
        None => Err(mk_expected(i, ExpectKind::Keyword(Keyword::Use))),
        Some((kind, kt)) => {
            let (j, dirs) = opt_directory_path(s, kt.next);
            match model_info_simple(s, j) {
                Err(e) => if e.failure {
                    Err(e)
                } else {
                    Err(mk_incomplete(j, IncompleteKind::UseMissingModelInfo, kt.lexeme_span()))
                },
                Ok((k, mi)) => match opt_with(s, k) {
                    Err(e) => Err(e),
                    Ok((m, list)) => {
                        let final_span = match &list {
                            Some(l) => l.span(),
                            None => mi.span(),
                        };
                        match end_of_line(s, m) {
                            None => Err(mk_incomplete(m, IncompleteKind::UseMissingEndOfLine, final_span)),
                            Some(e) => {
                                let ws = e.whitespace_span();
                                let um = Node::new(UseModel::new(dirs, mi, list, kind), final_span, ws);
                                Ok((e.next, Node::new(Decl::UseModel(um), final_span, ws)))
                            },
                        }
                    },
                },
            }
        },
    }
}

/// Parses a declaration at the top level of a model or inside a section.
///
/// The alternatives are tried in order: `import`, `use design`, a `design`
/// header (an error here: a duplicate in a design file, the wrong file
/// otherwise), `use`/`ref`, and, in the body of a design file, a design
/// parameter line. An `import` or `use`/`ref` declaration whose keyword
/// matched but whose rest is malformed is reported as is; when nothing
/// matches, a declaration was expected.
pub fn parse(input: &InputSpan, allow_design_shorthand: bool) -> (r: Result<(usize, DeclNode), ParserError>)
    requires
        input.offset <= input.bytes@.len(),
    ensures
        agrees(r, spec_decl(input.bytes@, input.offset as int, input.extra.require_design_header, allow_design_shorthand)),
        r matches Ok((k, _)) ==> input.offset <= k <= input.bytes@.len(),
{
    decl_inner(input, allow_design_shorthand)
}

/// Tries each declaration parser in turn (see [`parse`]).
pub fn decl_inner(input: &InputSpan, allow_design_shorthand: bool) -> (r: Result<(usize, DeclNode), ParserError>)
    requires
        input.offset <= input.bytes@.len(),
    ensures
        agrees(r, spec_decl(input.bytes@, input.offset as int, input.extra.require_design_header, allow_design_shorthand)),
        r matches Ok((k, _)) ==> input.offset <= k <= input.bytes@.len(),
{
    let s = input.bytes.as_slice();
    let i = input.offset;
    match import_decl(s, i) {
        Ok(v) => return Ok(v),
        Err(e) => if e.error_offset > i {
            return Err(e);
        },
    }
    if let Ok(v) = use_design_decl(s, i) {
        return Ok(v);
    }
    if let Ok((_, node)) = parse_design_target_line(s, i) {
        let span = node.span();
        let reason = if input.extra.require_design_header {
            ParserErrorReason::DesignHeaderDuplicate { span }
        } else {
            ParserErrorReason::DesignHeaderWrongFile { span }
        };
        return Err(ParserError { failure: false, error_offset: span.start, reason });
    }
    match use_decl(s, i) {
        Ok(v) => return Ok(v),
        Err(e) => if e.error_offset > i {
            return Err(e);
        },
    }
    if allow_design_shorthand {
        if let Ok(v) = design_parameter_decl(s, i) {
            return Ok(v);
        }
    }
    Err(mk_expected(i, ExpectKind::Decl))
}

/// Parses an optional `.instance`.
fn opt_instance(s: &[u8], i: usize) -> (r: (usize, Option<IdentifierNode>))
    requires
        i <= s@.len(),
    ensures
        r.0 as int == spec_opt_instance(s@, i as int).0,
        r.1.deep_view() == spec_opt_instance(s@, i as int).1,
        i <= r.0 <= s@.len(),
{
    match dot(s, i) {
        None => (i, None),
        Some(d) => match identifier(s, d.next) {
            None => (i, None),
            Some(t) => (t.next, Some(make_ident_node(s, t))),
        },
    }
}

/// Parses a design parameter line `name[.instance] = value`.
fn design_parameter_decl(s: &[u8], i: usize) -> (r: Result<(usize, DeclNode), ParserError>)
    requires
        i <= s@.len(),
    ensures
        agrees(r, spec_design_parameter_decl(s@, i as int)),
        r matches Ok((k, _)) ==> i <= k <= s@.len(),
{
    let it = match identifier(s, i) {
        None => {
            return Err(mk_expected(i, ExpectKind::Identifier));
        },
        Some(t) => t,
    };
    let ident = make_ident_node(s, it);
    let (j, instance) = opt_instance(s, it.next);
    let eq = match symbol(s, j, 61) {
        None => {
            return Err(mk_expected(j, ExpectKind::Symbol(61)));
        },
        Some(t) => t,
    };
    let a = eq.next;
    let mut e = a;
    while e < s.len() && s[e] != 10 && s[e] != 35
        invariant
            a <= e <= s@.len(),
            value_end(s@, e as int) == value_end(s@, a as int),
        decreases s@.len() - e,
    {
        e = e + 1;
    }
    let mut b = e;
    while b > a && (s[b - 1] == 32 || s[b - 1] == 9 || s[b - 1] == 13)
        invariant
            a <= b <= e,
            e <= s@.len(),
            trim_back(s@, a as int, b as int) == trim_back(s@, a as int, e as int),
        decreases b - a,
    {
        b = b - 1;
    }
    if b == a {
        return Err(mk_incomplete(a, IncompleteKind::ParameterMissingValue, eq.lexeme_span()));
    }
    let el = match end_of_line(s, e) {
        None => {
            return Err(mk_expected(e, ExpectKind::Decl));
        },
        Some(t) => t,
    };
    let text = string_from_utf8_lossy(&s[a..b]);
    let value = Node::new(ParameterValue { text }, Span::new(a, b), Span::new(b, e));
    let span = Span::new(it.start, el.end);
    let ws = el.whitespace_span();
    let inner = match instance {
        Some(n) => DesignParameter::with_instance(ident, n, value, None),
        None => DesignParameter::new(ident, value, None),
    };
    proof {
        assert(s@.subrange(a as int, b as int) == s@.subrange(a as int, b as int));
    }
    Ok((el.next, Node::new(Decl::DesignParameter(Node::new(inner, span, ws)), span, ws)))
}

/// Parses a declaration that must consume the whole input.
pub fn parse_complete(input: &InputSpan) -> (r: Result<(usize, DeclNode), ParserError>)
    requires
        input.offset <= input.bytes@.len(),
    ensures
        agrees(r, spec_decl_complete(input.bytes@, input.offset as int, input.extra.require_design_header)),
{
    match parse(input, false) {
        Ok((k, d)) => if k == input.bytes.len() {
            Ok((k, d))
        } else {
            Err(ParserError { failure: false, error_offset: k, reason: ParserErrorReason::UnexpectedToken })
        },
        Err(e) => Err(e),
    }
}

/// Parses a complete `design <model>` line.
pub fn parse_design_target_complete(input: &InputSpan) -> (r: Result<(usize, DeclNode), ParserError>)
    requires
        input.offset <= input.bytes@.len(),
    ensures
        agrees(
            r,
            match spec_design_target_line(input.bytes@, input.offset as int) {
                Ok((k, d)) => if k == input.bytes@.len() {
                    Ok((k, d))
                } else {
                    Err(
                        ParserError {
                            failure: false,
                            error_offset: k as usize,
                            reason: ParserErrorReason::UnexpectedToken,
                        },
                    )
                },
                Err(e) => Err(e),
            },
        ),
{
    match parse_design_target_line(input.bytes.as_slice(), input.offset) {
        Ok((k, d)) => if k == input.bytes.len() {
            Ok((k, d))
        } else {
            Err(ParserError { failure: false, error_offset: k, reason: ParserErrorReason::UnexpectedToken })
        },
        Err(e) => Err(e),
    }
}

} // verus!
