//! Properties of the declaration grammar.
use vstd::prelude::*;

use crate::ast::{ModelKind, SpecDecl, SpecNode, spec_model_alias};
use crate::lexer::{
    Keyword, Token, blank_end, chars_of, ident_end, is_ident_char, is_ident_start, is_reserved,
    keyword_bytes, lemma_blank_end_bounds, lemma_comment_end_bounds, lemma_ident_end_bounds,
    lemma_ws_end_bounds, spec_dot, spec_dot_dot, spec_eol, spec_ident, spec_keyword, spec_symbol,
    ws_end, is_ws,
};
use crate::parser::{
    ParserError, opt_eol_next, spec_as_alias, spec_bracket_list, spec_decl, spec_design_target_line,
    spec_dir_name, spec_dir_path, spec_import_decl, spec_list_body, spec_model_info,
    spec_model_info_simple, spec_more_items, spec_opt_alias, spec_opt_for, spec_opt_with,
    spec_subcomponents, spec_submodel_list, spec_use_decl, spec_use_design_decl, spec_use_keyword,
    spec_design_parameter_decl, spec_opt_instance, trim_back, value_end,
};
use crate::span::span_of;

verus! {

/// A token found at `i` starts at `i` and its positions are ordered.
pub open spec fn tok_at(s: Seq<u8>, i: int, t: Token) -> bool {
    t.start == i && i < t.end <= t.next <= s.len()
}

pub proof fn lemma_keyword_ok(s: Seq<u8>, i: int, k: Keyword)
    requires
        s.len() <= usize::MAX,
        spec_keyword(s, i, k) is Some,
    ensures
        tok_at(s, i, spec_keyword(s, i, k)->0),
{
    lemma_ident_end_bounds(s, i);
    lemma_ws_end_bounds(s, ident_end(s, i));
    assert(keyword_bytes(k).len() > 0);
}

pub proof fn lemma_ident_ok(s: Seq<u8>, i: int)
    requires
        s.len() <= usize::MAX,
        spec_ident(s, i) is Some,
    ensures
        tok_at(s, i, spec_ident(s, i)->0),
{
    lemma_ident_end_bounds(s, i + 1);
    lemma_ws_end_bounds(s, ident_end(s, i));
}

pub proof fn lemma_symbol_ok(s: Seq<u8>, i: int, c: u8)
    requires
        s.len() <= usize::MAX,
        spec_symbol(s, i, c) is Some,
    ensures
        tok_at(s, i, spec_symbol(s, i, c)->0),
{
    lemma_ws_end_bounds(s, i + 1);
}

pub proof fn lemma_dots_ok(s: Seq<u8>, i: int)
    requires
        s.len() <= usize::MAX,
    ensures
        spec_dot(s, i) is Some ==> tok_at(s, i, spec_dot(s, i)->0),
        spec_dot_dot(s, i) is Some ==> tok_at(s, i, spec_dot_dot(s, i)->0),
{
    if spec_dot(s, i) is Some {
        lemma_ws_end_bounds(s, i + 1);
    }
    if spec_dot_dot(s, i) is Some {
        lemma_ws_end_bounds(s, i + 2);
    }
}

pub proof fn lemma_eol_ok(s: Seq<u8>, i: int)
    requires
        s.len() <= usize::MAX,
        spec_eol(s, i) is Some,
    ensures
        spec_eol(s, i)->0.start == i,
        i <= spec_eol(s, i)->0.end <= spec_eol(s, i)->0.next <= s.len(),
        i <= opt_eol_next(s, i) <= s.len(),
{
    lemma_comment_end_bounds(s, i);
    let j = if i < s.len() && s[i] == 35 {
        crate::lexer::comment_end(s, i)
    } else {
        i
    };
    if j == s.len() {
        lemma_blank_end_bounds(s, j, false);
    } else {
        lemma_blank_end_bounds(s, j + 1, false);
    }
}

pub proof fn lemma_opt_eol(s: Seq<u8>, i: int)
    requires
        s.len() <= usize::MAX,
        0 <= i <= s.len(),
    ensures
        i <= opt_eol_next(s, i) <= s.len(),
{
    if spec_eol(s, i) is Some {
        lemma_eol_ok(s, i);
    }
}

// ------------------------------------------------------------------------
// Every parser moves forward, and reports errors at or after its start.
// ------------------------------------------------------------------------

/// The result of a parser that started at `i`: a success ends at or after
/// `i` (strictly after when `strict`), an error is at or after `i`.
pub open spec fn forward<V>(s: Seq<u8>, i: int, r: Result<(int, V), ParserError>, strict: bool) -> bool {
    match r {
        Ok((k, _)) => (if strict {
            i < k
        } else {
            i <= k
        }) && k <= s.len(),
        Err(e) => i <= e.error_offset <= s.len(),
    }
}

pub proof fn lemma_dir_path_forward(s: Seq<u8>, i: int)
    requires
        s.len() <= usize::MAX,
        0 <= i <= s.len(),
    ensures
        i <= spec_dir_path(s, i).0 <= s.len(),
    decreases s.len() - i,
{
    lemma_dots_ok(s, i);
    if spec_ident(s, i) is Some {
        lemma_ident_ok(s, i);
    }
    match spec_dir_name(s, i) {
        Some((t, d)) => {
            match spec_symbol(s, t.next as int, 47) {
                Some(sl) => {
                    lemma_symbol_ok(s, t.next as int, 47);
                    if i < sl.next <= s.len() {
                        lemma_dir_path_forward(s, sl.next as int);
                    }
                },
                None => {},
            }
        },
        None => {},
    }
}

pub proof fn lemma_subcomponents_forward(s: Seq<u8>, i: int)
    requires
        s.len() <= usize::MAX,
        0 <= i <= s.len(),
    ensures
        forward(s, i, spec_subcomponents(s, i), false),
    decreases s.len() - i,
{
    lemma_dots_ok(s, i);
    match spec_dot(s, i) {
        None => {},
        Some(d) => {
            if spec_ident(s, d.next as int) is Some {
                lemma_ident_ok(s, d.next as int);
                let t = spec_ident(s, d.next as int)->0;
                if i < t.next <= s.len() {
                    lemma_subcomponents_forward(s, t.next as int);
                }
            }
        },
    }
}

pub proof fn lemma_opt_alias_forward(s: Seq<u8>, i: int)
    requires
        s.len() <= usize::MAX,
        0 <= i <= s.len(),
    ensures
        forward(s, i, spec_as_alias(s, i), true),
        forward(s, i, spec_opt_alias(s, i), false),
{
    if spec_keyword(s, i, Keyword::As) is Some {
        lemma_keyword_ok(s, i, Keyword::As);
        let a = spec_keyword(s, i, Keyword::As)->0;
        if spec_ident(s, a.next as int) is Some {
            lemma_ident_ok(s, a.next as int);
        }
    }
}

pub proof fn lemma_model_info_forward(s: Seq<u8>, i: int)
    requires
        s.len() <= usize::MAX,
        0 <= i <= s.len(),
    ensures
        forward(s, i, spec_model_info(s, i), true),
        forward(s, i, spec_model_info_simple(s, i), true),
{
    if spec_ident(s, i) is Some {
        lemma_ident_ok(s, i);
        let t = spec_ident(s, i)->0;
        lemma_opt_alias_forward(s, t.next as int);
        lemma_subcomponents_forward(s, t.next as int);
        match spec_subcomponents(s, t.next as int) {
            Ok((j, _)) => lemma_opt_alias_forward(s, j),
            Err(_) => {},
        }
    }
}

pub proof fn lemma_more_items_forward(s: Seq<u8>, i: int)
    requires
        s.len() <= usize::MAX,
        0 <= i <= s.len(),
    ensures
        forward(s, i, spec_more_items(s, i), false),
    decreases s.len() - i,
{
    if spec_symbol(s, i, 44) is Some {
        lemma_symbol_ok(s, i, 44);
        let c = spec_symbol(s, i, 44)->0;
        lemma_opt_eol(s, c.next as int);
        let p = opt_eol_next(s, c.next as int);
        lemma_model_info_forward(s, p);
        match spec_model_info(s, p) {
            Ok((j, _)) => {
                if i < j <= s.len() {
                    lemma_more_items_forward(s, j);
                }
            },
            Err(_) => {},
        }
    }
}

pub proof fn lemma_submodel_list_forward(s: Seq<u8>, i: int)
    requires
        s.len() <= usize::MAX,
        0 <= i <= s.len(),
    ensures
        forward(s, i, spec_submodel_list(s, i), true),
{
    lemma_model_info_forward(s, i);
    if spec_symbol(s, i, 91) is Some {
        lemma_symbol_ok(s, i, 91);
        let lb = spec_symbol(s, i, 91)->0;
        lemma_opt_eol(s, lb.next as int);
        let p0 = opt_eol_next(s, lb.next as int);
        lemma_model_info_forward(s, p0);
        match spec_model_info(s, p0) {
            Ok((j, _)) => {
                lemma_more_items_forward(s, j);
                match spec_more_items(s, j) {
                    Ok((k, _)) => {
                        if spec_symbol(s, k, 44) is Some {
                            lemma_symbol_ok(s, k, 44);
                        }
                        let k2 = match spec_symbol(s, k, 44) {
                            Some(c) => c.next as int,
                            None => k,
                        };
                        lemma_opt_eol(s, k2);
                    },
                    Err(_) => {},
                }
            },
            Err(_) => {},
        }
        match spec_list_body(s, p0) {
            Ok((p, _)) => {
                if spec_symbol(s, p, 93) is Some {
                    lemma_symbol_ok(s, p, 93);
                }
            },
            Err(_) => {},
        }
    }
}

pub proof fn lemma_import_forward(s: Seq<u8>, i: int)
    requires
        s.len() <= usize::MAX,
        0 <= i <= s.len(),
    ensures
        forward(s, i, spec_import_decl(s, i), true),
        spec_keyword(s, i, Keyword::Import) is Some ==> (spec_import_decl(s, i) matches Err(e) ==> e.error_offset
            > i),
{
    if spec_keyword(s, i, Keyword::Import) is Some {
        lemma_keyword_ok(s, i, Keyword::Import);
        let kt = spec_keyword(s, i, Keyword::Import)->0;
        if spec_ident(s, kt.next as int) is Some {
            lemma_ident_ok(s, kt.next as int);
            let pt = spec_ident(s, kt.next as int)->0;
            if spec_eol(s, pt.next as int) is Some {
                lemma_eol_ok(s, pt.next as int);
            }
        }
    }
}

/// A design target line that parses consumes input, and an error it
/// reports lies at or after where it started.
pub proof fn law_design_target_line_consumes_input(s: Seq<u8>, i: int)
    requires
        s.len() <= usize::MAX,
        0 <= i <= s.len(),
    ensures
        forward(s, i, spec_design_target_line(s, i), true),
{
    if spec_keyword(s, i, Keyword::Design) is Some {
        lemma_keyword_ok(s, i, Keyword::Design);
        let dt = spec_keyword(s, i, Keyword::Design)->0;
        lemma_dir_path_forward(s, dt.next as int);
        let j = spec_dir_path(s, dt.next as int).0;
        if spec_ident(s, j) is Some {
            lemma_ident_ok(s, j);
            let tt = spec_ident(s, j)->0;
            if spec_eol(s, tt.next as int) is Some {
                lemma_eol_ok(s, tt.next as int);
            }
        }
    }
}

pub proof fn lemma_use_design_forward(s: Seq<u8>, i: int)
    requires
        s.len() <= usize::MAX,
        0 <= i <= s.len(),
    ensures
        forward(s, i, spec_use_design_decl(s, i), true),
{
    if spec_keyword(s, i, Keyword::Use) is Some {
        lemma_keyword_ok(s, i, Keyword::Use);
        let ut = spec_keyword(s, i, Keyword::Use)->0;
        if spec_keyword(s, ut.next as int, Keyword::Design) is Some {
            lemma_keyword_ok(s, ut.next as int, Keyword::Design);
            let dt = spec_keyword(s, ut.next as int, Keyword::Design)->0;
            lemma_dir_path_forward(s, dt.next as int);
            let j = spec_dir_path(s, dt.next as int).0;
            if spec_ident(s, j) is Some {
                lemma_ident_ok(s, j);
                let ft = spec_ident(s, j)->0;
                if spec_keyword(s, ft.next as int, Keyword::For) is Some {
                    lemma_keyword_ok(s, ft.next as int, Keyword::For);
                    let f = spec_keyword(s, ft.next as int, Keyword::For)->0;
                    if spec_ident(s, f.next as int) is Some {
                        lemma_ident_ok(s, f.next as int);
                    }
                }
                let k = spec_opt_for(s, ft.next as int).0;
                if spec_eol(s, k) is Some {
                    lemma_eol_ok(s, k);
                }
            }
        }
    }
}

pub proof fn lemma_use_forward(s: Seq<u8>, i: int)
    requires
        s.len() <= usize::MAX,
        0 <= i <= s.len(),
    ensures
        forward(s, i, spec_use_decl(s, i), true),
        spec_use_keyword(s, i) is Some ==> (spec_use_decl(s, i) matches Err(e) ==> e.error_offset > i),
{
    if spec_use_keyword(s, i) is Some {
        if spec_keyword(s, i, Keyword::Ref) is Some {
            lemma_keyword_ok(s, i, Keyword::Ref);
        } else {
            lemma_keyword_ok(s, i, Keyword::Use);
        }
        let (kind, kt) = spec_use_keyword(s, i)->0;
        lemma_dir_path_forward(s, kt.next as int);
        let j = spec_dir_path(s, kt.next as int).0;
        lemma_model_info_forward(s, j);
        match spec_model_info_simple(s, j) {
            Ok((k, mi)) => {
                if spec_keyword(s, k, Keyword::With) is Some {
                    lemma_keyword_ok(s, k, Keyword::With);
                    let w = spec_keyword(s, k, Keyword::With)->0;
                    lemma_submodel_list_forward(s, w.next as int);
                }
                match spec_opt_with(s, k) {
                    Ok((m, _)) => {
                        if spec_eol(s, m) is Some {
                            lemma_eol_ok(s, m);
                        }
                    },
                    Err(_) => {},
                }
            },
            Err(_) => {},
        }
    }
}


proof fn lemma_value_end_bounds(s: Seq<u8>, j: int)
    requires
        0 <= j <= s.len(),
    ensures
        j <= value_end(s, j) <= s.len(),
    decreases s.len() - j,
{
    if j < s.len() && s[j] != 10 && s[j] != 35 {
        lemma_value_end_bounds(s, j + 1);
    }
}

proof fn lemma_trim_back_bounds(s: Seq<u8>, a: int, e: int)
    requires
        a <= e,
    ensures
        a <= trim_back(s, a, e) <= e,
    decreases e - a,
{
    if a < e && is_ws(s[e - 1]) {
        lemma_trim_back_bounds(s, a, e - 1);
    }
}

pub proof fn lemma_design_parameter_forward(s: Seq<u8>, i: int)
    requires
        s.len() <= usize::MAX,
        0 <= i <= s.len(),
    ensures
        forward(s, i, spec_design_parameter_decl(s, i), true),
{
    if spec_ident(s, i) is Some {
        lemma_ident_ok(s, i);
        let it = spec_ident(s, i)->0;
        lemma_dots_ok(s, it.next as int);
        if spec_dot(s, it.next as int) is Some {
            let d = spec_dot(s, it.next as int)->0;
            if spec_ident(s, d.next as int) is Some {
                lemma_ident_ok(s, d.next as int);
            }
        }
        let j = spec_opt_instance(s, it.next as int).0;
        if spec_symbol(s, j, 61) is Some {
            lemma_symbol_ok(s, j, 61);
            let a = spec_symbol(s, j, 61)->0.next as int;
            lemma_value_end_bounds(s, a);
            let e = value_end(s, a);
            lemma_trim_back_bounds(s, a, e);
            if spec_eol(s, e) is Some {
                lemma_eol_ok(s, e);
            }
        }
    }
}

/// A declaration that parses consumes input: parsing a sequence of
/// declarations always moves forward.
pub proof fn law_decl_consumes_input(s: Seq<u8>, i: int, require_design_header: bool, allow_design_shorthand: bool)
    requires
        s.len() <= usize::MAX,
        0 <= i <= s.len(),
    ensures
        spec_decl(s, i, require_design_header, allow_design_shorthand) matches Ok((k, _)) ==> i < k <= s.len(),
{
    lemma_import_forward(s, i);
    lemma_use_design_forward(s, i);
    lemma_use_forward(s, i);
    lemma_design_parameter_forward(s, i);
}

/// When the `import` keyword matches but the rest of the line is malformed,
/// the declaration parser reports that error instead of trying the other
/// kinds of declarations.
pub proof fn law_malformed_import_is_reported(s: Seq<u8>, i: int, require_design_header: bool, allow_design_shorthand: bool)
    requires
        s.len() <= usize::MAX,
        0 <= i <= s.len(),
        spec_keyword(s, i, Keyword::Import) is Some,
        spec_import_decl(s, i) is Err,
    ensures
        spec_decl(s, i, require_design_header, allow_design_shorthand) == spec_import_decl(s, i),
{
    lemma_import_forward(s, i);
}

/// When the `ref` keyword matches but the rest of the declaration is
/// malformed, the declaration parser reports that error.
pub proof fn law_malformed_ref_is_reported(s: Seq<u8>, i: int, require_design_header: bool, allow_design_shorthand: bool)
    requires
        s.len() <= usize::MAX,
        0 <= i <= s.len(),
        spec_keyword(s, i, Keyword::Ref) is Some,
        spec_use_decl(s, i) is Err,
    ensures
        spec_decl(s, i, require_design_header, allow_design_shorthand) == spec_use_decl(s, i),
{
    lemma_use_forward(s, i);
    lemma_ident_end_bounds(s, i);
    let w = s.subrange(i, ident_end(s, i));
    assert(w == keyword_bytes(Keyword::Ref));
    assert(spec_keyword(s, i, Keyword::Import) is None) by {
        assert(w.len() != keyword_bytes(Keyword::Import).len());
    }
    assert(spec_keyword(s, i, Keyword::Use) is None) by {
        assert(w[0] != keyword_bytes(Keyword::Use)[0]);
    }
    assert(spec_keyword(s, i, Keyword::Design) is None) by {
        assert(w.len() != keyword_bytes(Keyword::Design).len());
    }
}

// ------------------------------------------------------------------------
// Round trips: the canonical text of a declaration parses back to it.
// ------------------------------------------------------------------------

/// A name that the grammar accepts as an identifier.
pub open spec fn is_name(n: Seq<u8>) -> bool {
    &&& n.len() > 0
    &&& is_ident_start(n[0])
    &&& forall|k: int| 0 <= k < n.len() ==> is_ident_char(#[trigger] n[k])
    &&& !is_reserved(n)
}

pub proof fn lemma_ident_end_exact(s: Seq<u8>, i: int, j: int)
    requires
        0 <= i <= j <= s.len(),
        forall|k: int| i <= k < j ==> is_ident_char(#[trigger] s[k]),
        j == s.len() || !is_ident_char(s[j]),
    ensures
        ident_end(s, i) == j,
    decreases j - i,
{
    if i < j {
        lemma_ident_end_exact(s, i + 1, j);
    }
}

/// `d` imports `n`, whose name spans `[7, 7 + |n|)`.
pub open spec fn is_import_of(d: SpecNode<SpecDecl>, n: Seq<u8>) -> bool {
    match d.value {
        SpecDecl::Import(imp) => imp.value.value == chars_of(n) && imp.value.span == span_of(7, 7 + n.len() as int),
        _ => false,
    }
}

/// `d` uses model `n` with alias `a` as `kind`, with no directory path and
/// no submodel list.
pub open spec fn is_use_of(d: SpecNode<SpecDecl>, kind: ModelKind, n: Seq<u8>, a: Seq<u8>) -> bool {
    match d.value {
        SpecDecl::UseModel(um) => {
            &&& um.value.model_kind == kind
            &&& um.value.directory_path.len() == 0
            &&& um.value.submodel_list is None
            &&& um.value.model.value.top_component.value == chars_of(n)
            &&& um.value.model.value.subcomponents.len() == 0
            &&& spec_model_alias(um.value.model.value).value == chars_of(a)
        },
        _ => false,
    }
}

/// The canonical text of `import <n>`.
pub open spec fn import_text(n: Seq<u8>) -> Seq<u8> {
    keyword_bytes(Keyword::Import) + seq![32u8] + n + seq![10u8]
}

/// `import <n>` followed by a newline parses to an import of `n` whose path
/// spans the name, and the whole text is consumed.
#[verifier::rlimit(40)]
pub proof fn law_import_round_trip(n: Seq<u8>, require_design_header: bool)
    requires
        is_name(n),
        import_text(n).len() <= usize::MAX,
    ensures
        spec_decl(import_text(n), 0, require_design_header, false) matches Ok((k, d)) && k == import_text(n).len()
            && is_import_of(d, n),
{
    let s = import_text(n);
    let kw = keyword_bytes(Keyword::Import);
    let p: int = 7 + n.len() as int;
    assert(s.len() == p + 1);
    assert forall|k: int| 0 <= k < 6 implies is_ident_char(#[trigger] s[k]) by {
        assert(s[k] == kw[k]);
    }
    assert(s[6] == 32u8);
    lemma_ident_end_exact(s, 0, 6);
    assert(s.subrange(0, 6) =~= kw);
    assert(s[7] == n[0]);
    assert(ws_end(s, 7) == 7);
    assert(ws_end(s, 6) == 7);
    assert forall|k: int| 7 <= k < p implies is_ident_char(#[trigger] s[k]) by {
        assert(s[k] == n[k - 7]);
    }
    assert(s[p] == 10u8);
    lemma_ident_end_exact(s, 7, p);
    assert(s.subrange(7, p) =~= n);
    assert(ws_end(s, p) == p);
    assert(blank_end(s, p + 1, false) == p + 1);
    let kt = spec_keyword(s, 0, Keyword::Import)->0;
    assert(kt.next == 7);
    let pt = spec_ident(s, 7)->0;
    assert(pt.end == p && pt.next == p);
    assert(spec_eol(s, p) is Some);
}

/// The canonical text of `use|ref <n> as <a>`.
pub open spec fn use_alias_text(kind: ModelKind, n: Seq<u8>, a: Seq<u8>) -> Seq<u8> {
    let kw = match kind {
        ModelKind::Reference => keyword_bytes(Keyword::Ref),
        ModelKind::Submodel => keyword_bytes(Keyword::Use),
    };
    kw + seq![32u8] + n + seq![32u8] + keyword_bytes(Keyword::As) + seq![32u8] + a + seq![10u8]
}

/// Lexical facts about the canonical text of `use|ref <n> as <a>`.
proof fn lemma_use_alias_tokens(kind: ModelKind, n: Seq<u8>, a: Seq<u8>)
    requires
        is_name(n),
        is_name(a),
        use_alias_text(kind, n, a).len() <= usize::MAX,
    ensures
        ({
            let s = use_alias_text(kind, n, a);
            let n1: int = 4 + n.len() as int;
            let a0: int = n1 + 4;
            let a1: int = a0 + a.len() as int;
            &&& s.len() == a1 + 1
            &&& spec_use_keyword(s, 0) == Some((kind, Token { start: 0, end: 3, next: 4 }))
            &&& spec_keyword(s, 0, Keyword::Import) is None
            &&& spec_keyword(s, 0, Keyword::Design) is None
            &&& spec_keyword(s, 4, Keyword::Design) is None
            &&& spec_ident(s, 4) == Some(Token { start: 4, end: n1 as usize, next: (n1 + 1) as usize })
            &&& spec_symbol(s, n1 + 1, 47) is None
            &&& spec_keyword(s, n1 + 1, Keyword::As) == Some(
                Token { start: (n1 + 1) as usize, end: (n1 + 3) as usize, next: a0 as usize },
            )
            &&& spec_ident(s, a0) == Some(Token { start: a0 as usize, end: a1 as usize, next: a1 as usize })
            &&& spec_keyword(s, a1, Keyword::With) is None
            &&& spec_eol(s, a1) == Some(
                Token { start: a1 as usize, end: (a1 + 1) as usize, next: (a1 + 1) as usize },
            )
            &&& s.subrange(4, n1) == n
            &&& s.subrange(a0, a1) == a
        }),
{
    let s = use_alias_text(kind, n, a);
    let kw = match kind {
        ModelKind::Reference => keyword_bytes(Keyword::Ref),
        ModelKind::Submodel => keyword_bytes(Keyword::Use),
    };
    let asb = keyword_bytes(Keyword::As);
    let n0: int = 4;
    let n1: int = 4 + n.len() as int;
    let a0: int = n1 + 4;
    let a1: int = a0 + a.len() as int;
    assert(s.len() == a1 + 1);
    assert(kw.len() == 3);
    assert forall|k: int| 0 <= k < 3 implies is_ident_char(#[trigger] s[k]) by {
        assert(s[k] == kw[k]);
    }
    assert(s[3] == 32u8);
    lemma_ident_end_exact(s, 0, 3);
    assert(s.subrange(0, 3) =~= kw);
    assert(s[n0] == n[0]);
    assert(ws_end(s, n0) == n0);
    assert(ws_end(s, 3) == n0);
    assert forall|k: int| n0 <= k < n1 implies is_ident_char(#[trigger] s[k]) by {
        assert(s[k] == n[k - n0]);
    }
    assert(s[n1] == 32u8);
    lemma_ident_end_exact(s, n0, n1);
    assert(s.subrange(n0, n1) =~= n);
    assert(s[n1 + 1] == asb[0]);
    assert(ws_end(s, n1 + 1) == n1 + 1);
    assert(ws_end(s, n1) == n1 + 1);
    assert forall|k: int| n1 + 1 <= k < n1 + 3 implies is_ident_char(#[trigger] s[k]) by {
        assert(s[k] == asb[k - n1 - 1]);
    }
    assert(s[n1 + 3] == 32u8);
    lemma_ident_end_exact(s, n1 + 1, n1 + 3);
    assert(s.subrange(n1 + 1, n1 + 3) =~= asb);
    assert(s[a0] == a[0]);
    assert(ws_end(s, a0) == a0);
    assert(ws_end(s, n1 + 3) == a0);
    assert forall|k: int| a0 <= k < a1 implies is_ident_char(#[trigger] s[k]) by {
        assert(s[k] == a[k - a0]);
    }
    assert(s[a1] == 10u8);
    lemma_ident_end_exact(s, a0, a1);
    assert(s.subrange(a0, a1) =~= a);
    assert(ws_end(s, a1) == a1);
    assert(ident_end(s, a1) == a1);
    assert(blank_end(s, a1 + 1, false) == a1 + 1);
    let w = s.subrange(0, 3);
    assert(spec_keyword(s, 0, Keyword::Import) is None) by {
        assert(w.len() != keyword_bytes(Keyword::Import).len());
    }
    assert(spec_keyword(s, 0, Keyword::Design) is None) by {
        assert(w.len() != keyword_bytes(Keyword::Design).len());
    }
    assert(spec_keyword(s, n0, Keyword::Design) is None) by {
        assert(s.subrange(n0, n1) != keyword_bytes(Keyword::Design));
    }
    match kind {
        ModelKind::Reference => {},
        ModelKind::Submodel => {
            assert(spec_keyword(s, 0, Keyword::Ref) is None) by {
                assert(w[0] != keyword_bytes(Keyword::Ref)[0]);
            }
        },
    }
    assert(spec_keyword(s, a1, Keyword::With) is None) by {
        assert(s.subrange(a1, a1).len() == 0);
    }
    assert(spec_eol(s, a1) is Some);
}

/// `ref <n> as <a>` and `use <n> as <a>` followed by a newline parse to a
/// model usage of that kind whose model is `n`, whose alias is `a`, with no
/// directory path and no submodel list; the whole text is consumed.
#[verifier::rlimit(40)]
pub proof fn law_use_alias_round_trip(kind: ModelKind, n: Seq<u8>, a: Seq<u8>, require_design_header: bool)
    requires
        is_name(n),
        is_name(a),
        use_alias_text(kind, n, a).len() <= usize::MAX,
    ensures
        spec_decl(use_alias_text(kind, n, a), 0, require_design_header, false) matches Ok((k, d)) && k
            == use_alias_text(kind, n, a).len() && is_use_of(d, kind, n, a),
{
    lemma_use_alias_tokens(kind, n, a);
    let s = use_alias_text(kind, n, a);
    let n1: int = 4 + n.len() as int;
    let a0: int = n1 + 4;
    let a1: int = a0 + a.len() as int;
    assert(spec_import_decl(s, 0) is Err);
    assert(spec_use_design_decl(s, 0) is Err);
    assert(spec_design_target_line(s, 0) is Err);
    assert(spec_dir_path(s, 4).0 == 4);
    assert(spec_dir_path(s, 4).1.len() == 0);
    assert(spec_as_alias(s, n1 + 1) is Ok);
    let mi = spec_model_info_simple(s, 4);
    assert(mi is Ok);
    assert((mi->Ok_0).0 == a1);
    assert((mi->Ok_0).1.value.top_component.value == chars_of(n));
    assert((mi->Ok_0).1.value.alias is Some);
    assert(spec_opt_with(s, a1) is Ok);
    assert((spec_opt_with(s, a1)->Ok_0).0 == a1);
    assert((spec_opt_with(s, a1)->Ok_0).1 is None);
    assert(spec_use_decl(s, 0) is Ok);
}

} // verus!
