//! Tokens of the Oneil declaration grammar, over the bytes of a source text.
//!
//! Inline whitespace is spaces, tabs and carriage returns. A token is
//! followed by the inline whitespace after it; the end-of-line token is
//! followed by every blank line and comment line after it. Comments start
//! with `#` and run to the end of the line.
use vstd::prelude::*;

use crate::span::{Span, span_of};

verus! {

// ------------------------------------------------------------------------
// Character classes
// ------------------------------------------------------------------------

/// Inline whitespace: space, tab or carriage return.
pub open spec fn is_ws(b: u8) -> bool {
    b == 32 || b == 9 || b == 13
}

/// A byte that may start an identifier: an ASCII letter or `_`.
pub open spec fn is_ident_start(b: u8) -> bool {
    (65 <= b <= 90) || (97 <= b <= 122) || b == 95
}

/// A byte that may continue an identifier: an ASCII letter, digit or `_`.
pub open spec fn is_ident_char(b: u8) -> bool {
    is_ident_start(b) || (48 <= b <= 57)
}

/// The text of ASCII bytes as characters.
pub open spec fn chars_of(b: Seq<u8>) -> Seq<char> {
    b.map_values(|x: u8| x as char)
}

// ------------------------------------------------------------------------
// Runs
// ------------------------------------------------------------------------

/// End of the run of inline whitespace that starts at `i`.
pub open spec fn ws_end(s: Seq<u8>, i: int) -> int
    decreases s.len() - i,
{
    if 0 <= i < s.len() && is_ws(s[i]) {
        ws_end(s, i + 1)
    } else {
        i
    }
}

/// End of the run of identifier characters that starts at `i`.
pub open spec fn ident_end(s: Seq<u8>, i: int) -> int
    decreases s.len() - i,
{
    if 0 <= i < s.len() && is_ident_char(s[i]) {
        ident_end(s, i + 1)
    } else {
        i
    }
}

/// End of a comment that starts at `i`: the position of the next newline, or
/// the end of the text.
pub open spec fn comment_end(s: Seq<u8>, i: int) -> int
    decreases s.len() - i,
{
    if 0 <= i < s.len() && s[i] != 10 {
        comment_end(s, i + 1)
    } else {
        i
    }
}

/// End of the blank text that starts at `i`: whitespace, newlines and
/// comments. `in_comment` says whether `i` lies inside a comment.
pub open spec fn blank_end(s: Seq<u8>, i: int, in_comment: bool) -> int
    decreases s.len() - i,
{
    if 0 <= i < s.len() {
        if in_comment {
            if s[i] == 10 {
                blank_end(s, i + 1, false)
            } else {
                blank_end(s, i + 1, true)
            }
        } else if is_ws(s[i]) || s[i] == 10 {
            blank_end(s, i + 1, false)
        } else if s[i] == 35 {
            blank_end(s, i + 1, true)
        } else {
            i
        }
    } else {
        i
    }
}

pub proof fn lemma_ws_end_bounds(s: Seq<u8>, i: int)
    requires
        0 <= i <= s.len(),
    ensures
        i <= ws_end(s, i) <= s.len(),
        forall|k: int| i <= k < ws_end(s, i) ==> is_ws(#[trigger] s[k]),
    decreases s.len() - i,
{
    if i < s.len() && is_ws(s[i]) {
        lemma_ws_end_bounds(s, i + 1);
    }
}

pub proof fn lemma_ident_end_bounds(s: Seq<u8>, i: int)
    requires
        0 <= i <= s.len(),
    ensures
        i <= ident_end(s, i) <= s.len(),
        forall|k: int| i <= k < ident_end(s, i) ==> is_ident_char(#[trigger] s[k]),
    decreases s.len() - i,
{
    if i < s.len() && is_ident_char(s[i]) {
        lemma_ident_end_bounds(s, i + 1);
    }
}

pub proof fn lemma_comment_end_bounds(s: Seq<u8>, i: int)
    requires
        0 <= i <= s.len(),
    ensures
        i <= comment_end(s, i) <= s.len(),
        comment_end(s, i) < s.len() ==> s[comment_end(s, i)] == 10,
    decreases s.len() - i,
{
    if i < s.len() && s[i] != 10 {
        lemma_comment_end_bounds(s, i + 1);
    }
}

pub proof fn lemma_blank_end_bounds(s: Seq<u8>, i: int, c: bool)
    requires
        0 <= i <= s.len(),
    ensures
        i <= blank_end(s, i, c) <= s.len(),
    decreases s.len() - i,
{
    if i < s.len() {
        if c {
            if s[i] == 10 {
                lemma_blank_end_bounds(s, i + 1, false);
            } else {
                lemma_blank_end_bounds(s, i + 1, true);
            }
        } else if is_ws(s[i]) || s[i] == 10 {
            lemma_blank_end_bounds(s, i + 1, false);
        } else if s[i] == 35 {
            lemma_blank_end_bounds(s, i + 1, true);
        }
    }
}

/// Computes [`ws_end`].
pub fn skip_ws(s: &[u8], i: usize) -> (r: usize)
    requires
        i <= s@.len(),
    ensures
        r == ws_end(s@, i as int),
        i <= r <= s@.len(),
{
    proof {
        lemma_ws_end_bounds(s@, i as int);
    }
    let mut j = i;
    while j < s.len() && (s[j] == 32 || s[j] == 9 || s[j] == 13)
        invariant
            i <= j <= s@.len(),
            ws_end(s@, j as int) == ws_end(s@, i as int),
        decreases s@.len() - j,
    {
        j = j + 1;
    }
    j
}

/// Computes [`ident_end`].
pub fn scan_ident(s: &[u8], i: usize) -> (r: usize)
    requires
        i <= s@.len(),
    ensures
        r == ident_end(s@, i as int),
        i <= r <= s@.len(),
{
    proof {
        lemma_ident_end_bounds(s@, i as int);
    }
    let mut j = i;
    while j < s.len() && is_ident_char_exec(s[j])
        invariant
            i <= j <= s@.len(),
            ident_end(s@, j as int) == ident_end(s@, i as int),
        decreases s@.len() - j,
    {
        j = j + 1;
    }
    j
}

/// Computes [`comment_end`].
pub fn scan_comment(s: &[u8], i: usize) -> (r: usize)
    requires
        i <= s@.len(),
    ensures
        r == comment_end(s@, i as int),
        i <= r <= s@.len(),
{
    proof {
        lemma_comment_end_bounds(s@, i as int);
    }
    let mut j = i;
    while j < s.len() && s[j] != 10
        invariant
            i <= j <= s@.len(),
            comment_end(s@, j as int) == comment_end(s@, i as int),
        decreases s@.len() - j,
    {
        j = j + 1;
    }
    j
}

/// Computes [`blank_end`] outside a comment.
pub fn skip_blank(s: &[u8], i: usize) -> (r: usize)
    requires
        i <= s@.len(),
    ensures
        r == blank_end(s@, i as int, false),
        i <= r <= s@.len(),
{
    proof {
        lemma_blank_end_bounds(s@, i as int, false);
    }
    let mut j = i;
    let mut c = false;
    while j < s.len() && (c || s[j] == 32 || s[j] == 9 || s[j] == 13 || s[j] == 10 || s[j] == 35)
        invariant
            i <= j <= s@.len(),
            blank_end(s@, j as int, c) == blank_end(s@, i as int, false),
        decreases s@.len() - j,
    {
        if c {
            if s[j] == 10 {
                c = false;
            }
        } else if s[j] == 35 {
            c = true;
        }
        j = j + 1;
    }
    j
}

/// Decides [`is_ident_char`].
pub fn is_ident_char_exec(b: u8) -> (r: bool)
    ensures
        r == is_ident_char(b),
{
    (65 <= b && b <= 90) || (97 <= b && b <= 122) || b == 95 || (48 <= b && b <= 57)
}

/// Decides [`is_ident_start`].
pub fn is_ident_start_exec(b: u8) -> (r: bool)
    ensures
        r == is_ident_start(b),
{
    (65 <= b && b <= 90) || (97 <= b && b <= 122) || b == 95
}

// ------------------------------------------------------------------------
// Keywords
// ------------------------------------------------------------------------

/// The keywords of the declaration grammar.
#[derive(Debug, Clone, Copy, PartialEq, Eq, Structural)]
pub enum Keyword {
    Import,
    Use,
    Ref,
    Design,
    With,
    As,
    For,
}

/// The spelling of a keyword.
pub open spec fn keyword_bytes(k: Keyword) -> Seq<u8> {
    match k {
        Keyword::Import => seq![105u8, 109, 112, 111, 114, 116],
        Keyword::Use => seq![117u8, 115, 101],
        Keyword::Ref => seq![114u8, 101, 102],
        Keyword::Design => seq![100u8, 101, 115, 105, 103, 110],
        Keyword::With => seq![119u8, 105, 116, 104],
        Keyword::As => seq![97u8, 115],
        Keyword::For => seq![102u8, 111, 114],
    }
}

/// Whether a word is one of the keywords; keywords are not identifiers.
pub open spec fn is_reserved(w: Seq<u8>) -> bool {
    ||| w == keyword_bytes(Keyword::Import)
    ||| w == keyword_bytes(Keyword::Use)
    ||| w == keyword_bytes(Keyword::Ref)
    ||| w == keyword_bytes(Keyword::Design)
    ||| w == keyword_bytes(Keyword::With)
    ||| w == keyword_bytes(Keyword::As)
    ||| w == keyword_bytes(Keyword::For)
}

/// The spelling of a keyword.
pub fn keyword_text(k: Keyword) -> (r: Vec<u8>)
    ensures
        r@ == keyword_bytes(k),
{
    let v = match k {
        Keyword::Import => vec![105u8, 109, 112, 111, 114, 116],
        Keyword::Use => vec![117u8, 115, 101],
        Keyword::Ref => vec![114u8, 101, 102],
        Keyword::Design => vec![100u8, 101, 115, 105, 103, 110],
        Keyword::With => vec![119u8, 105, 116, 104],
        Keyword::As => vec![97u8, 115],
        Keyword::For => vec![102u8, 111, 114],
    };
    assert(v@ =~= keyword_bytes(k));
    v
}

/// Whether `s[i..e]` equals `w`.
pub fn bytes_equal(s: &[u8], i: usize, e: usize, w: &Vec<u8>) -> (r: bool)
    requires
        i <= e <= s@.len(),
    ensures
        r == (s@.subrange(i as int, e as int) == w@),
{
    if e - i != w.len() {
        proof {
            assert(s@.subrange(i as int, e as int).len() != w@.len());
        }
        return false;
    }
    let mut k: usize = 0;
    while k < w.len()
        invariant
            e - i == w@.len(),
            i <= e <= s@.len(),
            k <= w@.len(),
            forall|t: int| 0 <= t < k ==> s@[i + t] == w@[t],
        decreases w@.len() - k,
    {
        if s[i + k] != w[k] {
            proof {
                assert(s@.subrange(i as int, e as int)[k as int] != w@[k as int]);
            }
            return false;
        }
        k = k + 1;
    }
    assert(s@.subrange(i as int, e as int) =~= w@);
    true
}

/// Whether the word `s[i..e]` is reserved.
pub fn is_reserved_exec(s: &[u8], i: usize, e: usize) -> (r: bool)
    requires
        i <= e <= s@.len(),
    ensures
        r == is_reserved(s@.subrange(i as int, e as int)),
{
    bytes_equal(s, i, e, &keyword_text(Keyword::Import)) || bytes_equal(s, i, e, &keyword_text(Keyword::Use))
        || bytes_equal(s, i, e, &keyword_text(Keyword::Ref)) || bytes_equal(
        s,
        i,
        e,
        &keyword_text(Keyword::Design),
    ) || bytes_equal(s, i, e, &keyword_text(Keyword::With)) || bytes_equal(
        s,
        i,
        e,
        &keyword_text(Keyword::As),
    ) || bytes_equal(s, i, e, &keyword_text(Keyword::For))
}

// ------------------------------------------------------------------------
// Tokens
// ------------------------------------------------------------------------

/// A lexed token: its lexeme `[start, end)` and the position `next` after the
/// whitespace that follows it.
#[derive(Debug, Clone, Copy, PartialEq, Eq, Structural)]
pub struct Token {
    pub start: usize,
    pub end: usize,
    pub next: usize,
}

impl Token {
    /// The span of the lexeme.
    pub open spec fn lexeme(self) -> Span {
        span_of(self.start as int, self.end as int)
    }

    /// The span of the whitespace after the lexeme.
    pub open spec fn whitespace(self) -> Span {
        span_of(self.end as int, self.next as int)
    }

    /// The span of the lexeme.
    pub fn lexeme_span(&self) -> (r: Span)
        ensures
            r == self.lexeme(),
    {
        Span { start: self.start, end: self.end }
    }

    /// The span of the whitespace after the lexeme.
    pub fn whitespace_span(&self) -> (r: Span)
        ensures
            r == self.whitespace(),
    {
        Span { start: self.end, end: self.next }
    }
}

/// The token that spans `[i, e)` followed by inline whitespace.
pub open spec fn inline_token(s: Seq<u8>, i: int, e: int) -> Token {
    Token { start: i as usize, end: e as usize, next: ws_end(s, e) as usize }
}

/// The keyword `k` at `i`: the whole word at `i` is spelled as `k`.
pub open spec fn spec_keyword(s: Seq<u8>, i: int, k: Keyword) -> Option<Token> {
    if 0 <= i <= s.len() && s.subrange(i, ident_end(s, i)) == keyword_bytes(k) {
        Some(inline_token(s, i, ident_end(s, i)))
    } else {
        None
    }
}

/// An identifier at `i`: a word that starts with a letter or `_` and is not
/// a keyword.
pub open spec fn spec_ident(s: Seq<u8>, i: int) -> Option<Token> {
    if 0 <= i < s.len() && is_ident_start(s[i]) && !is_reserved(s.subrange(i, ident_end(s, i))) {
        Some(inline_token(s, i, ident_end(s, i)))
    } else {
        None
    }
}

/// The one-byte symbol `c` at `i`.
pub open spec fn spec_symbol(s: Seq<u8>, i: int, c: u8) -> Option<Token> {
    if 0 <= i < s.len() && s[i] == c {
        Some(inline_token(s, i, i + 1))
    } else {
        None
    }
}

/// A single dot at `i` that is not the start of `..`.
pub open spec fn spec_dot(s: Seq<u8>, i: int) -> Option<Token> {
    if 0 <= i < s.len() && s[i] == 46 && !(i + 1 < s.len() && s[i + 1] == 46) {
        Some(inline_token(s, i, i + 1))
    } else {
        None
    }
}

/// The symbol `..` at `i`.
pub open spec fn spec_dot_dot(s: Seq<u8>, i: int) -> Option<Token> {
    if 0 <= i && i + 1 < s.len() && s[i] == 46 && s[i + 1] == 46 {
        Some(inline_token(s, i, i + 2))
    } else {
        None
    }
}

/// The end of a line at `i`: an optional comment followed by a newline or
/// by the end of the text. It is followed by all blank and comment lines.
pub open spec fn spec_eol(s: Seq<u8>, i: int) -> Option<Token> {
    if 0 <= i <= s.len() {
        let j = if i < s.len() && s[i] == 35 {
            comment_end(s, i)
        } else {
            i
        };
        if j == s.len() {
            Some(Token { start: i as usize, end: j as usize, next: blank_end(s, j, false) as usize })
        } else if s[j] == 10 {
            Some(
                Token {
                    start: i as usize,
                    end: (j + 1) as usize,
                    next: blank_end(s, j + 1, false) as usize,
                },
            )
        } else {
            None
        }
    } else {
        None
    }
}

/// Positions of a token are ordered and within the text.
pub open spec fn token_ok(s: Seq<u8>, i: int, t: Token) -> bool {
    i == t.start && t.start <= t.end <= t.next <= s.len()
}

/// Lexes the keyword `k`.
pub fn keyword(s: &[u8], i: usize, k: Keyword) -> (r: Option<Token>)
    requires
        i <= s@.len(),
    ensures
        r == spec_keyword(s@, i as int, k),
        r matches Some(t) ==> token_ok(s@, i as int, t) && t.end > t.start,
{
    let e = scan_ident(s, i);
    if bytes_equal(s, i, e, &keyword_text(k)) {
        let n = skip_ws(s, e);
        proof {
            assert(s@.subrange(i as int, e as int).len() > 0) by {
                assert(keyword_bytes(k).len() > 0);
            }
        }
        Some(Token { start: i, end: e, next: n })
    } else {
        None
    }
}

/// Lexes an identifier.
pub fn identifier(s: &[u8], i: usize) -> (r: Option<Token>)
    requires
        i <= s@.len(),
    ensures
        r == spec_ident(s@, i as int),
        r matches Some(t) ==> token_ok(s@, i as int, t) && t.end > t.start,
{
    if i < s.len() && is_ident_start_exec(s[i]) {
        let e = scan_ident(s, i);
        if !is_reserved_exec(s, i, e) {
            let n = skip_ws(s, e);
            proof {
                assert(ident_end(s@, i as int) == ident_end(s@, i as int + 1));
                lemma_ident_end_bounds(s@, i as int + 1);
            }
            return Some(Token { start: i, end: e, next: n });
        }
    }
    None
}

/// Lexes the one-byte symbol `c`.
pub fn symbol(s: &[u8], i: usize, c: u8) -> (r: Option<Token>)
    requires
        i <= s@.len(),
    ensures
        r == spec_symbol(s@, i as int, c),
        r matches Some(t) ==> token_ok(s@, i as int, t) && t.end > t.start,
{
    if i < s.len() && s[i] == c {
        let n = skip_ws(s, i + 1);
        Some(Token { start: i, end: i + 1, next: n })
    } else {
        None
    }
}

/// Lexes a single dot.
pub fn dot(s: &[u8], i: usize) -> (r: Option<Token>)
    requires
        i <= s@.len(),
    ensures
        r == spec_dot(s@, i as int),
        r matches Some(t) ==> token_ok(s@, i as int, t) && t.end > t.start,
{
    if i < s.len() && s[i] == 46 && !(i + 1 < s.len() && s[i + 1] == 46) {
        let n = skip_ws(s, i + 1);
        Some(Token { start: i, end: i + 1, next: n })
    } else {
        None
    }
}

/// Lexes `..`.
pub fn dot_dot(s: &[u8], i: usize) -> (r: Option<Token>)
    requires
        i <= s@.len(),
    ensures
        r == spec_dot_dot(s@, i as int),
        r matches Some(t) ==> token_ok(s@, i as int, t) && t.end > t.start,
{
    if i < s.len() && i + 1 < s.len() && s[i] == 46 && s[i + 1] == 46 {
        let n = skip_ws(s, i + 2);
        Some(Token { start: i, end: i + 2, next: n })
    } else {
        None
    }
}

/// Lexes the end of a line.
pub fn end_of_line(s: &[u8], i: usize) -> (r: Option<Token>)
    requires
        i <= s@.len(),
    ensures
        r == spec_eol(s@, i as int),
        r matches Some(t) ==> token_ok(s@, i as int, t),
{
    let j = if i < s.len() && s[i] == 35 {
        scan_comment(s, i)
    } else {
        i
    };
    if j == s.len() {
        let n = skip_blank(s, j);
        Some(Token { start: i, end: j, next: n })
    } else if s[j] == 10 {
        let n = skip_blank(s, j + 1);
        Some(Token { start: i, end: j + 1, next: n })
    } else {
        None
    }
}

/// Builds a string from ASCII bytes.
///
/// Calls `String::from_utf8`, which succeeds on every sequence of ASCII
/// bytes, and gives back the bytes as the characters with the same codes.
#[verifier::external_body]
fn string_from_ascii(v: Vec<u8>) -> (r: String)
    requires
        forall|k: int| 0 <= k < v@.len() ==> v@[k] < 128,
    ensures
        r@ == chars_of(v@),
{
    match String::from_utf8(v) {
        Ok(s) => s,
        Err(_) => String::new(),
    }
}

/// The text of an identifier or keyword lexeme `s[i..e]`.
pub fn ascii_text(s: &[u8], i: usize, e: usize) -> (r: String)
    requires
        i <= e <= s@.len(),
        forall|k: int| i <= k < e ==> is_ident_char(#[trigger] s@[k]),
    ensures
        r@ == chars_of(s@.subrange(i as int, e as int)),
{
    let mut v: Vec<u8> = Vec::new();
    let mut k = i;
    while k < e
        invariant
            i <= k <= e <= s@.len(),
            v@ == s@.subrange(i as int, k as int),
            forall|t: int| i <= t < e ==> is_ident_char(#[trigger] s@[t]),
        decreases e - k,
    {
        v.push(s[k]);
        k = k + 1;
        assert(v@ =~= s@.subrange(i as int, k as int));
    }
    proof {
        assert forall|t: int| 0 <= t < v@.len() implies v@[t] < 128 by {
            assert(is_ident_char(s@[i + t]));
        }
    }
    string_from_ascii(v)
}


/// What `String::from_utf8_lossy` gives for the bytes `b`.
pub uninterp spec fn utf8_lossy_text(b: Seq<u8>) -> Seq<char>;

/// Builds a string from bytes of source text.
///
/// Calls `String::from_utf8_lossy`, which gives the text the bytes encode,
/// with each invalid sequence replaced by U+FFFD; ASCII bytes give the
/// characters with the same codes.
#[verifier::external_body]
pub(crate) fn string_from_utf8_lossy(v: &[u8]) -> (r: String)
    ensures
        r@ == utf8_lossy_text(v@),
        (forall|k: int| 0 <= k < v@.len() ==> v@[k] < 128) ==> r@ == chars_of(v@),
{
    String::from_utf8_lossy(v).into_owned()
}

} // verus!
