//! Values of command-line options: variable lists, print modes and the
//! sections that can be selected for printing.
use vstd::prelude::*;
use vstd::string::StrSliceExecFns;

use crate::paths::string_of;

verus! {

// ------------------------------------------------------------------------
// Text helpers
// ------------------------------------------------------------------------

/// Whether `c` has the Unicode `White_Space` property, as
/// `char::is_whitespace` tests: tab through carriage return, space, next
/// line, no-break space, ogham space mark, the spaces from en quad to hair
/// space, line and paragraph separators, narrow no-break space, medium
/// mathematical space and ideographic space.
pub open spec fn char_is_whitespace(c: char) -> bool {
    let n = c as u32;
    ||| 0x09 <= n <= 0x0d
    ||| n == 0x20
    ||| n == 0x85
    ||| n == 0xa0
    ||| n == 0x1680
    ||| 0x2000 <= n <= 0x200a
    ||| n == 0x2028
    ||| n == 0x2029
    ||| n == 0x202f
    ||| n == 0x205f
    ||| n == 0x3000
}

/// What `str::to_lowercase` gives for `s`.
pub uninterp spec fn str_to_lowercase(s: Seq<char>) -> Seq<char>;

/// Whether `c` is white space.
fn is_whitespace(c: char) -> (r: bool)
    ensures
        r == char_is_whitespace(c),
{
    let n = c as u32;
    (0x09 <= n && n <= 0x0d) || n == 0x20 || n == 0x85 || n == 0xa0 || n == 0x1680 || (0x2000 <= n && n
        <= 0x200a) || n == 0x2028 || n == 0x2029 || n == 0x202f || n == 0x205f || n == 0x3000
}

/// Calls `str::to_lowercase`; the contract only names its result.
#[verifier::external_body]
fn to_lowercase(s: &str) -> (r: String)
    ensures
        r@ == str_to_lowercase(s@),
{
    s.to_lowercase()
}

/// The pieces of `s` between the occurrences of `sep` (one piece more than
/// there are separators), as `str::split` gives them.
pub open spec fn split_on(s: Seq<char>, sep: char) -> Seq<Seq<char>>
    decreases s.len(),
{
    if s.len() == 0 {
        seq![Seq::empty()]
    } else {
        let rest = split_on(s.drop_last(), sep);
        if s.last() == sep {
            rest.push(Seq::empty())
        } else {
            rest.update(rest.len() - 1, rest.last().push(s.last()))
        }
    }
}

/// The pieces joined with `sep` between them.
pub open spec fn join_with(parts: Seq<Seq<char>>, sep: char) -> Seq<char>
    decreases parts.len(),
{
    if parts.len() == 0 {
        Seq::empty()
    } else if parts.len() == 1 {
        parts[0]
    } else {
        join_with(parts.drop_last(), sep) + seq![sep] + parts.last()
    }
}

/// The end of the whitespace that starts at `i`.
pub open spec fn ws_prefix_end(s: Seq<char>, i: int) -> int
    decreases s.len() - i,
{
    if 0 <= i < s.len() && char_is_whitespace(s[i]) {
        ws_prefix_end(s, i + 1)
    } else {
        i
    }
}

/// The start of the whitespace that ends at `j`, not going below `lo`.
pub open spec fn ws_suffix_start(s: Seq<char>, j: int, lo: int) -> int
    decreases j - lo,
{
    if lo < j <= s.len() && char_is_whitespace(s[j - 1]) {
        ws_suffix_start(s, j - 1, lo)
    } else {
        j
    }
}

/// `s` without leading and trailing whitespace, as `str::trim` gives it.
pub open spec fn str_trim(s: Seq<char>) -> Seq<char> {
    let a = ws_prefix_end(s, 0);
    s.subrange(a, ws_suffix_start(s, s.len() as int, a))
}

proof fn lemma_split_nonempty(s: Seq<char>, sep: char)
    ensures
        split_on(s, sep).len() >= 1,
    decreases s.len(),
{
    if s.len() > 0 {
        lemma_split_nonempty(s.drop_last(), sep);
    }
}

proof fn lemma_ws_prefix_end(s: Seq<char>, i: int)
    requires
        0 <= i <= s.len(),
    ensures
        i <= ws_prefix_end(s, i) <= s.len(),
    decreases s.len() - i,
{
    if i < s.len() && char_is_whitespace(s[i]) {
        lemma_ws_prefix_end(s, i + 1);
    }
}

proof fn lemma_ws_suffix_start(s: Seq<char>, j: int, lo: int)
    requires
        0 <= lo <= j <= s.len(),
    ensures
        lo <= ws_suffix_start(s, j, lo) <= j,
    decreases j - lo,
{
    if lo < j && char_is_whitespace(s[j - 1]) {
        lemma_ws_suffix_start(s, j - 1, lo);
    }
}

/// `s` without leading and trailing whitespace.
pub fn trim(s: &str) -> (r: &str)
    ensures
        r@ == str_trim(s@),
{
    let n = s.unicode_len();
    let mut a: usize = 0;
    proof {
        lemma_ws_prefix_end(s@, 0);
    }
    while a < n && is_whitespace(s.get_char(a))
        invariant
            a <= n,
            n == s@.len(),
            ws_prefix_end(s@, a as int) == ws_prefix_end(s@, 0),
        decreases n - a,
    {
        a = a + 1;
    }
    let mut b: usize = n;
    proof {
        lemma_ws_suffix_start(s@, n as int, a as int);
    }
    while b > a && is_whitespace(s.get_char(b - 1))
        invariant
            a <= b <= n,
            n == s@.len(),
            a == ws_prefix_end(s@, 0),
            ws_suffix_start(s@, b as int, a as int) == ws_suffix_start(s@, n as int, a as int),
        decreases b - a,
    {
        b = b - 1;
    }
    s.substring_char(a, b)
}

/// The pieces of `s` between the occurrences of `sep`.
pub fn split(s: &str, sep: char) -> (r: Vec<String>)
    ensures
        r.deep_view() == split_on(s@, sep),
{
    let n = s.unicode_len();
    let mut parts: Vec<String> = Vec::new();
    let mut start: usize = 0;
    let mut i: usize = 0;
    proof {
        assert(parts.deep_view() =~= Seq::<Seq<char>>::empty());
        assert(s@.take(0) =~= Seq::<char>::empty());
        assert(s@.subrange(0, 0) =~= Seq::<char>::empty());
        assert(parts.deep_view().push(s@.subrange(0, 0)) =~= split_on(s@.take(0), sep));
    }
    // `parts` holds the finished pieces; the current one is `s[start..i]`.
    while i < n
        invariant
            start <= i <= n,
            n == s@.len(),
            parts.deep_view().push(s@.subrange(start as int, i as int)) == split_on(s@.take(i as int), sep),
        decreases n - i,
    {
        let c = s.get_char(i);
        let ghost before = parts.deep_view();
        proof {
            lemma_split_nonempty(s@.take(i as int), sep);
            assert(s@.take(i + 1).drop_last() =~= s@.take(i as int));
            assert(s@.take(i + 1).last() == c);
        }
        if c == sep {
            let piece = string_of(s.substring_char(start, i));
            parts.push(piece);
            start = i + 1;
            proof {
                assert(s@.subrange(start as int, i + 1) =~= Seq::<char>::empty());
                assert(parts.deep_view().push(s@.subrange(start as int, i + 1)) =~= split_on(s@.take(i + 1), sep));
            }
        } else {
            proof {
                assert(s@.subrange(start as int, i + 1) =~= s@.subrange(start as int, i as int).push(c));
                assert(before.push(s@.subrange(start as int, i + 1)) =~= split_on(s@.take(i + 1), sep));
            }
        }
        i = i + 1;
    }
    let last = string_of(s.substring_char(start, n));
    parts.push(last);
    proof {
        assert(s@.take(n as int) =~= s@);
    }
    parts
}

/// The pieces joined with `sep` between them.
pub fn join(parts: &[String], sep: &str) -> (r: String)
    requires
        sep@.len() == 1,
    ensures
        r@ == join_with(parts@.map_values(|p: String| p@), sep@[0]),
{
    let ghost views = parts@.map_values(|p: String| p@);
    let mut r = string_of("");
    proof {
        reveal_strlit("");
        assert(r@ =~= join_with(views.take(0), sep@[0]));
    }
    let mut i: usize = 0;
    while i < parts.len()
        invariant
            i <= parts@.len(),
            sep@.len() == 1,
            views == parts@.map_values(|p: String| p@),
            r@ == join_with(views.take(i as int), sep@[0]),
        decreases parts@.len() - i,
    {
        if i > 0 {
            r.append(sep);
        }
        r.append(parts[i].as_str());
        proof {
            assert(views.take(i + 1).drop_last() =~= views.take(i as int));
            assert(sep@ =~= seq![sep@[0]]);
            if i == 0 {
                assert(r@ =~= join_with(views.take(1), sep@[0]));
            } else {
                assert(r@ =~= join_with(views.take(i as int), sep@[0]) + seq![sep@[0]] + views[i as int]);
            }
        }
        i = i + 1;
    }
    proof {
        assert(views.take(parts@.len() as int) =~= views);
    }
    r
}

/// Joining the pieces of a split gives back the text.
pub proof fn law_join_split(s: Seq<char>, sep: char)
    ensures
        join_with(split_on(s, sep), sep) == s,
    decreases s.len(),
{
    if s.len() > 0 {
        let rest = split_on(s.drop_last(), sep);
        law_join_split(s.drop_last(), sep);
        lemma_split_nonempty(s.drop_last(), sep);
        if s.last() == sep {
            assert(rest.push(Seq::empty()).drop_last() =~= rest);
            assert(s =~= join_with(rest, sep) + seq![sep] + Seq::<char>::empty());
        } else {
            lemma_join_update_last(rest, sep, rest.last().push(s.last()));
            assert(s =~= s.drop_last().push(s.last()));
        }
    }
}

/// Splitting text that ends with a separator-free piece extends the last
/// piece of the split by it.
proof fn lemma_split_append_free(x: Seq<char>, y: Seq<char>, sep: char)
    requires
        !y.contains(sep),
    ensures
        split_on(x + y, sep) == split_on(x, sep).update(
            split_on(x, sep).len() - 1,
            split_on(x, sep).last() + y,
        ),
    decreases y.len(),
{
    lemma_split_nonempty(x, sep);
    if y.len() == 0 {
        assert(x + y =~= x);
        assert(split_on(x, sep).last() + y =~= split_on(x, sep).last());
        assert(split_on(x, sep).update(split_on(x, sep).len() - 1, split_on(x, sep).last()) =~= split_on(x, sep));
    } else {
        let y0 = y.drop_last();
        assert(!y0.contains(sep)) by {
            if y0.contains(sep) {
                let k = choose|k: int| 0 <= k < y0.len() && y0[k] == sep;
                assert(y[k] == sep);
            }
        }
        lemma_split_append_free(x, y0, sep);
        assert((x + y).drop_last() =~= x + y0);
        assert((x + y).last() == y.last());
        assert(y.last() != sep) by {
            assert(y[y.len() - 1] == y.last());
        }
        lemma_split_nonempty(x + y0, sep);
        let r0 = split_on(x + y0, sep);
        assert(r0.last() =~= split_on(x, sep).last() + y0);
        assert(split_on(x, sep).last() + y =~= (split_on(x, sep).last() + y0).push(y.last()));
        assert(split_on(x + y, sep) =~= r0.update(r0.len() - 1, r0.last().push(y.last())));
        assert(split_on(x + y, sep) =~= split_on(x, sep).update(
            split_on(x, sep).len() - 1,
            split_on(x, sep).last() + y,
        ));
    }
}

/// Joining pieces that hold no separator and then splitting gives the
/// pieces back: a variable shown with dots reads back as the same variable.
pub proof fn law_split_join(parts: Seq<Seq<char>>, sep: char)
    requires
        parts.len() >= 1,
        forall|i: int| 0 <= i < parts.len() ==> !(#[trigger] parts[i]).contains(sep),
    ensures
        split_on(join_with(parts, sep), sep) == parts,
    decreases parts.len(),
{
    if parts.len() == 1 {
        lemma_split_append_free(Seq::empty(), parts[0], sep);
        assert(Seq::<char>::empty() + parts[0] =~= parts[0]);
        assert(split_on(Seq::<char>::empty(), sep) =~= seq![Seq::<char>::empty()]);
        assert(Seq::<char>::empty() + parts[0] =~= parts[0]);
        assert(seq![Seq::<char>::empty()].update(0, Seq::<char>::empty() + parts[0]) =~= parts);
    } else {
        let init = parts.drop_last();
        law_split_join(init, sep);
        let j = join_with(init, sep);
        let js = j + seq![sep];
        assert(js.drop_last() =~= j);
        assert(js.last() == sep);
        assert(split_on(js, sep) =~= init.push(Seq::<char>::empty()));
        lemma_split_append_free(js, parts.last(), sep);
        assert(parts.last() == parts[parts.len() - 1]);
        assert(Seq::<char>::empty() + parts.last() =~= parts.last());
        assert(init.push(Seq::<char>::empty()).update(init.len() as int, Seq::<char>::empty() + parts.last()) =~= parts);
    }
}

proof fn lemma_join_update_last(parts: Seq<Seq<char>>, sep: char, x: Seq<char>)
    requires
        parts.len() >= 1,
    ensures
        join_with(parts.update(parts.len() - 1, x), sep) =~= join_with(parts.drop_last(), sep) + (if parts.len()
            == 1 {
            Seq::<char>::empty()
        } else {
            seq![sep]
        }) + x,
        join_with(parts, sep) =~= join_with(parts.drop_last(), sep) + (if parts.len() == 1 {
            Seq::<char>::empty()
        } else {
            seq![sep]
        }) + parts.last(),
{
    assert(parts.update(parts.len() - 1, x).drop_last() =~= parts.drop_last());
    if parts.len() == 1 {
        assert(join_with(parts.drop_last(), sep) =~= Seq::<char>::empty());
    }
}

// ------------------------------------------------------------------------
// Variables
// ------------------------------------------------------------------------

/// A dotted variable name given on the command line: `param.sub1.sub2`.
#[derive(Debug)]
pub struct Variable {
    pub parts: Vec<String>,
}

impl Variable {
    /// The variable named by `s`: its pieces between the dots.
    pub fn parse(s: &str) -> (r: Variable)
        ensures
            r.parts.deep_view() == split_on(s@, '.'),
    {
        Variable { parts: split(s, '.') }
    }

    /// The pieces of the variable: `param.sub1.sub2` gives
    /// `["param", "sub1", "sub2"]`.
    pub fn to_vec(&self) -> (r: Vec<String>)
        ensures
            r.deep_view() == self.parts.deep_view(),
    {
        let mut r: Vec<String> = Vec::new();
        let mut i: usize = 0;
        while i < self.parts.len()
            invariant
                i <= self.parts@.len(),
                r@.len() == i,
                forall|j: int| 0 <= j < i ==> #[trigger] r@[j]@ == self.parts@[j]@,
            decreases self.parts@.len() - i,
        {
            r.push(self.parts[i].clone());
            i = i + 1;
        }
        assert(r.deep_view() =~= self.parts.deep_view());
        r
    }

    /// The variable written with dots between its pieces.
    pub fn to_display_string(&self) -> (r: String)
        ensures
            r@ == join_with(self.parts.deep_view(), '.'),
    {
        let dot = ".";
        proof {
            reveal_strlit(".");
        }
        let r = join(self.parts.as_slice(), dot);
        assert(self.parts@.map_values(|p: String| p@) =~= self.parts.deep_view());
        r
    }
}

/// A comma-separated list of variables given on the command line.
#[derive(Debug)]
pub struct VariableList {
    pub variables: Vec<Variable>,
}

/// The variables named by a comma-separated list: the non-empty pieces,
/// each trimmed and split at its dots.
pub open spec fn spec_variable_list(s: Seq<char>) -> Seq<Seq<Seq<char>>> {
    nonempty_variables(split_on(s, ','))
}

/// The variables of the non-empty pieces, in order.
pub open spec fn nonempty_variables(pieces: Seq<Seq<char>>) -> Seq<Seq<Seq<char>>>
    decreases pieces.len(),
{
    if pieces.len() == 0 {
        Seq::empty()
    } else {
        let rest = nonempty_variables(pieces.drop_last());
        if pieces.last().len() == 0 {
            rest
        } else {
            rest.push(split_on(str_trim(pieces.last()), '.'))
        }
    }
}

/// The pieces of each variable.
pub open spec fn variable_parts(vs: Seq<Variable>) -> Seq<Seq<Seq<char>>> {
    Seq::new(vs.len(), |i: int| vs[i].parts.deep_view())
}

impl VariableList {
    /// The variables of a comma-separated list; empty pieces are skipped
    /// and the others trimmed. It never fails.
    pub fn parse(s: &str) -> (r: VariableList)
        ensures
            variable_parts(r.variables@) == spec_variable_list(s@),
    {
        let pieces = split(s, ',');
        let ghost pv = pieces.deep_view();
        let mut variables: Vec<Variable> = Vec::new();
        let mut i: usize = 0;
        assert(pv.take(0) =~= Seq::<Seq<char>>::empty());
        assert(variable_parts(variables@) =~= Seq::<Seq<Seq<char>>>::empty());
        while i < pieces.len()
            invariant
                i <= pieces@.len(),
                pv == pieces.deep_view(),
                variable_parts(variables@) == nonempty_variables(pv.take(i as int)),
            decreases pieces@.len() - i,
        {
            let piece = pieces[i].as_str();
            proof {
                assert(pv.take(i + 1).drop_last() =~= pv.take(i as int));
                assert(pv.take(i + 1).last() == piece@);
            }
            if piece.unicode_len() > 0 {
                let v = Variable::parse(trim(piece));
                let ghost before = variables@;
                variables.push(v);
                proof {
                    assert(variable_parts(variables@) =~= variable_parts(before).push(v.parts.deep_view()));
                }
            }
            i = i + 1;
        }
        assert(pv.take(pieces@.len() as int) =~= pv);
        VariableList { variables }
    }

    /// The variables in order.
    pub fn iter(&self) -> (r: &[Variable])
        ensures
            r@ == self.variables@,
    {
        self.variables.as_slice()
    }

    /// The list written with commas between the variables.
    pub fn to_display_string(&self) -> (r: String)
        ensures
            r@ == join_with(
                Seq::new(self.variables@.len(), |i: int| join_with(self.variables@[i].parts.deep_view(), '.')),
                ',',
            ),
    {
        let mut texts: Vec<String> = Vec::new();
        let mut i: usize = 0;
        while i < self.variables.len()
            invariant
                i <= self.variables@.len(),
                texts@.len() == i,
                forall|j: int|
                    0 <= j < i ==> #[trigger] texts@[j]@ == join_with(self.variables@[j].parts.deep_view(), '.'),
            decreases self.variables@.len() - i,
        {
            texts.push(self.variables[i].to_display_string());
            i = i + 1;
        }
        let comma = ",";
        proof {
            reveal_strlit(",");
        }
        let r = join(texts.as_slice(), comma);
        assert(texts@.map_values(|p: String| p@) =~= Seq::new(
            self.variables@.len(),
            |i: int| join_with(self.variables@[i].parts.deep_view(), '.'),
        ));
        r
    }
}

// ------------------------------------------------------------------------
// Sections and print modes
// ------------------------------------------------------------------------

/// Whether the string `s` has the text `lit`.
fn has_text(s: &String, lit: &str) -> (r: bool)
    ensures
        r == (s@ == lit@),
{
    let l = string_of(lit);
    *s == l
}

/// A section of the IR that `dev print-ir --include` can select.
#[derive(Debug, Clone, Copy, PartialEq, Eq, Structural)]
pub enum IrIncludeSection {
    PythonImports,
    Submodels,
    References,
    Parameters,
    Tests,
}

/// The IR section named by a lowercase key.
pub open spec fn ir_section_of(key: Seq<char>) -> Option<IrIncludeSection> {
    if key == "python"@ {
        Some(IrIncludeSection::PythonImports)
    } else if key == "submodels"@ {
        Some(IrIncludeSection::Submodels)
    } else if key == "references"@ {
        Some(IrIncludeSection::References)
    } else if key == "parameters"@ {
        Some(IrIncludeSection::Parameters)
    } else if key == "tests"@ {
        Some(IrIncludeSection::Tests)
    } else {
        None
    }
}

/// The message for an unknown section name `s`, listing the valid names.
pub open spec fn unknown_section_message(s: Seq<char>, options: Seq<char>) -> Seq<char> {
    "unknown section \""@ + s + "\"; valid options are: "@ + options
}

/// The message for an unknown section `s`.
fn unknown_section(s: &str, options: &str) -> (r: String)
    ensures
        r@ == unknown_section_message(s@, options@),
{
    let mut r = string_of("unknown section \"");
    r.append(s);
    r.append("\"; valid options are: ");
    r.append(options);
    r
}

impl IrIncludeSection {
    /// The section named by a lowercase key.
    pub fn from_key(key: &str) -> (r: Option<Self>)
        ensures
            r == ir_section_of(key@),
    {
        let k = string_of(key);
        if has_text(&k, "python") {
            Some(IrIncludeSection::PythonImports)
        } else if has_text(&k, "submodels") {
            Some(IrIncludeSection::Submodels)
        } else if has_text(&k, "references") {
            Some(IrIncludeSection::References)
        } else if has_text(&k, "parameters") {
            Some(IrIncludeSection::Parameters)
        } else if has_text(&k, "tests") {
            Some(IrIncludeSection::Tests)
        } else {
            None
        }
    }

    /// The section named by `s`, ignoring surrounding whitespace and case;
    /// an unknown name gives a message listing the valid ones.
    pub fn parse(s: &str) -> (r: Result<Self, String>)
        ensures
            match r {
                Ok(x) => ir_section_of(str_to_lowercase(str_trim(s@))) == Some(x),
                Err(m) => ir_section_of(str_to_lowercase(str_trim(s@))) is None && m@ == unknown_section_message(
                    s@,
                    "python, submodels, references, parameters, tests"@,
                ),
            },
    {
        let key = to_lowercase(trim(s));
        match Self::from_key(key.as_str()) {
            Some(x) => Ok(x),
            None => Err(unknown_section(s, "python, submodels, references, parameters, tests")),
        }
    }
}

impl std::str::FromStr for IrIncludeSection {
    type Err = String;

    fn from_str(s: &str) -> (r: Result<Self, String>)
        ensures
            match r {
                Ok(x) => ir_section_of(str_to_lowercase(str_trim(s@))) == Some(x),
                Err(m) => ir_section_of(str_to_lowercase(str_trim(s@))) is None && m@ == unknown_section_message(
                    s@,
                    "python, submodels, references, parameters, tests"@,
                ),
            },
    {
        Self::parse(s)
    }
}

/// A section of a model result that `dev print-model-result --include` can
/// select.
#[derive(Debug, Clone, Copy, PartialEq, Eq, Structural)]
pub enum ModelResultIncludeSection {
    Submodels,
    References,
    Parameters,
    Tests,
}

/// The model-result section named by a lowercase key.
pub open spec fn result_section_of(key: Seq<char>) -> Option<ModelResultIncludeSection> {
    if key == "submodels"@ {
        Some(ModelResultIncludeSection::Submodels)
    } else if key == "references"@ {
        Some(ModelResultIncludeSection::References)
    } else if key == "parameters"@ {
        Some(ModelResultIncludeSection::Parameters)
    } else if key == "tests"@ {
        Some(ModelResultIncludeSection::Tests)
    } else {
        None
    }
}

impl ModelResultIncludeSection {
    /// The section named by a lowercase key.
    pub fn from_key(key: &str) -> (r: Option<Self>)
        ensures
            r == result_section_of(key@),
    {
        let k = string_of(key);
        if has_text(&k, "submodels") {
            Some(ModelResultIncludeSection::Submodels)
        } else if has_text(&k, "references") {
            Some(ModelResultIncludeSection::References)
        } else if has_text(&k, "parameters") {
            Some(ModelResultIncludeSection::Parameters)
        } else if has_text(&k, "tests") {
            Some(ModelResultIncludeSection::Tests)
        } else {
            None
        }
    }

    /// The section named by `s`, ignoring surrounding whitespace and case;
    /// an unknown name gives a message listing the valid ones.
    pub fn parse(s: &str) -> (r: Result<Self, String>)
        ensures
            match r {
                Ok(x) => result_section_of(str_to_lowercase(str_trim(s@))) == Some(x),
                Err(m) => result_section_of(str_to_lowercase(str_trim(s@))) is None && m@
                    == unknown_section_message(s@, "submodels, references, parameters, tests"@),
            },
    {
        let key = to_lowercase(trim(s));
        match Self::from_key(key.as_str()) {
            Some(x) => Ok(x),
            None => Err(unknown_section(s, "submodels, references, parameters, tests")),
        }
    }
}

impl std::str::FromStr for ModelResultIncludeSection {
    type Err = String;

    fn from_str(s: &str) -> (r: Result<Self, String>)
        ensures
            match r {
                Ok(x) => result_section_of(str_to_lowercase(str_trim(s@))) == Some(x),
                Err(m) => result_section_of(str_to_lowercase(str_trim(s@))) is None && m@
                    == unknown_section_message(s@, "submodels, references, parameters, tests"@),
            },
    {
        Self::parse(s)
    }
}

/// Which parameters are printed.
#[derive(Debug, Clone, Copy, PartialEq, Eq, Structural)]
pub enum PrintMode {
    Trace,
    Performance,
    All,
}

/// The print mode named by `s` (exactly `all`, `trace` or `perf`).
pub open spec fn print_mode_of(s: Seq<char>) -> Option<PrintMode> {
    if s == "all"@ {
        Some(PrintMode::All)
    } else if s == "trace"@ {
        Some(PrintMode::Trace)
    } else if s == "perf"@ {
        Some(PrintMode::Performance)
    } else {
        None
    }
}

impl PrintMode {
    /// The print mode named by `s`; anything else gives a message listing
    /// the valid names.
    pub fn parse(s: &str) -> (r: Result<Self, String>)
        ensures
            match r {
                Ok(x) => print_mode_of(s@) == Some(x),
                Err(m) => print_mode_of(s@) is None && m@ == "valid options are `all`, `trace`, or `perf`"@,
            },
    {
        let k = string_of(s);
        if has_text(&k, "all") {
            Ok(PrintMode::All)
        } else if has_text(&k, "trace") {
            Ok(PrintMode::Trace)
        } else if has_text(&k, "perf") {
            Ok(PrintMode::Performance)
        } else {
            Err(string_of("valid options are `all`, `trace`, or `perf`"))
        }
    }

    /// The name by which the mode is written.
    pub fn as_str(self) -> (r: &'static str)
        ensures
            r@ == mode_name(self),
    {
        match self {
            PrintMode::All => "all",
            PrintMode::Trace => "trace",
            PrintMode::Performance => "perf",
        }
    }
}

/// The name by which a print mode is written.
pub open spec fn mode_name(m: PrintMode) -> Seq<char> {
    match m {
        PrintMode::All => "all"@,
        PrintMode::Trace => "trace"@,
        PrintMode::Performance => "perf"@,
    }
}

/// Reading the name of a print mode gives the mode back.
pub proof fn law_print_mode_round_trip(m: PrintMode)
    ensures
        print_mode_of(mode_name(m)) == Some(m),
{
    reveal_strlit("all");
    reveal_strlit("trace");
    reveal_strlit("perf");
    assert("all"@.len() == 3);
    assert("trace"@.len() == 5);
    assert("perf"@.len() == 4);
}

impl Default for PrintMode {
    fn default() -> (r: Self)
        ensures
            r == PrintMode::Trace,
    {
        PrintMode::Trace
    }
}

impl std::str::FromStr for PrintMode {
    type Err = String;

    fn from_str(s: &str) -> (r: Result<Self, String>)
        ensures
            match r {
                Ok(x) => print_mode_of(s@) == Some(x),
                Err(m) => print_mode_of(s@) is None && m@ == "valid options are `all`, `trace`, or `perf`"@,
            },
    {
        Self::parse(s)
    }
}

impl std::str::FromStr for Variable {
    type Err = String;

    fn from_str(s: &str) -> (r: Result<Self, String>)
        ensures
            r matches Ok(v) && v.parts.deep_view() == split_on(s@, '.'),
    {
        Ok(Self::parse(s))
    }
}

impl std::str::FromStr for VariableList {
    type Err = String;

    fn from_str(s: &str) -> (r: Result<Self, String>)
        ensures
            r matches Ok(l) && variable_parts(l.variables@) == spec_variable_list(s@),
    {
        Ok(Self::parse(s))
    }
}

} // verus!
