//! Pieces of the rendered instance tree, and the colours given to the
//! designs that contributed parameters.
use vstd::prelude::*;

use crate::analysis::set_insert;
use crate::design_segments::{file_stem, path_file_stem};
use crate::ordmap::{OrderedMap, key_index, map_get, map_insert};
use crate::paths::{ModelPath, string_of};

verus! {

/// A design file that contributed at least one parameter to a node, with
/// its index in the palette of design colours.
#[derive(Debug)]
pub struct AppliedDesign {
    pub design_name: String,
    pub color_index: usize,
}

/// A `ref` cross-link of a node: the alias and the referenced model's path.
#[derive(Debug)]
pub struct RenderedReference {
    pub alias: String,
    pub model_path: String,
}

/// Records that a design contributed a parameter: added it, or overrode
/// its value.
#[derive(Debug)]
pub struct DesignMark {
    pub design_name: String,
    pub is_addition: bool,
}

/// The byte offsets of a parameter expression in its source file.
#[derive(Debug, Clone, Copy, PartialEq, Eq, Structural)]
pub struct ExprSpan {
    pub start: usize,
    pub end: usize,
}

/// The design names of the marks, each once, in order of first appearance.
pub open spec fn designs_seen(marks: Seq<Option<Seq<char>>>) -> Seq<Seq<char>>
    decreases marks.len(),
{
    if marks.len() == 0 {
        Seq::empty()
    } else {
        match marks.last() {
            Some(n) => set_insert(designs_seen(marks.drop_last()), n),
            None => designs_seen(marks.drop_last()),
        }
    }
}

proof fn lemma_designs_seen_distinct(marks: Seq<Option<Seq<char>>>)
    ensures
        designs_seen(marks).no_duplicates(),
        designs_seen(marks).len() <= marks.len(),
    decreases marks.len(),
{
    if marks.len() > 0 {
        lemma_designs_seen_distinct(marks.drop_last());
        if let Some(n) = marks.last() {
            crate::analysis::law_set_insert_distinct(designs_seen(marks.drop_last()), n);
        }
    }
}

/// The colour map after giving each name that has none the next index.
pub open spec fn assign_colors(m: Seq<(Seq<char>, usize)>, names: Seq<Seq<char>>) -> Seq<(Seq<char>, usize)>
    decreases names.len(),
{
    if names.len() == 0 {
        m
    } else {
        let before = assign_colors(m, names.drop_last());
        if key_index(before, names.last()) >= 0 {
            before
        } else {
            map_insert(before, names.last(), before.len() as usize)
        }
    }
}

/// The colours of the map are exactly `0` to `m.len() - 1`, each given to
/// one design.
pub open spec fn colors_dense(m: Seq<(Seq<char>, usize)>) -> bool {
    &&& forall|i: int| 0 <= i < m.len() ==> (#[trigger] m[i]).1 < m.len()
    &&& forall|i: int, j: int| 0 <= i < m.len() && 0 <= j < m.len() && i != j ==> (#[trigger] m[i]).1 != (#[trigger] m[j]).1
}

/// The views of the marks' design names.
pub open spec fn mark_names(marks: Seq<Option<DesignMark>>) -> Seq<Option<Seq<char>>> {
    Seq::new(
        marks.len(),
        |i: int|
            match marks[i] {
                Some(m) => Some(m.design_name@),
                None => None,
            },
    )
}

/// The designs that contributed to a node's parameters (given by the
/// parameters' marks), each once in order of first appearance, with the
/// colour each has across the whole tree: the one it was given before, or
/// the next free index for a design met for the first time.
pub fn applied_designs(marks: &[Option<DesignMark>], color_map: &mut OrderedMap<usize>) -> (r: Vec<AppliedDesign>)
    requires
        old(color_map).deep_view().len() + marks@.len() < usize::MAX,
    ensures
        colors_dense(old(color_map).deep_view()) ==> colors_dense(final(color_map).deep_view()),
        final(color_map).deep_view() == assign_colors(old(color_map).deep_view(), designs_seen(mark_names(marks@))),
        r@.len() == designs_seen(mark_names(marks@)).len(),
        forall|i: int|
            0 <= i < r@.len() ==> (#[trigger] r@[i]).design_name@ == designs_seen(mark_names(marks@))[i] && map_get(
                final(color_map).deep_view(),
                r@[i].design_name@,
            ) == Some(r@[i].color_index),
{
    let ghost names = mark_names(marks@);
    // The distinct design names, in order of first appearance.
    let mut seen: Vec<String> = Vec::new();
    let mut i: usize = 0;
    assert(names.take(0) =~= Seq::<Option<Seq<char>>>::empty());
    assert(seen.deep_view() =~= Seq::<Seq<char>>::empty());
    while i < marks.len()
        invariant
            i <= marks@.len(),
            names == mark_names(marks@),
            seen.deep_view() == designs_seen(names.take(i as int)),
        decreases marks@.len() - i,
    {
        proof {
            assert(names.take(i + 1).drop_last() =~= names.take(i as int));
        }
        match &marks[i] {
            Some(mark) => {
                let name = mark.design_name.clone();
                crate::analysis::insert_name(&mut seen, name);
            },
            None => {},
        }
        i = i + 1;
    }
    assert(names.take(marks@.len() as int) =~= names);
    let ghost sv = seen.deep_view();
    proof {
        lemma_designs_seen_distinct(names);
        assert(seen@.len() == sv.len());
    }
    let ghost start = color_map.deep_view();
    let mut out: Vec<AppliedDesign> = Vec::new();
    let mut j: usize = 0;
    assert(sv.take(0) =~= Seq::<Seq<char>>::empty());
    while j < seen.len()
        invariant
            j <= seen@.len(),
            sv == seen.deep_view(),
            sv == designs_seen(names),
            sv.no_duplicates(),
            seen@.len() <= marks@.len(),
            start.len() + marks@.len() < usize::MAX,
            color_map.deep_view() == assign_colors(start, sv.take(j as int)),
            color_map.deep_view().len() <= start.len() + j,
            colors_dense(start) ==> colors_dense(color_map.deep_view()),
            out@.len() == j,
            forall|k: int|
                0 <= k < j ==> (#[trigger] out@[k]).design_name@ == sv[k] && map_get(
                    color_map.deep_view(),
                    out@[k].design_name@,
                ) == Some(out@[k].color_index),
        decreases seen@.len() - j,
    {
        let name = &seen[j];
        let ghost before = color_map.deep_view();
        proof {
            assert(sv.take(j + 1).drop_last() =~= sv.take(j as int));
            assert(sv.take(j + 1).last() == name@);
        }
        let color = match color_map.get(name) {
            Some(c) => *c,
            None => {
                let next = color_map.len();
                color_map.insert(name.clone(), next);
                proof {
                    crate::ordmap::lemma_key_index_from(before, name@, 0);
                    crate::ordmap::lemma_insert_get(before, name@, next);
                    if colors_dense(start) {
                        lemma_fresh_color_dense(before, name@);
                    }
                }
                next
            },
        };
        proof {
            crate::ordmap::lemma_key_index_from(before, name@, 0);
            crate::ordmap::lemma_insert_get(before, name@, before.len() as usize);
            assert forall|k: int| 0 <= k < j implies map_get(color_map.deep_view(), (#[trigger] out@[k]).design_name@)
                == Some(out@[k].color_index) by {
                assert(sv[k] != sv[j as int]);
            }
            assert(color_map.deep_view() == assign_colors(start, sv.take(j + 1)));
        }
        out.push(AppliedDesign { design_name: name.clone(), color_index: color });
        j = j + 1;
    }
    assert(sv.take(seen@.len() as int) =~= sv);
    out
}

proof fn lemma_fresh_color_dense(m: Seq<(Seq<char>, usize)>, k: Seq<char>)
    requires
        colors_dense(m),
        key_index(m, k) < 0,
        m.len() < usize::MAX,
    ensures
        colors_dense(map_insert(m, k, m.len() as usize)),
{
    let m2 = map_insert(m, k, m.len() as usize);
    crate::ordmap::lemma_key_index_from(m, k, 0);
    assert(m2 == m.push((k, m.len() as usize)));
    assert forall|i: int| 0 <= i < m2.len() implies (#[trigger] m2[i]).1 < m2.len() by {
        if i < m.len() {
            assert(m2[i] == m[i]);
        }
    }
    assert forall|i: int, j: int| 0 <= i < m2.len() && 0 <= j < m2.len() && i != j implies (#[trigger] m2[i]).1
        != (#[trigger] m2[j]).1 by {
        if i < m.len() {
            assert(m2[i] == m[i]);
        }
        if j < m.len() {
            assert(m2[j] == m[j]);
        }
    }
}

/// A design keeps its colour once it has one; a design met for the first
/// time gets a colour no design had before (the next free index); and when
/// the colours were exactly `0..len`, each once, they stay so.
pub proof fn law_colors_stable(m: Seq<(Seq<char>, usize)>, names: Seq<Seq<char>>, k: Seq<char>)
    requires
        m.len() + names.len() < usize::MAX,
    ensures
        map_get(m, k) is Some ==> map_get(assign_colors(m, names), k) == map_get(m, k),
        map_get(m, k) is None ==> (map_get(assign_colors(m, names), k) matches Some(c) ==> m.len() <= c),
        colors_dense(m) ==> colors_dense(assign_colors(m, names)),
        m.len() <= assign_colors(m, names).len() <= m.len() + names.len(),
    decreases names.len(),
{
    if names.len() > 0 {
        law_colors_stable(m, names.drop_last(), k);
        let before = assign_colors(m, names.drop_last());
        if key_index(before, names.last()) < 0 {
            crate::ordmap::lemma_key_index_from(before, names.last(), 0);
            crate::ordmap::lemma_insert_get(before, names.last(), before.len() as usize);
            if colors_dense(m) {
                lemma_fresh_color_dense(before, names.last());
            }
            if map_get(m, k) is Some && k == names.last() {
                crate::ordmap::lemma_key_index_from(before, k, 0);
            }
        }
    }
}


/// How many of `names[..i]` the map `m` has no colour for.
pub open spec fn fresh_before(m: Seq<(Seq<char>, usize)>, names: Seq<Seq<char>>, i: int) -> nat
    decreases i,
{
    if i <= 0 {
        0
    } else {
        fresh_before(m, names, i - 1) + if key_index(m, names[i - 1]) < 0 {
            1nat
        } else {
            0nat
        }
    }
}

/// The colour `assign_colors` gives the `j`-th name: its old colour, or the
/// map's old length plus the number of new names before it.
pub open spec fn expected_color(m: Seq<(Seq<char>, usize)>, names: Seq<Seq<char>>, j: int) -> Option<usize> {
    match map_get(m, names[j]) {
        Some(c) => Some(c),
        None => Some((m.len() + fresh_before(m, names, j)) as usize),
    }
}

proof fn lemma_assign_prefix(m: Seq<(Seq<char>, usize)>, names: Seq<Seq<char>>, n: int)
    requires
        names.no_duplicates(),
        0 <= n <= names.len(),
        m.len() + names.len() < usize::MAX,
    ensures
        assign_colors(m, names.take(n)).len() == m.len() + fresh_before(m, names, n),
        forall|x: Seq<char>|
            #[trigger] key_index(assign_colors(m, names.take(n)), x) >= 0 <==> (key_index(m, x) >= 0 || names.take(
                n,
            ).contains(x)),
        forall|j: int| 0 <= j < n ==> #[trigger] map_get(assign_colors(m, names.take(n)), names[j]) == expected_color(m, names, j),
    decreases n,
{
    let a = assign_colors(m, names.take(n));
    if n == 0 {
        assert(names.take(0) =~= Seq::<Seq<char>>::empty());
        assert forall|x: Seq<char>| #[trigger] key_index(a, x) >= 0 <==> (key_index(m, x) >= 0 || names.take(n).contains(x)) by {
            assert(a == m);
        }
    } else {
        lemma_assign_prefix(m, names, n - 1);
        let b = assign_colors(m, names.take(n - 1));
        let x0 = names[n - 1];
        assert(names.take(n).drop_last() =~= names.take(n - 1));
        assert(names.take(n).last() == x0);
        assert(names.take(n) =~= names.take(n - 1).push(x0));
        assert(!names.take(n - 1).contains(x0)) by {
            if names.take(n - 1).contains(x0) {
                let j = choose|j: int| 0 <= j < n - 1 && #[trigger] names.take(n - 1)[j] == x0;
                assert(names[j] == names[n - 1]);
            }
        }
        crate::ordmap::lemma_key_index_from(b, x0, 0);
        crate::ordmap::lemma_key_index_from(m, x0, 0);
        law_colors_stable(m, names.take(n - 1), x0);
        if key_index(b, x0) >= 0 {
            assert(a == b);
            assert(key_index(m, x0) >= 0);
            assert forall|x: Seq<char>| #[trigger] key_index(a, x) >= 0 <==> (key_index(m, x) >= 0 || names.take(n).contains(x)) by {
                assert(key_index(b, x) >= 0 <==> (key_index(m, x) >= 0 || names.take(n - 1).contains(x)));
                if x == x0 {
                } else {
                    assert(names.take(n).contains(x) <==> names.take(n - 1).contains(x)) by {
                        if names.take(n).contains(x) {
                            let j = choose|j: int| 0 <= j < n && #[trigger] names.take(n)[j] == x;
                            assert(j < n - 1);
                            assert(names.take(n - 1)[j] == x);
                        }
                    }
                }
            }
            assert forall|j: int| 0 <= j < n implies #[trigger] map_get(a, names[j]) == expected_color(m, names, j) by {
                if j == n - 1 {
                    crate::ordmap::lemma_key_index_from(m, names[j], 0);
                }
            }
        } else {
            crate::ordmap::lemma_insert_get(b, x0, b.len() as usize);
            assert(key_index(m, x0) < 0);
            assert forall|x: Seq<char>| #[trigger] key_index(a, x) >= 0 <==> (key_index(m, x) >= 0 || names.take(n).contains(x)) by {
                assert(key_index(b, x) >= 0 <==> (key_index(m, x) >= 0 || names.take(n - 1).contains(x)));
                if x != x0 {
                    assert(key_index(a, x) == key_index(b, x));
                    assert(names.take(n).contains(x) <==> names.take(n - 1).contains(x)) by {
                        if names.take(n).contains(x) {
                            let j = choose|j: int| 0 <= j < n && #[trigger] names.take(n)[j] == x;
                            assert(j < n - 1);
                            assert(names.take(n - 1)[j] == x);
                        }
                    }
                } else {
                    assert(names.take(n)[n - 1] == x0);
                }
            }
            assert forall|j: int| 0 <= j < n implies #[trigger] map_get(a, names[j]) == expected_color(m, names, j) by {
                if j < n - 1 {
                    assert(names[j] != x0);
                    assert(map_get(a, names[j]) == map_get(b, names[j]));
                }
            }
        }
    }
}

/// The colours `assign_colors` gives, in closed form: where the names are
/// distinct, a name with a colour keeps it, and the new names get the map's
/// old length, then the next index, and so on, in their order.
pub proof fn law_colors_closed_form(m: Seq<(Seq<char>, usize)>, names: Seq<Seq<char>>, j: int)
    requires
        names.no_duplicates(),
        m.len() + names.len() < usize::MAX,
        0 <= j < names.len(),
    ensures
        map_get(assign_colors(m, names), names[j]) == expected_color(m, names, j),
{
    lemma_assign_prefix(m, names, names.len() as int);
    assert(names.take(names.len() as int) =~= names);
}

/// The short name shown for a model or design file: the file name without
/// its directory and extension, or `model` where the path has none.
pub fn path_stem(path: &ModelPath) -> (r: String)
    ensures
        r@ == match path_file_stem(path.deep_view()) {
            Some(s) => s,
            None => "model"@,
        },
{
    match file_stem(path.as_str()) {
        Some(s) => s,
        None => string_of("model"),
    }
}

} // verus!
