//! Design contributions: the part of a design that lands on one instance,
//! together with the parts to forward to its child references; how two of
//! them are merged, and how parts aimed at an extracted submodel are
//! re-routed through the chain of aliases it was extracted along.
//!
//! The overrides, additions and reference replacements are carried as they
//! are: nothing here looks inside them.
use vstd::prelude::*;

use crate::imports::{SpecSubmodelImport, SubmodelImport};
use crate::ordmap::{OrderedMap, entries_insert, entries_remove, entries_view, key_index, map_get, map_insert, map_remove};
use crate::paths::ModelPath;

verus! {

/// An instance in the instance graph: the model file behind it and the
/// chain of aliases from the root instance that leads to it.
#[derive(Debug)]
pub struct InstanceKey {
    pub model_path: ModelPath,
    pub instance_path: Vec<String>,
}

impl DeepView for InstanceKey {
    type V = (Seq<char>, Seq<Seq<char>>);

    open spec fn deep_view(&self) -> (Seq<char>, Seq<Seq<char>>) {
        (self.model_path.deep_view(), self.instance_path.deep_view())
    }
}

impl InstanceKey {
    /// A copy of the key.
    pub fn duplicate(&self) -> (r: Self)
        ensures
            r.deep_view() == self.deep_view(),
    {
        let mut path: Vec<String> = Vec::new();
        let mut i: usize = 0;
        while i < self.instance_path.len()
            invariant
                i <= self.instance_path@.len(),
                path@.len() == i,
                forall|j: int| 0 <= j < i ==> #[trigger] path@[j]@ == self.instance_path@[j]@,
            decreases self.instance_path@.len() - i,
        {
            path.push(self.instance_path[i].clone());
            i = i + 1;
        }
        assert(path.deep_view() =~= self.instance_path.deep_view());
        InstanceKey { model_path: self.model_path.duplicate(), instance_path: path }
    }
}

/// The part of a design that lands on one instance: overrides of its
/// parameters, added parameters, and replaced references, anchored at the
/// instance whose scope the design's expressions are read in; and the parts
/// to forward to its child references.
#[derive(Debug)]
pub struct DesignContribution<O, A, R> {
    pub anchor_key: InstanceKey,
    pub overrides: OrderedMap<O>,
    pub additions: OrderedMap<A>,
    pub replacements: OrderedMap<R>,
    pub nested_by_ref: Vec<(String, DesignContribution<O, A, R>)>,
}

/// The view of a [`DesignContribution`].
pub struct SpecContribution<OV, AV, RV> {
    pub anchor_key: (Seq<char>, Seq<Seq<char>>),
    pub overrides: Seq<(Seq<char>, OV)>,
    pub additions: Seq<(Seq<char>, AV)>,
    pub replacements: Seq<(Seq<char>, RV)>,
    pub nested_by_ref: Seq<(Seq<char>, SpecContribution<OV, AV, RV>)>,
}

/// The view of a contribution and, recursively, of those it forwards.
pub open spec fn contribution_view<O: DeepView, A: DeepView, R: DeepView>(
    c: &DesignContribution<O, A, R>,
) -> SpecContribution<O::V, A::V, R::V>
    decreases c,
{
    SpecContribution {
        anchor_key: c.anchor_key.deep_view(),
        overrides: c.overrides.deep_view(),
        additions: c.additions.deep_view(),
        replacements: c.replacements.deep_view(),
        nested_by_ref: Seq::new(
            c.nested_by_ref@.len(),
            |i: int|
                if 0 <= i < c.nested_by_ref@.len() {
                    proof {
                        assert(decreases_to!(c => c.nested_by_ref));
                        assert(decreases_to!(c.nested_by_ref => c.nested_by_ref@));
                        assert(decreases_to!(c.nested_by_ref@ => c.nested_by_ref@[i]));
                        assert(decreases_to!(c.nested_by_ref@[i] => c.nested_by_ref@[i].1));
                    }
                    (c.nested_by_ref@[i].0@, contribution_view(&c.nested_by_ref@[i].1))
                } else {
                    arbitrary()
                },
        ),
    }
}

impl<O: DeepView, A: DeepView, R: DeepView> DeepView for DesignContribution<O, A, R> {
    type V = SpecContribution<O::V, A::V, R::V>;

    open spec fn deep_view(&self) -> SpecContribution<O::V, A::V, R::V> {
        contribution_view(self)
    }
}

/// The forwarded contributions have the view the contribution shows.
proof fn lemma_nested_view<O: DeepView, A: DeepView, R: DeepView>(c: &DesignContribution<O, A, R>)
    ensures
        entries_view(c.nested_by_ref@) == c.deep_view().nested_by_ref,
{
    assert(entries_view(c.nested_by_ref@) =~= c.deep_view().nested_by_ref);
}

/// A contribution with nothing in it.
pub open spec fn empty_contribution<OV, AV, RV>(anchor: (Seq<char>, Seq<Seq<char>>)) -> SpecContribution<OV, AV, RV> {
    SpecContribution {
        anchor_key: anchor,
        overrides: Seq::empty(),
        additions: Seq::empty(),
        replacements: Seq::empty(),
        nested_by_ref: Seq::empty(),
    }
}

/// The entries `e` after inserting each entry of `b` in turn.
pub open spec fn insert_all<V>(e: Seq<(Seq<char>, V)>, b: Seq<(Seq<char>, V)>) -> Seq<(Seq<char>, V)>
    decreases b.len(),
{
    if b.len() == 0 {
        e
    } else {
        map_insert(insert_all(e, b.drop_last()), b.last().0, b.last().1)
    }
}

/// The merge of two contributions to the same instance: the anchor of `a`,
/// and for every conflicting name the entry of `b`; forwarded
/// contributions of the same child are merged in turn.
pub open spec fn spec_merge<OV, AV, RV>(
    a: SpecContribution<OV, AV, RV>,
    b: SpecContribution<OV, AV, RV>,
) -> SpecContribution<OV, AV, RV>
    decreases b,
{
    SpecContribution {
        anchor_key: a.anchor_key,
        overrides: insert_all(a.overrides, b.overrides),
        additions: insert_all(a.additions, b.additions),
        replacements: insert_all(a.replacements, b.replacements),
        nested_by_ref: merge_nested(a.nested_by_ref, b.nested_by_ref),
    }
}

/// The forwarded contributions `an` after merging in each of `bn` in turn:
/// one for a child already present is merged with it and moves to the end.
pub open spec fn merge_nested<OV, AV, RV>(
    an: Seq<(Seq<char>, SpecContribution<OV, AV, RV>)>,
    bn: Seq<(Seq<char>, SpecContribution<OV, AV, RV>)>,
) -> Seq<(Seq<char>, SpecContribution<OV, AV, RV>)>
    decreases bn,
{
    if bn.len() == 0 {
        an
    } else {
        let rest = bn.subrange(0, bn.len() - 1);
        let acc = merge_nested(an, rest);
        let k = bn[bn.len() - 1].0;
        let v = bn[bn.len() - 1].1;
        proof {
            assert(decreases_to!(bn => bn[bn.len() - 1]));
            assert(decreases_to!(bn[bn.len() - 1] => bn[bn.len() - 1].1));
        }
        match map_get(acc, k) {
            Some(existing) => map_insert(map_remove(acc, k), k, spec_merge(existing, v)),
            None => map_insert(acc, k, v),
        }
    }
}

/// The elements of `v` in reverse order.
fn reversed<T>(v: Vec<T>) -> (r: Vec<T>)
    ensures
        r@.len() == v@.len(),
        forall|i: int| 0 <= i < r@.len() ==> r@[i] == v@[v@.len() - 1 - i],
{
    let ghost orig = v@;
    let mut v = v;
    let mut r: Vec<T> = Vec::new();
    while v.len() > 0
        invariant
            v@.len() + r@.len() == orig.len(),
            forall|i: int| 0 <= i < v@.len() ==> v@[i] == orig[i],
            forall|i: int| 0 <= i < r@.len() ==> r@[i] == orig[orig.len() - 1 - i],
        decreases v@.len(),
    {
        let x = v.pop().unwrap();
        r.push(x);
    }
    r
}

/// Inserts each entry of `b` into `e` in turn.
fn insert_all_into<V: DeepView>(e: &mut OrderedMap<V>, b: OrderedMap<V>)
    ensures
        final(e).deep_view() == insert_all(old(e).deep_view(), b.deep_view()),
{
    let ghost bv = b.deep_view();
    let ghost start = e.deep_view();
    let ghost be = b.entries@;
    let n = b.entries.len();
    let mut rev = reversed(b.entries);
    let mut i: usize = 0;
    assert(bv.take(0) =~= Seq::<(Seq<char>, V::V)>::empty());
    while rev.len() > 0
        invariant
            n == be.len(),
            bv == be.map_values(|p: (String, V)| (p.0@, p.1.deep_view())),
            i + rev@.len() == n,
            forall|j: int| 0 <= j < rev@.len() ==> rev@[j] == be[n - 1 - j],
            e.deep_view() == insert_all(start, bv.take(i as int)),
        decreases rev@.len(),
    {
        let (k, v) = rev.pop().unwrap();
        proof {
            assert(be[i as int] == (k, v));
            assert(bv.take(i + 1).drop_last() =~= bv.take(i as int));
            assert(bv.take(i + 1).last() == (k@, v.deep_view()));
        }
        e.insert(k, v);
        i = i + 1;
    }
    assert(bv.take(n as int) =~= bv);
}

impl<O: DeepView, A: DeepView, R: DeepView> DesignContribution<O, A, R> {
    /// A contribution with nothing in it, anchored at `anchor_key`.
    pub fn empty(anchor_key: InstanceKey) -> (r: Self)
        ensures
            r.deep_view() == empty_contribution::<O::V, A::V, R::V>(anchor_key.deep_view()),
    {
        let r = DesignContribution {
            anchor_key,
            overrides: OrderedMap::new(),
            additions: OrderedMap::new(),
            replacements: OrderedMap::new(),
            nested_by_ref: Vec::new(),
        };
        assert(r.deep_view().nested_by_ref =~= Seq::<(Seq<char>, SpecContribution<O::V, A::V, R::V>)>::empty());
        r
    }
}

/// Merges two contributions to the same instance; `b` wins where both
/// give an entry of the same name.
pub fn merge_contributions<O: DeepView, A: DeepView, R: DeepView>(
    a: DesignContribution<O, A, R>,
    b: DesignContribution<O, A, R>,
) -> (r: DesignContribution<O, A, R>)
    ensures
        r.deep_view() == spec_merge(a.deep_view(), b.deep_view()),
    decreases b,
{
    let ghost av = a.deep_view();
    let ghost bv = b.deep_view();
    let ghost b0 = b;
    proof {
        lemma_nested_view(&a);
        lemma_nested_view(&b);
    }
    let DesignContribution { anchor_key, mut overrides, mut additions, mut replacements, mut nested_by_ref } = a;
    let DesignContribution {
        anchor_key: _,
        overrides: b_overrides,
        additions: b_additions,
        replacements: b_replacements,
        nested_by_ref: b_nested,
    } = b;
    insert_all_into(&mut overrides, b_overrides);
    insert_all_into(&mut additions, b_additions);
    insert_all_into(&mut replacements, b_replacements);
    let ghost bn = bv.nested_by_ref;
    let ghost be = b_nested@;
    let ghost start = entries_view(nested_by_ref@);
    let n = b_nested.len();
    let mut rev = reversed(b_nested);
    let mut i: usize = 0;
    assert(bn.subrange(0, 0) =~= Seq::<(Seq<char>, SpecContribution<O::V, A::V, R::V>)>::empty());
    while rev.len() > 0
        invariant
            n == be.len(),
            b0 == b,
            be == b0.nested_by_ref@,
            bn == bv.nested_by_ref,
            bv == b0.deep_view(),
            bn == entries_view(b0.nested_by_ref@),
            i + rev@.len() == n,
            forall|j: int| 0 <= j < rev@.len() ==> rev@[j] == be[n - 1 - j],
            entries_view(nested_by_ref@) == merge_nested(start, bn.subrange(0, i as int)),
        decreases rev@.len(),
    {
        let (k, v) = rev.pop().unwrap();
        proof {
            assert(be[i as int] == (k, v));
            assert(bn[i as int] == (k@, v.deep_view()));
            assert(bn.subrange(0, i + 1).subrange(0, i as int) =~= bn.subrange(0, i as int));
            assert(bn.subrange(0, i + 1)[i as int] == bn[i as int]);
            assert(decreases_to!(b0 => b0.nested_by_ref));
            assert(decreases_to!(b0.nested_by_ref => b0.nested_by_ref@));
            assert(decreases_to!(b0.nested_by_ref@ => b0.nested_by_ref@[i as int]));
            assert(decreases_to!(b0.nested_by_ref@[i as int] => b0.nested_by_ref@[i as int].1));
            assert(v == b0.nested_by_ref@[i as int].1);
            assert(decreases_to!(b0 => v));
        }
        match entries_remove(&mut nested_by_ref, &k) {
            Some(existing) => {
                let merged = merge_contributions(existing, v);
                entries_insert(&mut nested_by_ref, k, merged);
            },
            None => {
                entries_insert(&mut nested_by_ref, k, v);
            },
        }
        i = i + 1;
    }
    assert(bn.subrange(0, n as int) =~= bn);
    let r = DesignContribution { anchor_key, overrides, additions, replacements, nested_by_ref };
    proof {
        lemma_nested_view(&r);
    }
    r
}

/// The contribution with its forwarded contributions replaced.
pub open spec fn with_nested<OV, AV, RV>(
    c: SpecContribution<OV, AV, RV>,
    nested: Seq<(Seq<char>, SpecContribution<OV, AV, RV>)>,
) -> SpecContribution<OV, AV, RV> {
    SpecContribution {
        anchor_key: c.anchor_key,
        overrides: c.overrides,
        additions: c.additions,
        replacements: c.replacements,
        nested_by_ref: nested,
    }
}

/// `t` with `payload` placed at the end of the chain of child references:
/// the missing steps are created empty (anchored where `payload` is), and
/// at the last step `payload` is merged into what is already there.
pub open spec fn spec_splice<OV, AV, RV>(
    t: SpecContribution<OV, AV, RV>,
    chain: Seq<Seq<char>>,
    payload: SpecContribution<OV, AV, RV>,
) -> SpecContribution<OV, AV, RV>
    decreases chain.len(),
{
    if chain.len() == 0 {
        t
    } else if chain.len() == 1 {
        let last = chain[0];
        match map_get(t.nested_by_ref, last) {
            Some(existing) => with_nested(
                t,
                map_insert(map_remove(t.nested_by_ref, last), last, spec_merge(existing, payload)),
            ),
            None => with_nested(t, map_insert(t.nested_by_ref, last, payload)),
        }
    } else {
        let seg = chain[0];
        let child = match map_get(t.nested_by_ref, seg) {
            Some(c) => c,
            None => empty_contribution(payload.anchor_key),
        };
        with_nested(t, map_insert(t.nested_by_ref, seg, spec_splice(child, chain.drop_first(), payload)))
    }
}

/// The texts of the chain from `start` on.
pub open spec fn chain_from(chain: Seq<String>, start: int) -> Seq<Seq<char>> {
    Seq::new((chain.len() - start) as nat, |i: int| chain[start + i]@)
}

fn splice_from<O: DeepView, A: DeepView, R: DeepView>(
    target: &mut DesignContribution<O, A, R>,
    chain: &[String],
    start: usize,
    payload: DesignContribution<O, A, R>,
)
    requires
        start <= chain@.len(),
    ensures
        final(target).deep_view() == spec_splice(old(target).deep_view(), chain_from(chain@, start as int), payload.deep_view()),
    decreases chain@.len() - start,
{
    let ghost tv = target.deep_view();
    let ghost pv = payload.deep_view();
    let ghost rest = chain_from(chain@, start as int);
    proof {
        lemma_nested_view(target);
    }
    if start == chain.len() {
        return;
    }
    if start + 1 == chain.len() {
        let last = &chain[start];
        match entries_remove(&mut target.nested_by_ref, last) {
            Some(existing) => {
                let merged = merge_contributions(existing, payload);
                entries_insert(&mut target.nested_by_ref, last.clone(), merged);
            },
            None => {
                entries_insert(&mut target.nested_by_ref, last.clone(), payload);
            },
        }
        proof {
            lemma_nested_view(target);
            assert(rest[0] == last@);
        }
        return;
    }
    let seg = &chain[start];
    let ghost seg_view = seg@;
    proof {
        assert(rest[0] == seg_view);
        assert(rest.drop_first() =~= chain_from(chain@, start + 1));
    }
    match crate::ordmap::entries_index_of(&target.nested_by_ref, seg) {
        Some(i) => {
            let (k, mut child) = target.nested_by_ref.remove(i);
            proof {
                assert(entries_view(old(target).nested_by_ref@)[i as int] == (k@, child.deep_view()));
                crate::ordmap::lemma_key_index_from(tv.nested_by_ref, seg_view, 0);
            }
            splice_from(&mut child, chain, start + 1, payload);
            target.nested_by_ref.insert(i, (k, child));
            proof {
                lemma_nested_view(target);
                assert(entries_view(target.nested_by_ref@) =~= tv.nested_by_ref.update(i as int, (seg_view, child.deep_view())));
            }
        },
        None => {
            let mut child: DesignContribution<O, A, R> = DesignContribution::empty(payload.anchor_key.duplicate());
            splice_from(&mut child, chain, start + 1, payload);
            let ghost before = entries_view(target.nested_by_ref@);
            target.nested_by_ref.push((seg.clone(), child));
            proof {
                lemma_nested_view(target);
                assert(entries_view(target.nested_by_ref@) =~= before.push((seg_view, child.deep_view())));
            }
        },
    }
}

/// Places `payload` at the end of `chain` under `target`, creating the
/// missing steps and merging with what is already at the end.
pub fn splice_into_chain<O: DeepView, A: DeepView, R: DeepView>(
    target: &mut DesignContribution<O, A, R>,
    chain: &[String],
    payload: DesignContribution<O, A, R>,
)
    ensures
        final(target).deep_view() == spec_splice(old(target).deep_view(), chain_from(chain@, 0), payload.deep_view()),
{
    splice_from(target, chain, 0, payload);
}

/// The aliases among the forwarded contributions' names that the model
/// declares as extracted submodels, in order.
pub open spec fn extracted_keys<OV, AV, RV>(
    nested: Seq<(Seq<char>, SpecContribution<OV, AV, RV>)>,
    subs: Seq<(Seq<char>, SpecSubmodelImport)>,
) -> Seq<Seq<char>>
    decreases nested.len(),
{
    if nested.len() == 0 {
        Seq::empty()
    } else {
        let rest = extracted_keys(nested.drop_last(), subs);
        let k = nested.last().0;
        match map_get(subs, k) {
            Some(s) => if s.submodel_path.len() > 0 {
                rest.push(k)
            } else {
                rest
            },
            None => rest,
        }
    }
}

/// The chain an extracted submodel is reached by: the parent's alias, then
/// the aliases navigated within it.
pub open spec fn extraction_path(s: SpecSubmodelImport) -> Seq<Seq<char>> {
    seq![s.reference_name] + s.submodel_path
}

/// Re-routes what is forwarded to the extracted submodel `alias` through
/// its extraction chain.
pub open spec fn rewrite_step<OV, AV, RV>(
    c: SpecContribution<OV, AV, RV>,
    subs: Seq<(Seq<char>, SpecSubmodelImport)>,
    alias: Seq<char>,
) -> SpecContribution<OV, AV, RV> {
    match map_get(subs, alias) {
        None => c,
        Some(imp) => match map_get(c.nested_by_ref, alias) {
            None => c,
            Some(child) => spec_splice(
                with_nested(c, map_remove(c.nested_by_ref, alias)),
                extraction_path(imp),
                child,
            ),
        },
    }
}

/// The re-routing of each alias in turn.
pub open spec fn rewrite_all<OV, AV, RV>(
    c: SpecContribution<OV, AV, RV>,
    subs: Seq<(Seq<char>, SpecSubmodelImport)>,
    aliases: Seq<Seq<char>>,
) -> SpecContribution<OV, AV, RV>
    decreases aliases.len(),
{
    if aliases.len() == 0 {
        c
    } else {
        rewrite_step(rewrite_all(c, subs, aliases.drop_last()), subs, aliases.last())
    }
}

/// What is forwarded to submodels that the model extracted with `with`,
/// re-routed through the parent reference and the extraction chain, so that
/// it reaches the instance the alias stands for.
pub open spec fn spec_rewrite<OV, AV, RV>(
    c: SpecContribution<OV, AV, RV>,
    subs: Seq<(Seq<char>, SpecSubmodelImport)>,
) -> SpecContribution<OV, AV, RV> {
    rewrite_all(c, subs, extracted_keys(c.nested_by_ref, subs))
}

/// Re-routes the parts of `contribution` forwarded to extracted submodels
/// of the model (given by its submodel imports) through their extraction
/// chains.
pub fn rewrite_extracted_aliases<O: DeepView, A: DeepView, R: DeepView>(
    contribution: &mut DesignContribution<O, A, R>,
    submodels: &OrderedMap<SubmodelImport>,
)
    ensures
        final(contribution).deep_view() == spec_rewrite(old(contribution).deep_view(), submodels.deep_view()),
{
    let ghost cv = contribution.deep_view();
    let ghost subs = submodels.deep_view();
    proof {
        lemma_nested_view(contribution);
    }
    let ghost nv = cv.nested_by_ref;
    let mut keys: Vec<String> = Vec::new();
    let mut i: usize = 0;
    assert(nv.take(0) =~= Seq::<(Seq<char>, SpecContribution<O::V, A::V, R::V>)>::empty());
    assert(keys.deep_view() =~= Seq::<Seq<char>>::empty());
    while i < contribution.nested_by_ref.len()
        invariant
            i <= contribution.nested_by_ref@.len(),
            cv == contribution.deep_view(),
            nv == cv.nested_by_ref,
            nv == entries_view(contribution.nested_by_ref@),
            subs == submodels.deep_view(),
            keys.deep_view() == extracted_keys(nv.take(i as int), subs),
        decreases contribution.nested_by_ref@.len() - i,
    {
        let k = &contribution.nested_by_ref[i].0;
        proof {
            assert(nv.take(i + 1).drop_last() =~= nv.take(i as int));
            assert(nv.take(i + 1).last().0 == k@);
        }
        let extracted = match submodels.get(k) {
            Some(s) => s.is_extracted(),
            None => false,
        };
        if extracted {
            let ghost before = keys.deep_view();
            keys.push(k.clone());
            assert(keys.deep_view() =~= before.push(k@));
        }
        i = i + 1;
    }
    assert(nv.take(nv.len() as int) =~= nv);
    let ghost kv = keys.deep_view();
    let mut j: usize = 0;
    assert(kv.take(0) =~= Seq::<Seq<char>>::empty());
    while j < keys.len()
        invariant
            j <= keys@.len(),
            kv == keys.deep_view(),
            subs == submodels.deep_view(),
            contribution.deep_view() == rewrite_all(cv, subs, kv.take(j as int)),
        decreases keys@.len() - j,
    {
        let alias = &keys[j];
        proof {
            assert(kv.take(j + 1).drop_last() =~= kv.take(j as int));
            assert(kv.take(j + 1).last() == alias@);
            lemma_nested_view(contribution);
        }
        let ghost before = contribution.deep_view();
        match submodels.get(alias) {
            None => {},
            Some(import) => {
                match entries_remove(&mut contribution.nested_by_ref, alias) {
                    None => {
                        proof {
                            lemma_nested_view(contribution);
                            assert(contribution.deep_view().nested_by_ref =~= before.nested_by_ref);
                            assert(contribution.deep_view() == before);
                        }
                    },
                    Some(child) => {
                        let mut chain: Vec<String> = Vec::new();
                        chain.push(import.reference_name.clone());
                        let mut m: usize = 0;
                        while m < import.submodel_path.len()
                            invariant
                                m <= import.submodel_path@.len(),
                                chain@.len() == m + 1,
                                chain@[0]@ == import.reference_name@,
                                forall|q: int| 0 <= q < m ==> #[trigger] chain@[q + 1]@ == import.submodel_path@[q]@,
                            decreases import.submodel_path@.len() - m,
                        {
                            chain.push(import.submodel_path[m].clone());
                            m = m + 1;
                        }
                        proof {
                            let ep = extraction_path(import.deep_view());
                            assert forall|q: int| 0 <= q < chain@.len() implies chain_from(chain@, 0)[q] == ep[q] by {
                                if q > 0 {
                                    assert(chain@[(q - 1) + 1]@ == import.submodel_path@[q - 1]@);
                                    assert(import.submodel_path.deep_view()[q - 1] == import.submodel_path@[q - 1]@);
                                }
                            }
                            assert(chain_from(chain@, 0) =~= ep);
                            lemma_nested_view(contribution);
                            assert(contribution.deep_view() == with_nested(before, map_remove(before.nested_by_ref, alias@)));
                        }
                        splice_into_chain(contribution, chain.as_slice(), child);
                        proof {
                            assert(contribution.deep_view() == rewrite_step(before, subs, alias@));
                        }
                    },
                }
            },
        }
        j = j + 1;
    }
    assert(kv.take(kv.len() as int) =~= kv);
}

/// No two entries share a name (true of every map of names).
pub open spec fn distinct_keys<V>(e: Seq<(Seq<char>, V)>) -> bool {
    forall|i: int, j: int| 0 <= i < j < e.len() ==> e[i].0 != e[j].0
}

pub proof fn lemma_insert_all_get<V>(e: Seq<(Seq<char>, V)>, b: Seq<(Seq<char>, V)>, k: Seq<char>)
    requires
        distinct_keys(b),
    ensures
        map_get(insert_all(e, b), k) == if key_index(b, k) >= 0 {
            map_get(b, k)
        } else {
            map_get(e, k)
        },
    decreases b.len(),
{
    if b.len() > 0 {
        let init = b.drop_last();
        assert(distinct_keys(init));
        lemma_insert_all_get(e, init, k);
        crate::ordmap::lemma_insert_get(insert_all(e, init), b.last().0, b.last().1);
        assert(init.push(b.last()) =~= b);
        crate::ordmap::lemma_key_index_push(init, b.last(), k, 0);
        crate::ordmap::lemma_key_index_from(init, k, 0);
        crate::ordmap::lemma_key_index_from(b, k, 0);
        if k == b.last().0 {
            if key_index(init, k) >= 0 {
                let q = key_index(init, k);
                assert(b[q].0 == b[b.len() - 1].0);
            }
        }
    }
}

/// Merging a contribution `b` into `a`: `b`'s entry wins for every name it
/// gives, `a`'s entry stays for every other name, and merging in an empty
/// contribution changes nothing.
pub proof fn law_merge_prefers_later<OV, AV, RV>(
    a: SpecContribution<OV, AV, RV>,
    b: SpecContribution<OV, AV, RV>,
    k: Seq<char>,
)
    requires
        distinct_keys(b.overrides),
        distinct_keys(b.additions),
        distinct_keys(b.replacements),
    ensures
        map_get(spec_merge(a, b).overrides, k) == if key_index(b.overrides, k) >= 0 {
            map_get(b.overrides, k)
        } else {
            map_get(a.overrides, k)
        },
        map_get(spec_merge(a, b).additions, k) == if key_index(b.additions, k) >= 0 {
            map_get(b.additions, k)
        } else {
            map_get(a.additions, k)
        },
        map_get(spec_merge(a, b).replacements, k) == if key_index(b.replacements, k) >= 0 {
            map_get(b.replacements, k)
        } else {
            map_get(a.replacements, k)
        },
        spec_merge(a, empty_contribution(b.anchor_key)) == a,
        spec_merge(a, b).anchor_key == a.anchor_key,
{
    lemma_insert_all_get(a.overrides, b.overrides, k);
    lemma_insert_all_get(a.additions, b.additions, k);
    lemma_insert_all_get(a.replacements, b.replacements, k);
    let e = empty_contribution::<OV, AV, RV>(b.anchor_key);
    assert(spec_merge(a, e).nested_by_ref =~= a.nested_by_ref);
}

/// The declarative content of a design file: overrides of the target's
/// parameters, added parameters and replaced references, each also scoped
/// under a path of references from the target.
#[derive(Debug)]
pub struct Design<O, A, R> {
    pub target_model: Option<ModelPath>,
    pub parameter_overrides: OrderedMap<O>,
    pub parameter_additions: OrderedMap<A>,
    pub reference_replacements: OrderedMap<R>,
    pub scoped_overrides: Vec<(Vec<String>, OrderedMap<O>)>,
    pub scoped_replacements: Vec<(Vec<String>, OrderedMap<R>)>,
    pub scoped_additions: Vec<(Vec<String>, OrderedMap<A>)>,
}

impl<O: DeepView, A: DeepView, R: DeepView> Design<O, A, R> {
    /// A design with no target and no content.
    pub fn new() -> (r: Self)
        ensures
            r.target_model is None,
            r.parameter_overrides.deep_view().len() == 0,
            r.parameter_additions.deep_view().len() == 0,
            r.reference_replacements.deep_view().len() == 0,
            r.scoped_overrides@.len() == 0,
            r.scoped_replacements@.len() == 0,
            r.scoped_additions@.len() == 0,
    {
        Design {
            target_model: None,
            parameter_overrides: OrderedMap::new(),
            parameter_additions: OrderedMap::new(),
            reference_replacements: OrderedMap::new(),
            scoped_overrides: Vec::new(),
            scoped_replacements: Vec::new(),
            scoped_additions: Vec::new(),
        }
    }
}

/// The entries that a scoped part of a design adds at the end of its path.
pub enum SpecLeaf<OV, AV, RV> {
    Overrides(Seq<(Seq<char>, OV)>),
    Additions(Seq<(Seq<char>, AV)>),
    Replacements(Seq<(Seq<char>, RV)>),
}

/// `t` with the entries added to the matching map.
pub open spec fn add_at_leaf<OV, AV, RV>(t: SpecContribution<OV, AV, RV>, e: SpecLeaf<OV, AV, RV>) -> SpecContribution<
    OV,
    AV,
    RV,
> {
    match e {
        SpecLeaf::Overrides(o) => SpecContribution { overrides: insert_all(t.overrides, o), ..t },
        SpecLeaf::Additions(a) => SpecContribution { additions: insert_all(t.additions, a), ..t },
        SpecLeaf::Replacements(r) => SpecContribution { replacements: insert_all(t.replacements, r), ..t },
    }
}

/// `t` with the entries added at the end of the path of child references;
/// missing steps are created empty and anchored at `anchor`.
pub open spec fn spec_descend_add<OV, AV, RV>(
    t: SpecContribution<OV, AV, RV>,
    segments: Seq<Seq<char>>,
    anchor: (Seq<char>, Seq<Seq<char>>),
    e: SpecLeaf<OV, AV, RV>,
) -> SpecContribution<OV, AV, RV>
    decreases segments.len(),
{
    if segments.len() == 0 {
        add_at_leaf(t, e)
    } else {
        let child = match map_get(t.nested_by_ref, segments[0]) {
            Some(c) => c,
            None => empty_contribution(anchor),
        };
        with_nested(
            t,
            map_insert(t.nested_by_ref, segments[0], spec_descend_add(child, segments.drop_first(), anchor, e)),
        )
    }
}

/// The scoped parts, each added at its path in turn.
pub open spec fn add_scoped<OV, AV, RV>(
    t: SpecContribution<OV, AV, RV>,
    parts: Seq<(Seq<Seq<char>>, SpecLeaf<OV, AV, RV>)>,
    anchor: (Seq<char>, Seq<Seq<char>>),
) -> SpecContribution<OV, AV, RV>
    decreases parts.len(),
{
    if parts.len() == 0 {
        t
    } else {
        let before = add_scoped(t, parts.drop_last(), anchor);
        spec_descend_add(before, parts.last().0, anchor, parts.last().1)
    }
}

/// The scoped overrides of a design, as parts to add.
pub open spec fn override_parts<O: DeepView, A: DeepView, R: DeepView>(d: &Design<O, A, R>) -> Seq<
    (Seq<Seq<char>>, SpecLeaf<O::V, A::V, R::V>),
> {
    Seq::new(
        d.scoped_overrides@.len(),
        |i: int| (d.scoped_overrides@[i].0.deep_view(), SpecLeaf::Overrides(d.scoped_overrides@[i].1.deep_view())),
    )
}

/// The scoped replacements of a design, as parts to add.
pub open spec fn replacement_parts<O: DeepView, A: DeepView, R: DeepView>(d: &Design<O, A, R>) -> Seq<
    (Seq<Seq<char>>, SpecLeaf<O::V, A::V, R::V>),
> {
    Seq::new(
        d.scoped_replacements@.len(),
        |i: int|
            (d.scoped_replacements@[i].0.deep_view(), SpecLeaf::Replacements(d.scoped_replacements@[i].1.deep_view())),
    )
}

/// The scoped additions of a design, as parts to add.
pub open spec fn addition_parts<O: DeepView, A: DeepView, R: DeepView>(d: &Design<O, A, R>) -> Seq<
    (Seq<Seq<char>>, SpecLeaf<O::V, A::V, R::V>),
> {
    Seq::new(
        d.scoped_additions@.len(),
        |i: int| (d.scoped_additions@[i].0.deep_view(), SpecLeaf::Additions(d.scoped_additions@[i].1.deep_view())),
    )
}

/// The contribution of a design anchored at `anchor`: its flat overrides,
/// additions and replacements, with each scoped part placed at its path
/// (scoped overrides first, then replacements, then additions).
pub open spec fn spec_from_design<O: DeepView, A: DeepView, R: DeepView>(
    d: &Design<O, A, R>,
    anchor: (Seq<char>, Seq<Seq<char>>),
) -> SpecContribution<O::V, A::V, R::V> {
    let flat = SpecContribution {
        anchor_key: anchor,
        overrides: d.parameter_overrides.deep_view(),
        additions: d.parameter_additions.deep_view(),
        replacements: d.reference_replacements.deep_view(),
        nested_by_ref: Seq::empty(),
    };
    add_scoped(add_scoped(add_scoped(flat, override_parts(d), anchor), replacement_parts(d), anchor), addition_parts(d), anchor)
}

/// The entries a scoped part adds at the end of its path.
pub enum Leaf<O, A, R> {
    Overrides(OrderedMap<O>),
    Additions(OrderedMap<A>),
    Replacements(OrderedMap<R>),
}

/// The view of a [`Leaf`].
pub open spec fn leaf_view<O: DeepView, A: DeepView, R: DeepView>(e: &Leaf<O, A, R>) -> SpecLeaf<O::V, A::V, R::V> {
    match e {
        Leaf::Overrides(o) => SpecLeaf::Overrides(o.deep_view()),
        Leaf::Additions(a) => SpecLeaf::Additions(a.deep_view()),
        Leaf::Replacements(r) => SpecLeaf::Replacements(r.deep_view()),
    }
}

/// Adds the entries at the end of the path `segments[start..]` below
/// `target`, creating the missing steps anchored at `anchor`.
fn descend_or_create<O: DeepView, A: DeepView, R: DeepView>(
    target: &mut DesignContribution<O, A, R>,
    segments: &Vec<String>,
    start: usize,
    anchor: &InstanceKey,
    entries: Leaf<O, A, R>,
)
    requires
        start <= segments@.len(),
    ensures
        final(target).deep_view() == spec_descend_add(
            old(target).deep_view(),
            chain_from(segments@, start as int),
            anchor.deep_view(),
            leaf_view(&entries),
        ),
    decreases segments@.len() - start,
{
    let ghost tv = target.deep_view();
    let ghost rest = chain_from(segments@, start as int);
    proof {
        lemma_nested_view(target);
    }
    if start == segments.len() {
        match entries {
            Leaf::Overrides(o) => insert_all_into(&mut target.overrides, o),
            Leaf::Additions(a) => insert_all_into(&mut target.additions, a),
            Leaf::Replacements(r) => insert_all_into(&mut target.replacements, r),
        }
        proof {
            lemma_nested_view(target);
            assert(target.deep_view().nested_by_ref =~= tv.nested_by_ref);
        }
        return;
    }
    let seg = &segments[start];
    let ghost seg_view = seg@;
    proof {
        assert(rest[0] == seg_view);
        assert(rest.drop_first() =~= chain_from(segments@, start + 1));
    }
    match crate::ordmap::entries_index_of(&target.nested_by_ref, seg) {
        Some(i) => {
            let (k, mut child) = target.nested_by_ref.remove(i);
            proof {
                assert(entries_view(old(target).nested_by_ref@)[i as int] == (k@, child.deep_view()));
                crate::ordmap::lemma_key_index_from(tv.nested_by_ref, seg_view, 0);
            }
            descend_or_create(&mut child, segments, start + 1, anchor, entries);
            target.nested_by_ref.insert(i, (k, child));
            proof {
                lemma_nested_view(target);
                assert(entries_view(target.nested_by_ref@) =~= tv.nested_by_ref.update(i as int, (seg_view, child.deep_view())));
            }
        },
        None => {
            let mut child: DesignContribution<O, A, R> = DesignContribution::empty(anchor.duplicate());
            descend_or_create(&mut child, segments, start + 1, anchor, entries);
            let ghost before = entries_view(target.nested_by_ref@);
            target.nested_by_ref.push((seg.clone(), child));
            proof {
                lemma_nested_view(target);
                assert(entries_view(target.nested_by_ref@) =~= before.push((seg_view, child.deep_view())));
            }
        },
    }
}

/// Adds each scoped part of one kind, taken in order.
fn add_scoped_parts<O: DeepView, A: DeepView, R: DeepView>(
    target: &mut DesignContribution<O, A, R>,
    parts: Vec<(Vec<String>, Leaf<O, A, R>)>,
    anchor: &InstanceKey,
)
    ensures
        final(target).deep_view() == add_scoped(
            old(target).deep_view(),
            Seq::new(parts@.len(), |i: int| (parts@[i].0.deep_view(), leaf_view(&parts@[i].1))),
            anchor.deep_view(),
        ),
{
    let ghost pv = Seq::new(parts@.len(), |i: int| (parts@[i].0.deep_view(), leaf_view(&parts@[i].1)));
    let ghost start = target.deep_view();
    let ghost pe = parts@;
    let n = parts.len();
    let mut rev = reversed(parts);
    let mut i: usize = 0;
    assert(pv.take(0) =~= Seq::<(Seq<Seq<char>>, SpecLeaf<O::V, A::V, R::V>)>::empty());
    while rev.len() > 0
        invariant
            n == pe.len(),
            pv == Seq::new(pe.len(), |i: int| (pe[i].0.deep_view(), leaf_view(&pe[i].1))),
            i + rev@.len() == n,
            forall|j: int| 0 <= j < rev@.len() ==> rev@[j] == pe[n - 1 - j],
            target.deep_view() == add_scoped(start, pv.take(i as int), anchor.deep_view()),
        decreases rev@.len(),
    {
        let (path, entries) = rev.pop().unwrap();
        proof {
            assert(pe[i as int] == (path, entries));
            assert(pv.take(i + 1).drop_last() =~= pv.take(i as int));
            assert(pv.take(i + 1).last() == (path.deep_view(), leaf_view(&entries)));
            assert(chain_from(path@, 0) =~= path.deep_view());
        }
        descend_or_create(target, &path, 0, anchor, entries);
        i = i + 1;
    }
    assert(pv.take(n as int) =~= pv);
}

impl<O: DeepView, A: DeepView, R: DeepView> DesignContribution<O, A, R> {
    /// The contribution of `design` anchored at `anchor_key`: its flat
    /// parts land here, and each scoped part is placed under its path of
    /// child references. The design's entries are moved into the
    /// contribution.
    pub fn from_design(design: Design<O, A, R>, anchor_key: &InstanceKey) -> (r: Self)
        ensures
            r.deep_view() == spec_from_design(&design, anchor_key.deep_view()),
    {
        let ghost d0 = design;
        let Design {
            target_model: _,
            parameter_overrides,
            parameter_additions,
            reference_replacements,
            scoped_overrides,
            scoped_replacements,
            scoped_additions,
        } = design;
        let mut out = DesignContribution {
            anchor_key: anchor_key.duplicate(),
            overrides: parameter_overrides,
            additions: parameter_additions,
            replacements: reference_replacements,
            nested_by_ref: Vec::new(),
        };
        proof {
            assert(out.deep_view().nested_by_ref =~= Seq::<(Seq<char>, SpecContribution<O::V, A::V, R::V>)>::empty());
        }
        let mut parts: Vec<(Vec<String>, Leaf<O, A, R>)> = Vec::new();
        let ghost so = scoped_overrides@;
        let mut src = reversed(scoped_overrides);
        while src.len() > 0
            invariant
                parts@.len() + src@.len() == so.len(),
                forall|j: int| 0 <= j < src@.len() ==> src@[j] == so[so.len() - 1 - j],
                forall|j: int| 0 <= j < parts@.len() ==> #[trigger] parts@[j].0 == so[j].0 && leaf_view(&parts@[j].1)
                    == SpecLeaf::<O::V, A::V, R::V>::Overrides(so[j].1.deep_view()),
            decreases src@.len(),
        {
            let (path, entries) = src.pop().unwrap();
            parts.push((path, Leaf::Overrides(entries)));
        }
        proof {
            assert(Seq::new(parts@.len(), |i: int| (parts@[i].0.deep_view(), leaf_view(&parts@[i].1)))
                =~= override_parts(&d0));
        }
        add_scoped_parts(&mut out, parts, anchor_key);
        let mut parts: Vec<(Vec<String>, Leaf<O, A, R>)> = Vec::new();
        let ghost sr = scoped_replacements@;
        let mut src = reversed(scoped_replacements);
        while src.len() > 0
            invariant
                parts@.len() + src@.len() == sr.len(),
                forall|j: int| 0 <= j < src@.len() ==> src@[j] == sr[sr.len() - 1 - j],
                forall|j: int| 0 <= j < parts@.len() ==> #[trigger] parts@[j].0 == sr[j].0 && leaf_view(&parts@[j].1)
                    == SpecLeaf::<O::V, A::V, R::V>::Replacements(sr[j].1.deep_view()),
            decreases src@.len(),
        {
            let (path, entries) = src.pop().unwrap();
            parts.push((path, Leaf::Replacements(entries)));
        }
        proof {
            assert(Seq::new(parts@.len(), |i: int| (parts@[i].0.deep_view(), leaf_view(&parts@[i].1)))
                =~= replacement_parts(&d0));
        }
        add_scoped_parts(&mut out, parts, anchor_key);
        let mut parts: Vec<(Vec<String>, Leaf<O, A, R>)> = Vec::new();
        let ghost sa = scoped_additions@;
        let mut src = reversed(scoped_additions);
        while src.len() > 0
            invariant
                parts@.len() + src@.len() == sa.len(),
                forall|j: int| 0 <= j < src@.len() ==> src@[j] == sa[sa.len() - 1 - j],
                forall|j: int| 0 <= j < parts@.len() ==> #[trigger] parts@[j].0 == sa[j].0 && leaf_view(&parts@[j].1)
                    == SpecLeaf::<O::V, A::V, R::V>::Additions(sa[j].1.deep_view()),
            decreases src@.len(),
        {
            let (path, entries) = src.pop().unwrap();
            parts.push((path, Leaf::Additions(entries)));
        }
        proof {
            assert(Seq::new(parts@.len(), |i: int| (parts@[i].0.deep_view(), leaf_view(&parts@[i].1)))
                =~= addition_parts(&d0));
        }
        add_scoped_parts(&mut out, parts, anchor_key);
        out
    }
}

} // verus!
