//! Resolving a segment of a design application's target (`apply X to seg`)
//! against a model: by reference name, else by the unique reference whose
//! model file has that name.
use vstd::prelude::*;

use crate::imports::ReferenceImport;
use crate::ordmap::{key_index, map_get};
use crate::paths::{ModelPath, string_of};
use crate::resolver::{ModelResult, ResolutionContext, SpecLookup, lookup};

verus! {

/// What `std::path::Path::file_stem` gives for a path, as text.
pub uninterp spec fn path_file_stem(p: Seq<char>) -> Option<Seq<char>>;

/// What `std::path::Path::file_name` gives for a path, as text.
pub uninterp spec fn path_file_name(p: Seq<char>) -> Option<Seq<char>>;

/// Calls `std::path::Path::file_stem`; the contract only names its result.
#[verifier::external_body]
pub(crate) fn file_stem(path: &str) -> (r: Option<String>)
    ensures
        r.deep_view() == path_file_stem(path@),
{
    std::path::Path::new(path).file_stem().map(|s| s.to_string_lossy().into_owned())
}

/// Calls `std::path::Path::file_name`; the contract only names its result.
#[verifier::external_body]
fn file_name(path: &str) -> (r: Option<String>)
    ensures
        r.deep_view() == path_file_name(path@),
{
    std::path::Path::new(path).file_name().map(|s| s.to_string_lossy().into_owned())
}

/// How a model path is shown in messages: its file name, or the whole path
/// when it has none.
pub open spec fn displayed_path(p: Seq<char>) -> Seq<char> {
    match path_file_name(p) {
        Some(n) => n,
        None => p,
    }
}

/// Shows a model path in messages.
pub fn display_model_path(path: &ModelPath) -> (r: String)
    ensures
        r@ == displayed_path(path.deep_view()),
{
    match file_name(path.as_str()) {
        Some(n) => n,
        None => path.path.clone(),
    }
}

/// The names of the references whose model's file stem is `segment`, in
/// order.
pub open spec fn stem_matches(stems: Seq<(Seq<char>, Option<Seq<char>>)>, segment: Seq<char>) -> Seq<Seq<char>>
    decreases stems.len(),
{
    if stems.len() == 0 {
        Seq::empty()
    } else {
        let rest = stem_matches(stems.drop_last(), segment);
        if stems.last().1 == Some(segment) {
            rest.push(stems.last().0)
        } else {
            rest
        }
    }
}

/// The names, each in backquotes, separated by `, `.
pub open spec fn quoted_list(names: Seq<Seq<char>>) -> Seq<char>
    decreases names.len(),
{
    if names.len() == 0 {
        Seq::empty()
    } else if names.len() == 1 {
        "`"@ + names[0] + "`"@
    } else {
        quoted_list(names.drop_last()) + ", `"@ + names.last() + "`"@
    }
}

/// The outcome of the lookup by model file name: the unique matching
/// reference, or a message saying that none or several match.
pub open spec fn by_stem(
    stems: Seq<(Seq<char>, Option<Seq<char>>)>,
    segment: Seq<char>,
    model: Seq<char>,
) -> Result<Seq<char>, Seq<char>> {
    let m = stem_matches(stems, segment);
    if m.len() == 0 {
        Err(
            "no reference named `"@ + segment + "` (and no reference whose model is named `"@ + segment + "`) on `"@
                + model + "`"@,
        )
    } else if m.len() == 1 {
        Ok(m[0])
    } else {
        Err("segment `"@ + segment + "` is ambiguous on `"@ + model + "`: matches references "@ + quoted_list(m))
    }
}

/// The views of reference names with the file stems of their models.
pub open spec fn stem_views(s: Seq<(String, Option<String>)>) -> Seq<(Seq<char>, Option<Seq<char>>)> {
    Seq::new(s.len(), |i: int| (s[i].0@, s[i].1.deep_view()))
}

/// Chooses the reference a segment names among a model's references, given
/// each reference's name and the file stem of its model (`model` is how the
/// model is shown in messages).
pub fn segment_by_stem(segment: &str, model: &str, stems: &[(String, Option<String>)]) -> (r: Result<String, String>)
    ensures
        match r {
            Ok(n) => by_stem(stem_views(stems@), segment@, model@) == Ok::<Seq<char>, Seq<char>>(n@),
            Err(m) => by_stem(stem_views(stems@), segment@, model@) == Err::<Seq<char>, Seq<char>>(m@),
        },
{
    let ghost sv = stem_views(stems@);
    let seg = string_of(segment);
    let mut matches: Vec<String> = Vec::new();
    let mut i: usize = 0;
    assert(sv.take(0) =~= Seq::<(Seq<char>, Option<Seq<char>>)>::empty());
    assert(matches.deep_view() =~= Seq::<Seq<char>>::empty());
    while i < stems.len()
        invariant
            i <= stems@.len(),
            sv == stem_views(stems@),
            seg@ == segment@,
            matches.deep_view() == stem_matches(sv.take(i as int), segment@),
        decreases stems@.len() - i,
    {
        proof {
            assert(sv.take(i + 1).drop_last() =~= sv.take(i as int));
            assert(sv.take(i + 1).last() == sv[i as int]);
        }
        let is_match = match &stems[i].1 {
            Some(stem) => *stem == seg,
            None => false,
        };
        if is_match {
            let ghost before = matches.deep_view();
            matches.push(stems[i].0.clone());
            assert(matches.deep_view() =~= before.push(stems@[i as int].0@));
        }
        i = i + 1;
    }
    assert(sv.take(stems@.len() as int) =~= sv);
    if matches.len() == 0 {
        let mut m = string_of("no reference named `");
        m.append(segment);
        m.append("` (and no reference whose model is named `");
        m.append(segment);
        m.append("`) on `");
        m.append(model);
        m.append("`");
        Err(m)
    } else if matches.len() == 1 {
        Ok(matches[0].clone())
    } else {
        let mut m = string_of("segment `");
        m.append(segment);
        m.append("` is ambiguous on `");
        m.append(model);
        m.append("`: matches references ");
        let mut j: usize = 0;
        let ghost mv = matches.deep_view();
        let ghost prefix = m@;
        assert(mv.take(0) =~= Seq::<Seq<char>>::empty());
        assert(m@ =~= prefix + quoted_list(mv.take(0)));
        while j < matches.len()
            invariant
                j <= matches@.len(),
                mv == matches.deep_view(),
                m@ == prefix + quoted_list(mv.take(j as int)),
            decreases matches@.len() - j,
        {
            proof {
                assert(mv.take(j + 1).drop_last() =~= mv.take(j as int));
                assert(mv.take(j + 1).last() == matches@[j as int]@);
            }
            if j == 0 {
                m.append("`");
            } else {
                m.append(", `");
            }
            m.append(matches[j].as_str());
            m.append("`");
            proof {
                if j == 0 {
                    assert(quoted_list(mv.take(1)) =~= "`"@ + mv[0] + "`"@);
                }
                assert(m@ =~= prefix + quoted_list(mv.take(j + 1)));
            }
            j = j + 1;
        }
        assert(mv.take(matches@.len() as int) =~= mv);
        Err(m)
    }
}

/// The reference that `segment` names on the model at `model_path`: the
/// reference of that name if there is one, else the unique reference whose
/// model file has that name; otherwise why none could be chosen.
pub open spec fn spec_resolve_segment(
    reg: crate::resolver::SpecRegistry,
    model_path: Seq<char>,
    segment: Seq<char>,
) -> Result<Seq<char>, Seq<char>> {
    match lookup(reg, model_path) {
        SpecLookup::Found(m) => if key_index(m.references, segment) >= 0 {
            Ok(segment)
        } else {
            by_stem(
                Seq::new(
                    m.references.len(),
                    |i: int| (m.references[i].0, path_file_stem(m.references[i].1.path)),
                ),
                segment,
                displayed_path(model_path),
            )
        },
        _ => Err(
            "cannot resolve `"@ + segment + "` because target model `"@ + displayed_path(model_path)
                + "` failed to load"@,
        ),
    }
}

/// Resolves one segment of a design application's target against the
/// model at `model_path` (see [`spec_resolve_segment`]).
pub fn resolve_segment_in(model_path: &ModelPath, segment: &str, resolution_context: &ResolutionContext) -> (r: Result<
    String,
    String,
>)
    ensures
        match r {
            Ok(n) => spec_resolve_segment(resolution_context.registry(), model_path.deep_view(), segment@) == Ok::<
                Seq<char>,
                Seq<char>,
            >(n@),
            Err(m) => spec_resolve_segment(resolution_context.registry(), model_path.deep_view(), segment@) == Err::<
                Seq<char>,
                Seq<char>,
            >(m@),
        },
{
    let model = match resolution_context.lookup_model(model_path) {
        ModelResult::Found(m) => m,
        _ => {
            let mut m = string_of("cannot resolve `");
            m.append(segment);
            m.append("` because target model `");
            m.append(display_model_path(model_path).as_str());
            m.append("` failed to load");
            return Err(m);
        },
    };
    let candidate = string_of(segment);
    if model.references.contains_key(&candidate) {
        return Ok(candidate);
    }
    let refs = &model.references.entries;
    let mut stems: Vec<(String, Option<String>)> = Vec::new();
    let mut i: usize = 0;
    while i < refs.len()
        invariant
            i <= refs@.len(),
            stems@.len() == i,
            refs@ == model.references.entries@,
            forall|j: int|
                0 <= j < i ==> (#[trigger] stems@[j]).0@ == refs@[j].0@ && stems@[j].1.deep_view() == path_file_stem(
                    refs@[j].1.path.deep_view(),
                ),
        decreases refs@.len() - i,
    {
        let (name, import): &(String, ReferenceImport) = &refs[i];
        let stem = file_stem(import.path.as_str());
        stems.push((name.clone(), stem));
        i = i + 1;
    }
    let shown = display_model_path(model_path);
    proof {
        assert(stem_views(stems@) =~= Seq::new(
            model.references.deep_view().len(),
            |j: int| (model.references.deep_view()[j].0, path_file_stem(model.references.deep_view()[j].1.path)),
        ));
    }
    segment_by_stem(segment, shown.as_str(), stems.as_slice())
}

/// The path that the reference `rn` of the model at `consuming_model`
/// resolves to; `None` when that model is not resolved or has no such
/// reference.
pub fn lookup_referenced_model_path(
    consuming_model: &ModelPath,
    rn: &String,
    resolution_context: &ResolutionContext,
) -> (r: Option<ModelPath>)
    ensures
        match r {
            Some(p) => lookup(resolution_context.registry(), consuming_model.deep_view()) matches SpecLookup::Found(m)
                && map_get(m.references, rn@) matches Some(x) && p.deep_view() == x.path,
            None => !(lookup(resolution_context.registry(), consuming_model.deep_view()) matches SpecLookup::Found(m)
                && map_get(m.references, rn@) is Some),
        },
{
    match resolution_context.lookup_model(consuming_model) {
        ModelResult::Found(m) => match m.references.get(rn) {
            Some(r) => Some(r.path.duplicate()),
            None => None,
        },
        _ => None,
    }
}

} // verus!
