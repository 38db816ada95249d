//! Model paths and the relative paths written in declarations.
use vstd::prelude::*;
use vstd::string::{StrSliceExecFns, StringExecFns};

use crate::ast::{
    DesignTarget, DirectoryNode, IdentifierNode, SpecDirectory, SpecNode, UseDesign, UseModel,
    spec_directory_text,
};

verus! {

/// The path of a model file, without its extension.
#[derive(Debug)]
pub struct ModelPath {
    pub path: String,
}

impl DeepView for ModelPath {
    type V = Seq<char>;

    open spec fn deep_view(&self) -> Seq<char> {
        self.path@
    }
}

/// Whether a path names a design file: its text ends in `.one`.
pub open spec fn is_design_path(p: Seq<char>) -> bool {
    p.len() >= 4 && p.subrange(p.len() - 4, p.len() as int) == ".one"@
}

/// The position of the last `/` before position `i`, or -1.
pub open spec fn last_slash_before(p: Seq<char>, i: int) -> int
    decreases i,
{
    if i <= 0 {
        -1
    } else if p[i - 1] == '/' {
        i - 1
    } else {
        last_slash_before(p, i - 1)
    }
}

/// The directory part of a path, including its final `/` (empty when the
/// path has no `/`).
pub open spec fn directory_of(p: Seq<char>) -> Seq<char> {
    p.take(last_slash_before(p, p.len() as int) + 1)
}

/// The path of a model named by `relative` from the directory of `p`.
pub open spec fn sibling_path(p: Seq<char>, relative: Seq<char>) -> Seq<char> {
    directory_of(p) + relative
}

/// The parts joined with `/`.
pub open spec fn join_slash(parts: Seq<Seq<char>>) -> Seq<char>
    decreases parts.len(),
{
    if parts.len() == 0 {
        seq![]
    } else if parts.len() == 1 {
        parts[0]
    } else {
        join_slash(parts.drop_last()) + seq!['/'] + parts.last()
    }
}

/// The relative path `dir/dir/name` of a declaration.
pub open spec fn relative_path(dirs: Seq<SpecNode<SpecDirectory>>, name: Seq<char>) -> Seq<char> {
    join_slash(dirs.map_values(|d: SpecNode<SpecDirectory>| spec_directory_text(d.value)).push(name))
}

proof fn lemma_last_slash(p: Seq<char>, i: int)
    requires
        0 <= i <= p.len(),
    ensures
        -1 <= last_slash_before(p, i) < i,
        last_slash_before(p, i) >= 0 ==> p[last_slash_before(p, i)] == '/',
    decreases i,
{
    if i > 0 && p[i - 1] != '/' {
        lemma_last_slash(p, i - 1);
    }
}

/// The string with the same characters as `s`.
pub fn string_of(s: &str) -> (r: String)
    ensures
        r@ == s@,
{
    <String as StringExecFns>::from_str(s)
}

impl ModelPath {
    /// The model path with the given text.
    pub fn new(path: String) -> (r: Self)
        ensures
            r.deep_view() == path@,
    {
        ModelPath { path }
    }

    /// The path's text.
    pub fn as_str(&self) -> (r: &str)
        ensures
            r@ == self.deep_view(),
    {
        self.path.as_str()
    }

    /// Whether the path names a design file: one whose name ends in `.one`.
    pub fn is_design_file(&self) -> (r: bool)
        ensures
            r == is_design_path(self.deep_view()),
    {
        let s = self.path.as_str();
        let n = s.unicode_len();
        if n < 4 {
            return false;
        }
        let r = s.get_char(n - 4) == '.' && s.get_char(n - 3) == 'o' && s.get_char(n - 2) == 'n' && s.get_char(n - 1) == 'e';
        proof {
            reveal_strlit(".one");
            let t = self.deep_view().subrange(n - 4, n as int);
            assert(t[0] == s@[n - 4] && t[1] == s@[n - 3] && t[2] == s@[n - 2] && t[3] == s@[n - 1]);
            if r {
                assert(t =~= ".one"@);
            } else if t == ".one"@ {
                assert(".one"@[0] == '.' && ".one"@[1] == 'o' && ".one"@[2] == 'n' && ".one"@[3] == 'e');
            }
        }
        r
    }

    /// A copy of the path.
    pub fn duplicate(&self) -> (r: Self)
        ensures
            r.deep_view() == self.deep_view(),
    {
        ModelPath { path: self.path.clone() }
    }

    /// Whether two paths are the same.
    pub fn same_as(&self, other: &ModelPath) -> (r: bool)
        ensures
            r == (self.deep_view() == other.deep_view()),
    {
        self.path == other.path
    }

    /// The path of the model named by `relative`, taken from this model's
    /// directory.
    pub fn get_sibling_model_path(&self, relative: &ModelPath) -> (r: ModelPath)
        ensures
            r.deep_view() == sibling_path(self.deep_view(), relative.deep_view()),
    {
        let s = self.path.as_str();
        let n = s.unicode_len();
        let mut i = n;
        proof {
            lemma_last_slash(s@, n as int);
        }
        while i > 0 && s.get_char(i - 1) != '/'
            invariant
                i <= n,
                n == s@.len(),
                last_slash_before(s@, i as int) == last_slash_before(s@, n as int),
            decreases i,
        {
            i = i - 1;
        }
        let dir = s.substring_char(0, i);
        let mut r = string_of(dir);
        r.append(relative.path.as_str());
        proof {
            assert(dir@ =~= directory_of(s@));
        }
        ModelPath { path: r }
    }
}

/// The parts joined with `/`.
fn join_parts(parts: &Vec<&str>) -> (r: String)
    ensures
        r@ == join_slash(parts@.map_values(|p: &str| p@)),
{
    let ghost views = parts@.map_values(|p: &str| p@);
    let mut r = string_of("");
    proof {
        reveal_strlit("");
        assert(r@ =~= join_slash(views.take(0)));
    }
    let mut i: usize = 0;
    while i < parts.len()
        invariant
            i <= parts@.len(),
            views == parts@.map_values(|p: &str| p@),
            r@ == join_slash(views.take(i as int)),
        decreases parts@.len() - i,
    {
        if i > 0 {
            r.append("/");
            proof {
                reveal_strlit("/");
            }
        }
        r.append(parts[i]);
        proof {
            assert(views.take(i + 1).drop_last() =~= views.take(i as int));
            if i == 0 {
                assert(r@ =~= join_slash(views.take(1)));
            } else {
                assert(r@ =~= join_slash(views.take(i as int)) + seq!['/'] + views[i as int]);
            }
        }
        i = i + 1;
    }
    proof {
        assert(views.take(parts@.len() as int) =~= views);
    }
    r
}

/// The relative path of a declaration: its directory path followed by `name`.
fn relative_path_of(dirs: &[DirectoryNode], name: &IdentifierNode) -> (r: ModelPath)
    ensures
        r.deep_view() == relative_path(dirs@.map_values(|d: DirectoryNode| d.deep_view()), name.deep_view().value),
{
    let mut parts: Vec<&str> = Vec::new();
    let mut i: usize = 0;
    while i < dirs.len()
        invariant
            i <= dirs@.len(),
            parts@.len() == i,
            forall|k: int| 0 <= k < i ==> #[trigger] parts@[k]@ == spec_directory_text(dirs@[k].deep_view().value),
        decreases dirs@.len() - i,
    {
        parts.push(dirs[i].value().as_str());
        i = i + 1;
    }
    parts.push(name.value().as_str());
    let r = join_parts(&parts);
    proof {
        let dv = dirs@.map_values(|d: DirectoryNode| d.deep_view());
        assert(parts@.map_values(|p: &str| p@) =~= dv.map_values(
            |d: SpecNode<SpecDirectory>| spec_directory_text(d.value),
        ).push(name.deep_view().value));
    }
    ModelPath { path: r }
}

impl UseModel {
    /// The relative path of the used model: the directory path followed by
    /// the top component.
    pub fn get_model_relative_path(&self) -> (r: ModelPath)
        ensures
            r.deep_view() == relative_path(self.deep_view().directory_path, self.deep_view().model.value.top_component.value),
    {
        let r = relative_path_of(self.directory_path.as_slice(), &self.model.value.top_component);
        proof {
            assert(self.directory_path@.map_values(|d: DirectoryNode| d.deep_view()) =~= self.deep_view().directory_path);
        }
        r
    }
}

impl DesignTarget {
    /// The relative path of the target model.
    pub fn get_target_relative_path(&self) -> (r: ModelPath)
        ensures
            r.deep_view() == relative_path(self.deep_view().directory_path, self.deep_view().target.value),
    {
        let r = relative_path_of(self.directory_path.as_slice(), &self.target);
        proof {
            assert(self.directory_path@.map_values(|d: DirectoryNode| d.deep_view()) =~= self.deep_view().directory_path);
        }
        r
    }
}

impl UseDesign {
    /// The relative path of the design file.
    pub fn get_design_relative_path(&self) -> (r: ModelPath)
        ensures
            r.deep_view() == relative_path(self.deep_view().directory_path, self.deep_view().design_file.value),
    {
        let r = relative_path_of(self.directory_path.as_slice(), &self.design_file);
        proof {
            assert(self.directory_path@.map_values(|d: DirectoryNode| d.deep_view()) =~= self.deep_view().directory_path);
        }
        r
    }
}

} // verus!
