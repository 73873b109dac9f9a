//! Filesystem paths as the indexer sees them: their text, their components,
//! and their final component. Containment of one path in another is decided
//! on whole components, never on a string prefix.

use vstd::prelude::*;

use crate::text::{chars_of, push_char};

verus! {

/// What `Path::components` yields for the path written as `text`, each
/// component as text. How a path splits depends on the platform's path
/// syntax (separators, prefixes, `.` and `..`), which takes pages to state;
/// it depends on the text alone.
pub uninterp spec fn std_path_components(text: Seq<char>) -> Seq<Seq<char>>;

/// What `Path::file_name` yields for the path written as `text`.
pub uninterp spec fn std_path_file_name(text: Seq<char>) -> Option<Seq<char>>;

/// Wraps `Path::components`, each component rendered as text
/// (`Component::as_os_str`). Claims that the result is
/// `std_path_components` of the text.
#[verifier::external_body]
fn path_components(text: &str) -> (r: Vec<String>)
    ensures
        r.deep_view() == std_path_components(text@),
{
    std::path::Path::new(text).components().map(|c| c.as_os_str().to_string_lossy().into_owned()).collect()
}

/// Wraps `Path::file_name` (read as UTF-8, which it always is for a path
/// given as `&str`). Claims that the result is `std_path_file_name` of the
/// text and, as the documentation says, that a file name, when there is
/// one, is the final component.
#[verifier::external_body]
fn path_file_name(text: &str) -> (r: Option<String>)
    ensures
        option_string_view(r) == std_path_file_name(text@),
        r matches Some(n) ==> std_path_components(text@).len() > 0 && n@ == std_path_components(text@).last(),
{
    match std::path::Path::new(text).file_name() {
        Some(name) => match name.to_str() {
            Some(s) => Some(s.to_string()),
            None => None,
        },
        None => None,
    }
}

/// A path: the text it was made from, its components, and its file name
/// (the final component when that is a normal name).
#[derive(Clone, Debug, PartialEq, Eq)]
pub struct DocPath {
    text: String,
    components: Vec<String>,
    file_name: Option<String>,
}

pub struct DocPathView {
    pub text: Seq<char>,
    pub components: Seq<Seq<char>>,
    pub file_name: Option<Seq<char>>,
}

pub open spec fn option_string_view(o: Option<String>) -> Option<Seq<char>> {
    match o {
        Some(s) => Some(s@),
        None => None,
    }
}

/// The path written as `text`: its components and file name as the
/// platform's path syntax reads them.
pub open spec fn parsed_path(text: Seq<char>) -> DocPathView {
    DocPathView { text, components: std_path_components(text), file_name: std_path_file_name(text) }
}

impl View for DocPath {
    type V = DocPathView;

    closed spec fn view(&self) -> DocPathView {
        DocPathView {
            text: self.text@,
            components: self.components.deep_view(),
            file_name: option_string_view(self.file_name),
        }
    }
}

pub fn copy_string(s: &String) -> (r: String)
    ensures
        r@ == s@,
{
    s.clone()
}

fn copy_strings(v: &Vec<String>) -> (r: Vec<String>)
    ensures
        r.deep_view() == v.deep_view(),
{
    let mut r: Vec<String> = Vec::new();
    let mut i: usize = 0;
    while i < v.len()
        invariant
            i <= v.len(),
            r.len() == i,
            forall|j: int| 0 <= j < i ==> #[trigger] r@[j]@ == v@[j]@,
        decreases v.len() - i,
    {
        r.push(copy_string(&v[i]));
        i = i + 1;
    }
    assert(r.deep_view() =~= v.deep_view());
    r
}

impl DocPath {
    /// The path written as `text`.
    pub fn new(text: &str) -> (p: DocPath)
        ensures
            p@ == parsed_path(text@),
            p@.file_name matches Some(n) ==> p@.components.len() > 0 && n == p@.components.last(),
    {
        let owned = String::from_str(text);
        DocPath { text: owned, components: path_components(text), file_name: path_file_name(text) }
    }

    pub fn as_str(&self) -> (s: &str)
        ensures
            s@ == self@.text,
    {
        self.text.as_str()
    }

    pub fn file_name(&self) -> (r: Option<&str>)
        ensures
            match r {
                Some(s) => self@.file_name == Some(s@),
                None => self@.file_name is None,
            },
    {
        match &self.file_name {
            Some(s) => Some(s.as_str()),
            None => None,
        }
    }

    /// The number of components.
    pub fn depth(&self) -> (n: usize)
        ensures
            n == self@.components.len(),
    {
        self.components.len()
    }

    /// A copy of this path with the same text, components and file name.
    pub fn duplicate(&self) -> (r: DocPath)
        ensures
            r@ == self@,
    {
        let file_name = match &self.file_name {
            Some(s) => Some(copy_string(s)),
            None => None,
        };
        DocPath { text: copy_string(&self.text), components: copy_strings(&self.components), file_name }
    }

    /// The extension of the file name, as `Path::extension` documents it.
    pub fn extension(&self) -> (r: Option<String>)
        ensures
            option_string_view(r) == spec_extension(self@.file_name),
    {
        match &self.file_name {
            Some(name) => extension_of_name(name.as_str()),
            None => None,
        }
    }
}

/// Index of the last `.` in `s`, or -1 when there is none.
pub open spec fn last_dot(s: Seq<char>) -> int
    decreases s.len(),
{
    if s.len() == 0 {
        -1
    } else if s.last() == '.' {
        s.len() - 1
    } else {
        last_dot(s.drop_last())
    }
}

/// The extension of a file name as `Path::extension` documents it: `None`
/// without a file name, for `..`, without an embedded `.`, or when the only
/// `.` opens the name; otherwise what follows the final `.`.
pub open spec fn spec_extension(file_name: Option<Seq<char>>) -> Option<Seq<char>> {
    match file_name {
        None => None,
        Some(f) => {
            let k = last_dot(f);
            if f =~= seq!['.', '.'] || k <= 0 {
                None
            } else {
                Some(f.subrange(k + 1, f.len() as int))
            }
        },
    }
}

proof fn lemma_last_dot_bounds(s: Seq<char>)
    ensures
        -1 <= last_dot(s) < s.len(),
        last_dot(s) >= 0 ==> s[last_dot(s)] == '.',
    decreases s.len(),
{
    if s.len() > 0 && s.last() != '.' {
        lemma_last_dot_bounds(s.drop_last());
    }
}

fn extension_of_name(name: &str) -> (r: Option<String>)
    ensures
        option_string_view(r) == spec_extension(Some(name@)),
{
    let cs = chars_of(name);
    let mut found = false;
    let mut last: usize = 0;
    let mut i: usize = 0;
    while i < cs.len()
        invariant
            cs@ == name@,
            i <= cs.len(),
            last_dot(cs@.take(i as int)) == (if found { last as int } else { -1 }),
        decreases cs.len() - i,
    {
        assert(cs@.take(i + 1).drop_last() =~= cs@.take(i as int));
        if cs[i] == '.' {
            found = true;
            last = i;
        }
        i = i + 1;
    }
    assert(cs@.take(cs.len() as int) =~= cs@);
    proof {
        lemma_last_dot_bounds(cs@);
    }
    if cs.len() == 2 && cs[0] == '.' && cs[1] == '.' {
        assert(name@ =~= seq!['.', '.']);
        return None;
    }
    if !found || last == 0 {
        return None;
    }
    let mut out = String::new();
    let mut j: usize = last + 1;
    while j < cs.len()
        invariant
            cs@ == name@,
            0 < last < cs.len(),
            last + 1 <= j <= cs.len(),
            out@ == cs@.subrange(last + 1, j as int),
        decreases cs.len() - j,
    {
        push_char(&mut out, cs[j]);
        assert(out@ =~= cs@.subrange(last + 1, j + 1));
        j = j + 1;
    }
    Some(out)
}

/// `folder` is a strict component-wise prefix of `path`.
pub open spec fn is_under(path: Seq<Seq<char>>, folder: Seq<Seq<char>>) -> bool {
    folder.len() < path.len() && path.subrange(0, folder.len() as int) == folder
}

/// Whether `path` lies strictly inside `folder`: the components of `folder`
/// begin the components of `path`, and `path` has more of them.
pub fn is_path_under_folder(path: &DocPath, folder: &DocPath) -> (r: bool)
    ensures
        r == is_under(path@.components, folder@.components),
{
    let n = folder.components.len();
    if n >= path.components.len() {
        return false;
    }
    let mut i: usize = 0;
    while i < n
        invariant
            n == folder.components.len(),
            n < path.components.len(),
            i <= n,
            forall|j: int| 0 <= j < i ==> #[trigger] path.components@[j]@ == folder.components@[j]@,
        decreases n - i,
    {
        if path.components[i] != folder.components[i] {
            assert(path@.components.subrange(0, n as int)[i as int] != folder@.components[i as int]);
            return false;
        }
        i = i + 1;
    }
    assert(path@.components.subrange(0, n as int) =~= folder@.components);
    true
}

/// Containment never holds between a path and itself.
pub proof fn lemma_under_irreflexive(p: Seq<Seq<char>>)
    ensures
        !is_under(p, p),
{
}

/// Containment is transitive: inside a folder that is inside another is
/// inside that other.
pub proof fn lemma_under_transitive(a: Seq<Seq<char>>, b: Seq<Seq<char>>, c: Seq<Seq<char>>)
    requires
        is_under(a, b),
        is_under(b, c),
    ensures
        is_under(a, c),
{
    assert(a.subrange(0, c.len() as int) =~= b.subrange(0, c.len() as int));
}

/// Two folders that both contain a path and have as many components are the
/// same folder.
pub proof fn lemma_under_same_depth_equal(p: Seq<Seq<char>>, f: Seq<Seq<char>>, g: Seq<Seq<char>>)
    requires
        is_under(p, f),
        is_under(p, g),
        f.len() == g.len(),
    ensures
        f == g,
{
}

/// Some element of `s` has the components `c`.
pub open spec fn holds_components(s: Seq<DocPathView>, c: Seq<Seq<char>>) -> bool {
    exists|i: int| 0 <= i < s.len() && (#[trigger] s[i]).components == c
}

/// No two elements of `s` have the same components.
pub open spec fn distinct_components(s: Seq<DocPathView>) -> bool {
    forall|i: int, j: int|
        0 <= i < s.len() && 0 <= j < s.len() && i != j ==> (#[trigger] s[i]).components
            != (#[trigger] s[j]).components
}

/// A set of folders in which no two have the same components, as paths
/// compare equal exactly when their components do.
pub struct FolderSet {
    folders: Vec<DocPath>,
}

impl View for FolderSet {
    type V = Seq<DocPathView>;

    closed spec fn view(&self) -> Seq<DocPathView> {
        self.folders@.map_values(|p: DocPath| p@)
    }
}

impl FolderSet {
    #[verifier::type_invariant]
    spec fn inv(&self) -> bool {
        distinct_components(self@)
    }

    pub fn new() -> (s: FolderSet)
        ensures
            s@ == Seq::<DocPathView>::empty(),
    {
        let s = FolderSet { folders: Vec::new() };
        assert(s@ =~= Seq::<DocPathView>::empty());
        s
    }

    pub fn len(&self) -> (n: usize)
        ensures
            n == self@.len(),
    {
        self.folders.len()
    }

    pub fn is_empty(&self) -> (b: bool)
        ensures
            b == (self@.len() == 0),
    {
        self.folders.len() == 0
    }

    pub fn get(&self, i: usize) -> (p: &DocPath)
        requires
            i < self@.len(),
        ensures
            p@ == self@[i as int],
    {
        &self.folders[i]
    }

    fn position(&self, p: &DocPath) -> (r: Option<usize>)
        ensures
            match r {
                Some(i) => i < self@.len() && self@[i as int].components == p@.components,
                None => !holds_components(self@, p@.components),
            },
    {
        let mut i: usize = 0;
        while i < self.folders.len()
            invariant
                i <= self.folders.len(),
                forall|j: int| 0 <= j < i ==> (#[trigger] self@[j]).components != p@.components,
            decreases self.folders.len() - i,
        {
            let f = &self.folders[i];
            if f.depth() == p.depth() {
                let mut k: usize = 0;
                let mut same = true;
                while k < p.depth()
                    invariant
                        i < self@.len(),
                        f@ == self@[i as int],
                        f@.components.len() == p@.components.len(),
                        k <= p@.components.len(),
                        same == (forall|m: int| 0 <= m < k ==> #[trigger] f@.components[m] == p@.components[m]),
                    decreases p@.components.len() - k,
                {
                    assert(f@.components[k as int] == f.components@[k as int]@);
                    assert(p@.components[k as int] == p.components@[k as int]@);
                    if f.components[k] != p.components[k] {
                        same = false;
                    }
                    k = k + 1;
                }
                if same {
                    assert(f@.components =~= p@.components);
                    return Some(i);
                }
            }
            i = i + 1;
        }
        None
    }

    /// Whether a folder with the same components as `p` is in the set.
    pub fn contains(&self, p: &DocPath) -> (b: bool)
        ensures
            b == holds_components(self@, p@.components),
    {
        self.position(p).is_some()
    }

    /// Adds `p` unless a folder with its components is already there; returns
    /// whether it was added.
    pub fn insert(&mut self, p: DocPath) -> (added: bool)
        ensures
            added == !holds_components(old(self)@, p@.components),
            added ==> final(self)@ == old(self)@.push(p@),
            !added ==> final(self)@ == old(self)@,
            holds_components(final(self)@, p@.components),
    {
        proof {
            use_type_invariant(&*self);
        }
        match self.position(&p) {
            Some(i) => false,
            None => {
                let ghost pv = p@;
                let ghost before = self@;
                let mut folders: Vec<DocPath> = Vec::new();
                std::mem::swap(&mut folders, &mut self.folders);
                folders.push(p);
                proof {
                    let after = folders@.map_values(|q: DocPath| q@);
                    assert(after =~= before.push(pv));
                    assert forall|a: int, b: int|
                        0 <= a < after.len() && 0 <= b < after.len() && a != b implies (#[trigger] after[a]).components
                            != (#[trigger] after[b]).components by {
                        if a == before.len() {
                            assert(after[b] == before[b]);
                        } else if b == before.len() {
                            assert(after[a] == before[a]);
                        } else {
                            assert(after[a] == before[a]);
                            assert(after[b] == before[b]);
                        }
                    }
                }
                self.folders = folders;
                assert(self@ =~= old(self)@.push(pv));
                assert(self@[self@.len() - 1] == pv);
                true
            },
        }
    }

    /// Removes the folder with the components of `p`, if there is one;
    /// returns whether one was removed.
    pub fn remove(&mut self, p: &DocPath) -> (removed: bool)
        ensures
            removed == holds_components(old(self)@, p@.components),
            !holds_components(final(self)@, p@.components),
            forall|c: Seq<Seq<char>>|
                c != p@.components ==> (holds_components(final(self)@, c) == holds_components(
                    old(self)@,
                    c,
                )),
    {
        proof {
            use_type_invariant(&*self);
        }
        match self.position(p) {
            None => false,
            Some(i) => {
                let ghost before = self@;
                let mut folders: Vec<DocPath> = Vec::new();
                std::mem::swap(&mut folders, &mut self.folders);
                folders.remove(i);
                proof {
                    let after = folders@.map_values(|q: DocPath| q@);
                    assert(after =~= before.remove(i as int));
                    assert forall|a: int, b: int|
                        0 <= a < after.len() && 0 <= b < after.len() && a != b implies (#[trigger] after[a]).components
                            != (#[trigger] after[b]).components by {
                        let a0 = if a < i { a } else { a + 1 };
                        let b0 = if b < i { b } else { b + 1 };
                        assert(after[a] == before[a0]);
                        assert(after[b] == before[b0]);
                    }
                }
                self.folders = folders;
                assert(self@ =~= before.remove(i as int));
                assert forall|c: Seq<Seq<char>>|
                    c != p@.components implies (holds_components(self@, c) == holds_components(
                        before,
                        c,
                    )) by {
                    if holds_components(before, c) {
                        let k = choose|k: int| 0 <= k < before.len() && (#[trigger] before[k]).components == c;
                        if k < i {
                            assert(self@[k] == before[k]);
                        } else {
                            assert(k != i);
                            assert(self@[k - 1] == before[k]);
                        }
                    }
                    if holds_components(self@, c) {
                        let k = choose|k: int| 0 <= k < self@.len() && (#[trigger] self@[k]).components == c;
                        if k < i {
                            assert(self@[k] == before[k]);
                        } else {
                            assert(self@[k] == before[k + 1]);
                        }
                    }
                }
                proof {
                    if holds_components(self@, p@.components) {
                        let k = choose|k: int| 0 <= k < self@.len() && (#[trigger] self@[k]).components == p@.components;
                        if k < i {
                            assert(self@[k] == before[k]);
                        } else {
                            assert(self@[k] == before[k + 1]);
                        }
                    }
                }
                true
            },
        }
    }
}

/// The folder that owns `path`: among the folders of `monitored` that
/// contain it, the one with the most components (there is only one such).
pub fn find_owning_folder<'a>(path: &DocPath, monitored: &'a FolderSet) -> (r: Option<&'a DocPath>)
    ensures
        match r {
            None => forall|i: int|
                0 <= i < monitored@.len() ==> !is_under(path@.components, (#[trigger] monitored@[i]).components),
            Some(f) => {
                &&& exists|i: int| 0 <= i < monitored@.len() && f@ == (#[trigger] monitored@[i])
                &&& is_under(path@.components, f@.components)
                &&& forall|j: int|
                    0 <= j < monitored@.len() && is_under(path@.components, (#[trigger] monitored@[j]).components)
                        ==> monitored@[j].components.len() <= f@.components.len()
                &&& forall|j: int|
                    0 <= j < monitored@.len() && is_under(path@.components, (#[trigger] monitored@[j]).components)
                        && monitored@[j].components.len() == f@.components.len() ==> monitored@[j] == f@
            },
        },
{
    proof {
        use_type_invariant(monitored);
    }
    let mut best: Option<usize> = None;
    let mut i: usize = 0;
    while i < monitored.len()
        invariant
            i <= monitored@.len(),
            match best {
                None => forall|j: int| 0 <= j < i ==> !is_under(path@.components, (#[trigger] monitored@[j]).components),
                Some(b) => {
                    &&& b < i
                    &&& is_under(path@.components, monitored@[b as int].components)
                    &&& forall|j: int|
                        0 <= j < i && is_under(path@.components, (#[trigger] monitored@[j]).components)
                            ==> monitored@[j].components.len() <= monitored@[b as int].components.len()
                },
            },
        decreases monitored@.len() - i,
    {
        let f = monitored.get(i);
        if is_path_under_folder(path, f) {
            match best {
                None => {
                    best = Some(i);
                },
                Some(b) => {
                    if f.depth() >= monitored.get(b).depth() {
                        best = Some(i);
                    }
                },
            }
        }
        i = i + 1;
    }
    match best {
        None => None,
        Some(b) => Some(monitored.get(b)),
    }
}

} // verus!
