//! The content resolution layer: a read-only snapshot of every document's
//! text, keyed by resolved path, built once per invocation and threaded
//! through the walkers.  Reference strings are resolved against the directory
//! of the root document by purely textual path normalization.

use vstd::prelude::*;

use crate::yaml::{
    is_entry, join_with, key_of, lines_of, ref_marker, refs_in, split_on, strip_quotes, value_of,
    views_of,
};
use crate::yaml::{
    indent_len, key_string, line_is_entry, split_lines, split_str, str_eq, strip_quotes_string,
    value_string,
};

verus! {

// ---------------------------------------------------------------------------
// Purely textual path handling.
// ---------------------------------------------------------------------------

/// `p` up to (and excluding) its last `/`; empty when there is none.
pub open spec fn parent_dir(p: Seq<char>) -> Seq<char>
    decreases p.len(),
{
    if p.len() == 0 {
        p
    } else if p[p.len() - 1] == '/' {
        p.subrange(0, p.len() - 1)
    } else {
        parent_dir(p.subrange(0, p.len() - 1))
    }
}

pub proof fn lemma_parent_dir_at(p: Seq<char>, q: int)
    requires
        0 <= q < p.len(),
        p[q] == '/',
        forall|j: int| q < j < p.len() ==> p[j] != '/',
    ensures
        parent_dir(p) == p.subrange(0, q),
    decreases p.len(),
{
    if q == p.len() - 1 {
    } else {
        let p1 = p.subrange(0, p.len() - 1);
        lemma_parent_dir_at(p1, q);
        assert(p1.subrange(0, q) =~= p.subrange(0, q));
    }
}

pub proof fn lemma_parent_dir_none(p: Seq<char>)
    requires
        forall|j: int| 0 <= j < p.len() ==> p[j] != '/',
    ensures
        parent_dir(p) == Seq::<char>::empty(),
    decreases p.len(),
{
    if p.len() == 0 {
        assert(p =~= Seq::<char>::empty());
    } else {
        lemma_parent_dir_none(p.subrange(0, p.len() - 1));
    }
}

/// A reference is taken as it stands when absolute, and relative to `dir`
/// otherwise.
pub open spec fn join_path(dir: Seq<char>, rel: Seq<char>) -> Seq<char> {
    if rel.len() > 0 && rel[0] == '/' {
        rel
    } else if dir.len() == 0 {
        rel
    } else {
        dir + seq!['/'] + rel
    }
}

/// Folds the path segments left to right: empty and `.` segments vanish,
/// `..` pops the last kept segment where one is there to pop.
pub open spec fn norm_stack(segs: Seq<Seq<char>>, i: int, acc: Seq<Seq<char>>, abs: bool) -> Seq<
    Seq<char>,
>
    decreases segs.len() - i,
{
    if i < 0 || i >= segs.len() {
        acc
    } else {
        let s = segs[i];
        let acc2: Seq<Seq<char>> = if s.len() == 0 || s == "."@ {
            acc
        } else if s == ".."@ {
            if acc.len() > 0 && acc.last() != ".."@ {
                acc.subrange(0, acc.len() - 1)
            } else if abs {
                acc
            } else {
                acc.push(s)
            }
        } else {
            acc.push(s)
        };
        norm_stack(segs, i + 1, acc2, abs)
    }
}

/// The canonical form of a path: segments normalized, one `/` between them,
/// a leading `/` kept.
pub open spec fn normalize_path(p: Seq<char>) -> Seq<char> {
    let abs = p.len() > 0 && p[0] == '/';
    let stack = norm_stack(split_on(p, '/'), 0, Seq::<Seq<char>>::empty(), abs);
    if abs {
        seq!['/'] + join_with(stack, '/')
    } else {
        join_with(stack, '/')
    }
}

/// Where the reference `r`, found in the document at `root`, points:
/// `r` joined to the directory of `root` and normalized.
pub open spec fn resolved_path(root: Seq<char>, r: Seq<char>) -> Seq<char> {
    normalize_path(join_path(parent_dir(root), r))
}

/// `p` up to its last `/`.
pub fn parent_dir_str(p: &str) -> (d: String)
    ensures
        d@ == parent_dir(p@),
{
    let n = p.unicode_len();
    let mut i: usize = n;
    while i > 0 && p.get_char(i - 1) != '/'
        invariant
            0 <= i <= n,
            n == p@.len(),
            forall|j: int| i <= j < n ==> p@[j] != '/',
        decreases i,
    {
        i = i - 1;
    }
    if i == 0 {
        proof {
            lemma_parent_dir_none(p@);
        }
        String::new()
    } else {
        proof {
            lemma_parent_dir_at(p@, i - 1);
        }
        p.substring_char(0, i - 1).to_owned()
    }
}

/// Joins a reference to a directory.
pub fn join_path_str(dir: &str, rel: &str) -> (r: String)
    ensures
        r@ == join_path(dir@, rel@),
{
    let reln = rel.unicode_len();
    if reln > 0 && rel.get_char(0) == '/' {
        rel.to_owned()
    } else if dir.unicode_len() == 0 {
        rel.to_owned()
    } else {
        proof {
            reveal_strlit("/");
            assert("/"@ =~= seq!['/']);
        }
        let out: String = dir.to_owned();
        out.concat("/").concat(rel)
    }
}

/// Joins string pieces with a one-character separator.
pub fn join_strings(parts: &Vec<String>, sep_str: &str) -> (r: String)
    requires
        sep_str@.len() == 1,
    ensures
        r@ == join_with(views_of(parts@), sep_str@[0]),
{
    let ghost sep = sep_str@[0];
    if parts.len() == 0 {
        return String::new();
    }
    let mut out: String = parts[0].as_str().to_owned();
    let mut i: usize = 1;
    proof {
        assert(views_of(parts@).subrange(0, 1) =~~= seq![parts@[0]@]);
        assert(join_with(seq![parts@[0]@], sep) == parts@[0]@);
    }
    while i < parts.len()
        invariant
            1 <= i <= parts@.len(),
            sep_str@.len() == 1,
            sep == sep_str@[0],
            out@ == join_with(views_of(parts@).subrange(0, i as int), sep),
        decreases parts@.len() - i,
    {
        proof {
            let prev = views_of(parts@).subrange(0, i as int);
            crate::yaml::lemma_join_with_snoc(prev, parts@[i as int]@, sep);
            assert(views_of(parts@).subrange(0, i as int + 1) =~~= prev.push(parts@[i as int]@));
            assert(seq![sep] =~= sep_str@);
        }
        out.append(sep_str);
        out.append(parts[i].as_str());
        i = i + 1;
    }
    proof {
        assert(views_of(parts@).subrange(0, parts@.len() as int) =~= views_of(parts@));
    }
    out
}

/// The canonical form of a path.
pub fn normalize_path_str(p: &str) -> (r: String)
    ensures
        r@ == normalize_path(p@),
{
    let n = p.unicode_len();
    let abs = n > 0 && p.get_char(0) == '/';
    let segs = split_str(p, '/');
    let ghost segs_v = views_of(segs@);
    let mut stack: Vec<String> = Vec::new();
    let mut i: usize = 0;
    proof {
        assert(views_of(stack@) =~~= Seq::<Seq<char>>::empty());
    }
    while i < segs.len()
        invariant
            0 <= i <= segs@.len(),
            norm_stack(segs_v, 0, Seq::<Seq<char>>::empty(), abs) == norm_stack(
                segs_v,
                i as int,
                views_of(stack@),
                abs,
            ),
            segs_v == views_of(segs@),
        decreases segs@.len() - i,
    {
        let seg = segs[i].as_str();
        let ghost old_stack = views_of(stack@);
        if seg.unicode_len() == 0 || str_eq(seg, ".") {
        } else if str_eq(seg, "..") {
            if stack.len() > 0 && !str_eq(stack[stack.len() - 1].as_str(), "..") {
                stack.pop();
                proof {
                    assert(views_of(stack@) =~~= old_stack.subrange(0, old_stack.len() - 1));
                }
            } else if abs {
            } else {
                stack.push(seg.to_owned());
                proof {
                    assert(views_of(stack@) =~~= old_stack.push(segs_v[i as int]));
                }
            }
        } else {
            stack.push(seg.to_owned());
            proof {
                assert(views_of(stack@) =~~= old_stack.push(segs_v[i as int]));
            }
        }
        i = i + 1;
    }
    proof {
        reveal_strlit("/");
        assert("/"@.len() == 1);
        assert("/"@[0] == '/');
    }
    let joined = join_strings(&stack, "/");
    if abs {
        let out: String = "/".to_owned();
        let r = out.concat(joined.as_str());
        proof {
            assert(r@ =~= seq!['/'] + join_with(views_of(stack@), '/'));
        }
        r
    } else {
        joined
    }
}

/// Where the reference `r`, found in the document at `root`, points.
pub fn resolved_path_str(root: &str, r: &str) -> (out: String)
    ensures
        out@ == resolved_path(root@, r@),
{
    let dir = parent_dir_str(root);
    let joined = join_path_str(dir.as_str(), r);
    normalize_path_str(joined.as_str())
}

// ---------------------------------------------------------------------------
// The provider map.
// ---------------------------------------------------------------------------

/// First-match lookup in an association list.
pub open spec fn assoc(pairs: Seq<(Seq<char>, Seq<char>)>, k: Seq<char>) -> Option<Seq<char>>
    decreases pairs.len(),
{
    if pairs.len() == 0 {
        None
    } else if pairs[0].0 == k {
        Some(pairs[0].1)
    } else {
        assoc(pairs.subrange(1, pairs.len() as int), k)
    }
}

pub proof fn lemma_assoc_at(pairs: Seq<(Seq<char>, Seq<char>)>, k: Seq<char>, j: int)
    requires
        0 <= j <= pairs.len(),
        forall|p: int| 0 <= p < j ==> (#[trigger] pairs[p]).0 != k,
        j < pairs.len() ==> pairs[j].0 == k,
    ensures
        j == pairs.len() ==> assoc(pairs, k) is None,
        j < pairs.len() ==> assoc(pairs, k) == Some(pairs[j].1),
    decreases pairs.len(),
{
    if pairs.len() != 0 && pairs[0].0 != k {
        let tail = pairs.subrange(1, pairs.len() as int);
        assert(pairs[0] == pairs[0]);
        assert forall|p: int| 0 <= p < j - 1 implies (#[trigger] tail[p]).0 != k by {
            assert(tail[p] == pairs[p + 1]);
        }
        lemma_assoc_at(tail, k, j - 1);
        if j < pairs.len() {
            assert(tail[j - 1] == pairs[j]);
        }
    }
}

/// The views of an owned pair list.
pub open spec fn pair_views(s: Seq<(String, String)>) -> Seq<(Seq<char>, Seq<char>)> {
    s.map_values(|p: (String, String)| (p.0@, p.1@))
}

/// Spec-level image of a `ContentProviderMap`: its pair list and the path of
/// its root document.
pub struct ProviderModel {
    pub pairs: Seq<(Seq<char>, Seq<char>)>,
    pub root: Seq<char>,
}

/// The synthetic key under which the root document is always reachable.
pub open spec fn root_marker() -> Seq<char> {
    "#"@
}

/// What a reference resolves to against a provider: the root document for
/// the root marker, else the content filed under the reference resolved
/// against the root document's directory.  `None` is a fatal lookup error
/// for the walkers.
pub open spec fn resolve_model(m: ProviderModel, r: Seq<char>) -> Option<Seq<char>> {
    if r == root_marker() {
        assoc(m.pairs, m.root)
    } else {
        assoc(m.pairs, resolved_path(m.root, r))
    }
}

/// A source of document text for the walkers.  The library's own provider is
/// `ContentProviderMap`; users may supply their own.
pub trait ContentProvider {
    /// The text filed for `path`, the root marker resolving to the root
    /// document; `None` when nothing was pre-loaded there.
    fn get_content(&self, path: &str) -> Option<String>;

    /// Every key the provider holds content for.
    fn paths(&self) -> Vec<String>;
}

/// The pre-loaded, read-only collection of every document's raw text, keyed
/// by resolved path, with a designated root document.
pub struct ContentProviderMap {
    contents: Vec<(String, String)>,
    root_file: String,
}

impl View for ContentProviderMap {
    type V = ProviderModel;

    closed spec fn view(&self) -> ProviderModel {
        ProviderModel { pairs: pair_views(self.contents@), root: self.root_file@ }
    }
}

/// First-match lookup among owned pairs.
fn assoc_str(pairs: &Vec<(String, String)>, k: &str) -> (r: Option<String>)
    ensures
        match r {
            Some(s) => assoc(pair_views(pairs@), k@) == Some(s@),
            None => assoc(pair_views(pairs@), k@) is None,
        },
{
    let ghost pv = pair_views(pairs@);
    let mut j: usize = 0;
    while j < pairs.len()
        invariant
            0 <= j <= pairs@.len(),
            forall|p: int| 0 <= p < j ==> (#[trigger] pv[p]).0 != k@,
            pv == pair_views(pairs@),
        decreases pairs@.len() - j,
    {
        if str_eq(pairs[j].0.as_str(), k) {
            proof {
                lemma_assoc_at(pv, k@, j as int);
            }
            return Some(pairs[j].1.clone());
        }
        j = j + 1;
    }
    proof {
        lemma_assoc_at(pv, k@, j as int);
    }
    None
}

impl ContentProviderMap {
    /// An empty provider whose root marker resolves to nothing.
    pub fn new() -> (r: Self)
        ensures
            r@.pairs == Seq::<(Seq<char>, Seq<char>)>::empty(),
            r@.root == root_marker(),
    {
        let r = ContentProviderMap { contents: Vec::new(), root_file: "#".to_owned() };
        proof {
            assert(r@.pairs =~~= Seq::<(Seq<char>, Seq<char>)>::empty());
        }
        r
    }

    /// A provider over the given pairs, rooted at the root marker itself.
    pub fn from_map(contents: Vec<(String, String)>) -> (r: Self)
        ensures
            r@.pairs == pair_views(contents@),
            r@.root == root_marker(),
    {
        ContentProviderMap { contents, root_file: "#".to_owned() }
    }

    /// The provider for a root document whose text is already in hand:
    /// the root is filed under its own path and under the root marker, and
    /// each pre-loaded referenced document under its resolved path.
    pub fn from_open_api_yaml(root_path: String, root_content: String, ref_docs: Vec<
        (String, String),
    >) -> (r: Self)
        ensures
            r@.root == root_path@,
            r@.pairs == seq![(root_path@, root_content@), (root_marker(), root_content@)]
                + pair_views(ref_docs@),
    {
        let mut contents: Vec<(String, String)> = Vec::new();
        let root_file = root_path.clone();
        contents.push((root_path, root_content.clone()));
        contents.push(("#".to_owned(), root_content));
        let mut i: usize = 0;
        let ghost head = contents@;
        while i < ref_docs.len()
            invariant
                0 <= i <= ref_docs@.len(),
                contents@ == head + ref_docs@.subrange(0, i as int),
            decreases ref_docs@.len() - i,
        {
            let pair = (ref_docs[i].0.clone(), ref_docs[i].1.clone());
            proof {
                assert(pair == ref_docs@[i as int]);
                assert(head + ref_docs@.subrange(0, i as int + 1) =~= (head + ref_docs@.subrange(
                    0,
                    i as int,
                )).push(ref_docs@[i as int]));
            }
            contents.push(pair);
            i = i + 1;
        }
        let r = ContentProviderMap { contents, root_file };
        proof {
            assert(ref_docs@.subrange(0, ref_docs@.len() as int) =~= ref_docs@);
            assert(r@.pairs =~~= seq![(r@.root, head[0].1@), (root_marker(), head[0].1@)]
                + pair_views(ref_docs@));
        }
        r
    }

    /// The text the reference `path` resolves to, or `None` when the
    /// referenced document was never pre-loaded.
    pub fn get_content(&self, path: &str) -> (r: Option<String>)
        ensures
            match r {
                Some(s) => resolve_model(self@, path@) == Some(s@),
                None => resolve_model(self@, path@) is None,
            },
    {
        if str_eq(path, "#") {
            assoc_str(&self.contents, self.root_file.as_str())
        } else {
            let full = resolved_path_str(self.root_file.as_str(), path);
            assoc_str(&self.contents, full.as_str())
        }
    }

    /// Every key the provider holds content for, in insertion order.
    pub fn paths(&self) -> (r: Vec<String>)
        ensures
            views_of(r@) == self@.pairs.map_values(|p: (Seq<char>, Seq<char>)| p.0),
    {
        let mut r: Vec<String> = Vec::new();
        let mut i: usize = 0;
        while i < self.contents.len()
            invariant
                0 <= i <= self.contents@.len(),
                r@.len() == i,
                forall|p: int| 0 <= p < i ==> (#[trigger] r@[p])@ == self.contents@[p].0@,
            decreases self.contents@.len() - i,
        {
            r.push(self.contents[i].0.clone());
            i = i + 1;
        }
        proof {
            assert(views_of(r@) =~= self@.pairs.map_values(|p: (Seq<char>, Seq<char>)| p.0));
        }
        r
    }
}

impl ContentProvider for ContentProviderMap {
    fn get_content(&self, path: &str) -> Option<String> {
        ContentProviderMap::get_content(self, path)
    }

    fn paths(&self) -> Vec<String> {
        ContentProviderMap::paths(self)
    }
}

// ---------------------------------------------------------------------------
// Reference discovery.
// ---------------------------------------------------------------------------

pub open spec fn starts_with_hash(s: Seq<char>) -> bool {
    s.len() > 0 && s[0] == '#'
}

/// The resolved paths of the external references found at or after line `i`:
/// every `$ref` value that does not point into the same document, resolved
/// against the root document's directory, in document order.
pub open spec fn ext_ref_paths_in(ls: Seq<Seq<char>>, i: int, root: Seq<char>) -> Seq<Seq<char>>
    decreases ls.len() - i,
{
    if i < 0 || i >= ls.len() {
        Seq::<Seq<char>>::empty()
    } else {
        let head: Seq<Seq<char>> = if is_entry(ls[i]) && key_of(ls[i]) == ref_marker()
            && !starts_with_hash(strip_quotes(value_of(ls[i]))) {
            seq![resolved_path(root, strip_quotes(value_of(ls[i])))]
        } else {
            Seq::<Seq<char>>::empty()
        };
        head + ext_ref_paths_in(ls, i + 1, root)
    }
}

/// The discovery pass over a root document: the resolved path of every
/// external reference in it, in document order.  The pass is not recursive —
/// references inside a referenced document are not followed — so a walk that
/// later needs a deeper document fails with an unresolved-reference error.
pub fn external_ref_paths(root_path: &str, root_content: &str) -> (r: Vec<String>)
    ensures
        views_of(r@) == ext_ref_paths_in(lines_of(root_content@), 0, root_path@),
{
    let lines = split_lines(root_content);
    let ghost ls = views_of(lines@);
    let mut r: Vec<String> = Vec::new();
    let mut i: usize = 0;
    proof {
        assert(views_of(r@) + ext_ref_paths_in(ls, 0, root_path@) =~= ext_ref_paths_in(
            ls,
            0,
            root_path@,
        ));
    }
    while i < lines.len()
        invariant
            0 <= i <= lines@.len(),
            ext_ref_paths_in(ls, 0, root_path@) == views_of(r@) + ext_ref_paths_in(
                ls,
                i as int,
                root_path@,
            ),
            ls == views_of(lines@),
        decreases lines@.len() - i,
    {
        let ghost head: Seq<Seq<char>> = if is_entry(ls[i as int]) && key_of(ls[i as int])
            == ref_marker() && !starts_with_hash(strip_quotes(value_of(ls[i as int]))) {
            seq![resolved_path(root_path@, strip_quotes(value_of(ls[i as int])))]
        } else {
            Seq::<Seq<char>>::empty()
        };
        proof {
            assert(ext_ref_paths_in(ls, i as int, root_path@) == head + ext_ref_paths_in(
                ls,
                i as int + 1,
                root_path@,
            ));
        }
        let mut matched = false;
        if line_is_entry(lines[i].as_str()) && str_eq(
            key_string(lines[i].as_str()).as_str(),
            "$ref",
        ) {
            let v = value_string(lines[i].as_str());
            let stripped = strip_quotes_string(v.as_str());
            let is_external = stripped.as_str().unicode_len() == 0 || stripped.as_str().get_char(0)
                != '#';
            if is_external {
                matched = true;
                let resolved = resolved_path_str(root_path, stripped.as_str());
                let ghost old_r = r@;
                r.push(resolved);
                proof {
                    assert(views_of(r@) =~= views_of(old_r) + head);
                    assert((views_of(old_r) + head) + ext_ref_paths_in(ls, i as int + 1, root_path@)
                        =~= views_of(old_r) + (head + ext_ref_paths_in(
                        ls,
                        i as int + 1,
                        root_path@,
                    )));
                }
            }
        }
        if !matched {
            proof {
                assert(head =~~= Seq::<Seq<char>>::empty());
                assert(head + ext_ref_paths_in(ls, i as int + 1, root_path@) =~~= ext_ref_paths_in(
                    ls,
                    i as int + 1,
                    root_path@,
                ));
            }
        }
        i = i + 1;
    }
    r
}

} // verus!
