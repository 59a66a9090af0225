//! Source locations: parsing the package id in its two dialects, classifying
//! the source as path, registry or git, and remapping absolute paths of the
//! machine that made the plan into references inside the Nix sandbox.
use vstd::prelude::*;
use vstd::string::*;
use crate::text::{
    chars_of, find_char, find_sub, first_index, first_occurrence, has_prefix, last_index,
    last_occurrence, occurs, owned, push_str, rfind_char, rfind_sub, slice_string, starts_with,
    string_from_chars, sub_vec,
};
use crate::unit_graph::{after_first_word, first_word, Unit};

verus! {

/// Where a package comes from.
#[derive(Debug, Clone, PartialEq, Eq)]
pub enum SourceType {
    /// A local path source `path+file:///absolute/path`.
    Path {
        /// Absolute path of the crate.
        path: String,
    },
    /// A git source `git+URL[?rev=|?branch=|?tag=][#commit]`.
    Git {
        /// The repository URL, without query and commit.
        url: String,
        /// The branch, tag or revision asked for.
        reference: Option<String>,
        /// The exact commit.
        commit: Option<String>,
    },
    /// A registry source `registry+URL`.
    Registry {
        /// The registry URL.
        url: String,
    },
}

/// What a source is, as plain sequences.
pub enum SourceKind {
    Path(Seq<char>),
    Git(Seq<char>, Option<Seq<char>>, Option<Seq<char>>),
    Registry(Seq<char>),
}

impl View for SourceType {
    type V = SourceKind;

    open spec fn view(&self) -> SourceKind {
        match self {
            SourceType::Path { path } => SourceKind::Path(path@),
            SourceType::Git { url, reference, commit } => SourceKind::Git(
                url@,
                reference.deep_view(),
                commit.deep_view(),
            ),
            SourceType::Registry { url } => SourceKind::Registry(url@),
        }
    }
}

/// A package's source location, derived from its id and entry point.
#[derive(Debug, Clone, PartialEq, Eq)]
pub struct SourceLocation {
    /// Package name.
    pub name: String,
    /// Package version.
    pub version: String,
    /// Where the package comes from.
    pub source: SourceType,
    /// The entry point, relative to the crate root (`src/lib.rs`).
    pub entry_point: String,
    /// The crate root directory.
    pub crate_root: String,
}

/// `s` from position `i` on.
pub open spec fn from(s: Seq<char>, i: int) -> Seq<char> {
    s.subrange(i, s.len() as int)
}

/// The reference that one query parameter names, if any.
pub open spec fn param_ref(p: Seq<char>) -> Option<Seq<char>> {
    if has_prefix(p, "rev="@) {
        Some(from(p, 4))
    } else if has_prefix(p, "branch="@) {
        Some(from(p, 7))
    } else if has_prefix(p, "tag="@) {
        Some(from(p, 4))
    } else {
        None
    }
}

/// The first reference that the `&`-separated parameters of a query name.
pub open spec fn query_ref(q: Seq<char>) -> Option<Seq<char>>
    decreases q.len(),
{
    if q.contains('&') && 0 <= first_index(q, '&') < q.len() {
        let p = q.subrange(0, first_index(q, '&'));
        if param_ref(p).is_some() {
            param_ref(p)
        } else {
            query_ref(from(q, first_index(q, '&') + 1))
        }
    } else {
        param_ref(q)
    }
}

/// A git source from what follows `git+`.
pub open spec fn git_kind(rest: Seq<char>) -> SourceKind {
    let url0 = if rest.contains('#') { rest.subrange(0, last_index(rest, '#')) } else { rest };
    let commit = if rest.contains('#') { Some(from(rest, last_index(rest, '#') + 1)) } else { None };
    if url0.contains('?') {
        SourceKind::Git(
            url0.subrange(0, first_index(url0, '?')),
            query_ref(from(url0, first_index(url0, '?') + 1)),
            commit,
        )
    } else {
        SourceKind::Git(url0, None, commit)
    }
}

/// The source that a source string names, if it is one of the three forms.
pub open spec fn source_kind_of(s: Seq<char>) -> Option<SourceKind> {
    if has_prefix(s, "path+file://"@) {
        Some(SourceKind::Path(from(s, 12)))
    } else if has_prefix(s, "registry+"@) {
        Some(SourceKind::Registry(from(s, 9)))
    } else if has_prefix(s, "git+"@) {
        Some(git_kind(from(s, 4)))
    } else {
        None
    }
}

proof fn lemma_prefix_lens()
    ensures
        "path+file://"@.len() == 12,
        "registry+"@.len() == 9,
        "git+"@.len() == 4,
        "rev="@.len() == 4,
        "branch="@.len() == 7,
        "tag="@.len() == 4,
{
    reveal_strlit("path+file://");
    reveal_strlit("registry+");
    reveal_strlit("git+");
    reveal_strlit("rev=");
    reveal_strlit("branch=");
    reveal_strlit("tag=");
}

fn param_ref_exec(p: &[char]) -> (r: Option<String>)
    ensures
        r.deep_view() == param_ref(p@),
{
    proof {
        lemma_prefix_lens();
    }
    let rev = chars_of("rev=");
    let branch = chars_of("branch=");
    let tag = chars_of("tag=");
    if starts_with(p, rev.as_slice()) {
        Some(slice_string(p, 4, p.len()))
    } else if starts_with(p, branch.as_slice()) {
        Some(slice_string(p, 7, p.len()))
    } else if starts_with(p, tag.as_slice()) {
        Some(slice_string(p, 4, p.len()))
    } else {
        None
    }
}

fn query_ref_exec(q: &[char]) -> (r: Option<String>)
    ensures
        r.deep_view() == query_ref(q@),
    decreases q@.len(),
{
    match find_char(q, '&') {
        Some(a) => {
            let head = sub_vec(q, 0, a);
            let first = param_ref_exec(head.as_slice());
            if first.is_some() {
                first
            } else {
                let tail = sub_vec(q, a + 1, q.len());
                query_ref_exec(tail.as_slice())
            }
        },
        None => param_ref_exec(q),
    }
}

fn git_source(rest: &[char]) -> (r: SourceType)
    ensures
        r@ == git_kind(rest@),
{
    let (url0, commit) = match rfind_char(rest, '#') {
        Some(h) => (slice_string(rest, 0, h), Some(slice_string(rest, h + 1, rest.len()))),
        None => (string_from_chars(rest), None),
    };
    let u = chars_of(url0.as_str());
    match find_char(u.as_slice(), '?') {
        Some(q) => {
            let tail = sub_vec(u.as_slice(), q + 1, u.len());
            let reference = query_ref_exec(tail.as_slice());
            SourceType::Git { url: slice_string(u.as_slice(), 0, q), reference, commit }
        },
        None => SourceType::Git { url: url0, reference: None, commit },
    }
}

/// Classifies a source string: `path+file://ABS`, `registry+URL` or
/// `git+URL[?rev=R|?branch=B|?tag=T][#COMMIT]`.
pub fn parse_source_type(source: &str) -> (r: Option<SourceType>)
    ensures
        match r {
            Some(t) => source_kind_of(source@) == Some(t@),
            None => source_kind_of(source@).is_none(),
        },
{
    proof {
        lemma_prefix_lens();
    }
    let s = chars_of(source);
    let path = chars_of("path+file://");
    let registry = chars_of("registry+");
    let git = chars_of("git+");
    if starts_with(s.as_slice(), path.as_slice()) {
        Some(SourceType::Path { path: slice_string(s.as_slice(), 12, s.len()) })
    } else if starts_with(s.as_slice(), registry.as_slice()) {
        Some(SourceType::Registry { url: slice_string(s.as_slice(), 9, s.len()) })
    } else if starts_with(s.as_slice(), git.as_slice()) {
        let rest = sub_vec(s.as_slice(), 4, s.len());
        Some(git_source(rest.as_slice()))
    } else {
        None
    }
}

// ---------------------------------------------------------------------------
// Package ids

/// Whether `s` ends with `t`.
pub open spec fn has_suffix(s: Seq<char>, t: Seq<char>) -> bool {
    t.len() <= s.len() && s.subrange(s.len() - t.len(), s.len() as int) == t
}

/// The package name of a git source written without one: the last path
/// segment of its URL, without query and without a `.git` suffix.
pub open spec fn git_name(source: Seq<char>) -> Seq<char> {
    let url_part = from(source, 4);
    let no_query = if url_part.contains('?') {
        url_part.subrange(0, first_index(url_part, '?'))
    } else {
        url_part
    };
    let seg = if no_query.contains('/') {
        from(no_query, last_index(no_query, '/') + 1)
    } else {
        no_query
    };
    if has_suffix(seg, ".git"@) {
        seg.subrange(0, seg.len() - 4)
    } else {
        seg
    }
}

/// The old dialect `NAME VERSION (SOURCE)`.
pub open spec fn old_pkg_id(p: Seq<char>) -> Option<(Seq<char>, Seq<char>, SourceKind)> {
    if !p.contains('(') || !p.contains(')') {
        None
    } else {
        let ps = first_index(p, '(');
        let pe = last_index(p, ')');
        if ps >= pe {
            None
        } else {
            let nv = p.subrange(0, ps);
            match (first_word(nv), first_word(after_first_word(nv)), source_kind_of(p.subrange(ps + 1, pe))) {
                (Some(n), Some(v), Some(k)) => Some((n, v, k)),
                _ => None,
            }
        }
    }
}

/// Name, version and source of a package id: the new dialect
/// `SOURCE#NAME@VERSION` (or `SOURCE#VERSION` for git) first, then the old one.
pub open spec fn pkg_id_model(p: Seq<char>) -> Option<(Seq<char>, Seq<char>, SourceKind)> {
    if p.contains('#') {
        let h = first_index(p, '#');
        let src = p.subrange(0, h);
        let nv = from(p, h + 1);
        if nv.contains('@') {
            match source_kind_of(src) {
                Some(k) => Some((nv.subrange(0, first_index(nv, '@')), from(nv, first_index(nv, '@') + 1), k)),
                None => None,
            }
        } else if has_prefix(src, "git+"@) {
            match source_kind_of(src) {
                Some(k) => Some((git_name(src), nv, k)),
                None => None,
            }
        } else {
            old_pkg_id(p)
        }
    } else {
        old_pkg_id(p)
    }
}

pub(crate) fn git_name_exec(source: &[char]) -> (r: String)
    requires
        has_prefix(source@, "git+"@),
    ensures
        r@ == git_name(source@),
{
    proof {
        lemma_prefix_lens();
        reveal_strlit(".git");
    }
    let url_part = sub_vec(source, 4, source.len());
    let no_query = match find_char(url_part.as_slice(), '?') {
        Some(q) => sub_vec(url_part.as_slice(), 0, q),
        None => url_part,
    };
    let seg = match rfind_char(no_query.as_slice(), '/') {
        Some(k) => sub_vec(no_query.as_slice(), k + 1, no_query.len()),
        None => no_query,
    };
    let suffix = chars_of(".git");
    if seg.len() >= 4 && crate::text::matches_at(seg.as_slice(), suffix.as_slice(), seg.len() - 4) {
        slice_string(seg.as_slice(), 0, seg.len() - 4)
    } else {
        string_from_chars(seg.as_slice())
    }
}

fn old_pkg_id_exec(p: &[char]) -> (r: Option<(String, String, SourceType)>)
    ensures
        match r {
            Some((n, v, t)) => old_pkg_id(p@) == Some((n@, v@, t@)),
            None => old_pkg_id(p@).is_none(),
        },
{
    let ps = match find_char(p, '(') {
        Some(i) => i,
        None => return None,
    };
    let pe = match rfind_char(p, ')') {
        Some(i) => i,
        None => return None,
    };
    if ps >= pe {
        return None;
    }
    let nv = sub_vec(p, 0, ps);
    assert(nv@.subrange(0, nv@.len() as int) =~= nv@);
    let (a, b) = match crate::unit_graph::next_word(nv.as_slice(), 0) {
        Some(w) => w,
        None => return None,
    };
    let (c, d) = match crate::unit_graph::next_word(nv.as_slice(), b) {
        Some(w) => w,
        None => return None,
    };
    let src = string_from_chars(sub_vec(p, ps + 1, pe).as_slice());
    match parse_source_type(src.as_str()) {
        Some(t) => Some((slice_string(nv.as_slice(), a, b), slice_string(nv.as_slice(), c, d), t)),
        None => None,
    }
}

/// Parses a package id into name, version and source. The new dialect
/// `SOURCE#NAME@VERSION` (or `SOURCE#VERSION` for git) is tried first, then
/// the old one `NAME VERSION (SOURCE)`.
#[verifier::rlimit(100)]
pub fn parse_pkg_id(pkg_id: &str) -> (r: Option<(String, String, SourceType)>)
    ensures
        match r {
            Some((n, v, t)) => pkg_id_model(pkg_id@) == Some((n@, v@, t@)),
            None => pkg_id_model(pkg_id@).is_none(),
        },
{
    proof {
        lemma_prefix_lens();
    }
    let p = chars_of(pkg_id);
    match find_char(p.as_slice(), '#') {
        Some(h) => {
            let src = sub_vec(p.as_slice(), 0, h);
            let nv = sub_vec(p.as_slice(), h + 1, p.len());
            let src_str = string_from_chars(src.as_slice());
            match find_char(nv.as_slice(), '@') {
                Some(at) => {
                    return match parse_source_type(src_str.as_str()) {
                        Some(t) => Some((
                            slice_string(nv.as_slice(), 0, at),
                            slice_string(nv.as_slice(), at + 1, nv.len()),
                            t,
                        )),
                        None => None,
                    };
                },
                None => {
                    let git = chars_of("git+");
                    if starts_with(src.as_slice(), git.as_slice()) {
                        return match parse_source_type(src_str.as_str()) {
                            Some(t) => Some((git_name_exec(src.as_slice()), string_from_chars(nv.as_slice()), t)),
                            None => None,
                        };
                    }
                },
            }
        },
        None => {},
    }
    old_pkg_id_exec(p.as_slice())
}

// ---------------------------------------------------------------------------
// Paths

/// `s` without its leading slashes.
pub open spec fn trim_slashes(s: Seq<char>) -> Seq<char>
    decreases s.len(),
{
    if s.len() > 0 && s[0] == '/' {
        trim_slashes(s.drop_first())
    } else {
        s
    }
}

/// A directory path without one trailing slash.
pub open spec fn dir_prefix(root: Seq<char>) -> Seq<char> {
    if root.len() > 0 && root.last() == '/' {
        root.drop_last()
    } else {
        root
    }
}

/// `abs` relative to the directory `root`, when `root` is a whole-component
/// prefix of it. An empty root leaves the path as it is.
pub open spec fn strip_dir_prefix(abs: Seq<char>, root: Seq<char>) -> Option<Seq<char>> {
    if root.len() == 0 {
        Some(abs)
    } else {
        let r = dir_prefix(root);
        if has_prefix(abs, r) && (abs.len() == r.len() || abs[r.len() as int] == '/') {
            Some(trim_slashes(from(abs, r.len() as int)))
        } else {
            None
        }
    }
}

fn trim_slashes_from(s: &[char], i: usize) -> (j: usize)
    requires
        i <= s@.len(),
    ensures
        i <= j <= s@.len(),
        from(s@, j as int) == trim_slashes(from(s@, i as int)),
{
    let mut j = i;
    while j < s.len() && s[j] == '/'
        invariant
            i <= j <= s@.len(),
            trim_slashes(from(s@, j as int)) == trim_slashes(from(s@, i as int)),
        decreases s@.len() - j,
    {
        assert(from(s@, j as int).drop_first() =~= from(s@, j + 1));
        j = j + 1;
    }
    if j < s.len() {
        assert(from(s@, j as int)[0] == s@[j as int]);
    } else {
        assert(from(s@, j as int).len() == 0);
    }
    j
}

fn strip_dir_prefix_exec(abs: &[char], root: &[char]) -> (r: Option<Vec<char>>)
    ensures
        match r {
            Some(v) => strip_dir_prefix(abs@, root@) == Some(v@),
            None => strip_dir_prefix(abs@, root@).is_none(),
        },
{
    if root.len() == 0 {
        return Some(sub_vec(abs, 0, abs.len()));
    }
    let rl: usize = if root[root.len() - 1] == '/' { root.len() - 1 } else { root.len() };
    let r = sub_vec(root, 0, rl);
    assert(r@ =~= dir_prefix(root@));
    if starts_with(abs, r.as_slice()) && (abs.len() == rl || abs[rl] == '/') {
        let j = trim_slashes_from(abs, rl);
        Some(sub_vec(abs, j, abs.len()))
    } else {
        None
    }
}

/// The path `absolute_path` relative to `workspace_root`, when the root is a
/// whole-component prefix of it.
pub fn make_relative(workspace_root: &str, absolute_path: &str) -> (r: Option<String>)
    ensures
        r.deep_view() == strip_dir_prefix(absolute_path@, workspace_root@),
{
    let a = chars_of(absolute_path);
    let w = chars_of(workspace_root);
    match strip_dir_prefix_exec(a.as_slice(), w.as_slice()) {
        Some(v) => Some(string_from_chars(v.as_slice())),
        None => None,
    }
}

/// Crate root and entry point of a source file.
pub open spec fn crate_root_model(src: Seq<char>, k: SourceKind) -> Option<(Seq<char>, Seq<char>)> {
    match k {
        SourceKind::Path(root) => match strip_dir_prefix(src, root) {
            Some(rel) => Some((root, rel)),
            None => None,
        },
        _ => if occurs(src, "/src/"@) {
            let i = last_occurrence(src, "/src/"@);
            Some((src.subrange(0, i), from(src, i + 1)))
        } else if src.len() == 0 {
            None
        } else if src.contains('/') {
            let i = last_index(src, '/');
            Some((src.subrange(0, i), from(src, i + 1)))
        } else {
            Some((seq![], src))
        },
    }
}

/// Splits a source file path into crate root and entry point: for a path
/// source relative to the package's own directory, otherwise at the last
/// `/src/`, else at the last `/`.
pub fn extract_crate_root(src_path: &str, source: &SourceType) -> (r: Option<(String, String)>)
    ensures
        match r {
            Some((root, entry)) => crate_root_model(src_path@, source@) == Some((root@, entry@)),
            None => crate_root_model(src_path@, source@).is_none(),
        },
{
    let s = chars_of(src_path);
    match source {
        SourceType::Path { path } => {
            let root = chars_of(path.as_str());
            match strip_dir_prefix_exec(s.as_slice(), root.as_slice()) {
                Some(rel) => Some((owned(path.as_str()), string_from_chars(rel.as_slice()))),
                None => None,
            }
        },
        _ => {
            let marker = chars_of("/src/");
            proof {
                reveal_strlit("/src/");
            }
            assert(marker@.len() == 5);
            let n = s.len();
            match rfind_sub(s.as_slice(), marker.as_slice()) {
                Some(i) => {
                    return Some((slice_string(s.as_slice(), 0, i), slice_string(s.as_slice(), i + 1, s.len())));
                },
                None => {},
            }
            if s.len() == 0 {
                return None;
            }
            match rfind_char(s.as_slice(), '/') {
                Some(i) => Some((slice_string(s.as_slice(), 0, i), slice_string(s.as_slice(), i + 1, s.len()))),
                None => Some((String::new(), owned(src_path))),
            }
        },
    }
}

// ---------------------------------------------------------------------------
// Source locations

/// Name, version, source, crate root and entry point of a unit.
pub open spec fn location_model(pkg_id: Seq<char>, src_path: Seq<char>) -> Option<
    (Seq<char>, Seq<char>, SourceKind, Seq<char>, Seq<char>),
> {
    match pkg_id_model(pkg_id) {
        Some((n, v, k)) => match crate_root_model(src_path, k) {
            Some((root, entry)) => Some((n, v, k, root, entry)),
            None => None,
        },
        None => None,
    }
}

impl View for SourceLocation {
    type V = (Seq<char>, Seq<char>, SourceKind, Seq<char>, Seq<char>);

    open spec fn view(&self) -> Self::V {
        (self.name@, self.version@, self.source@, self.crate_root@, self.entry_point@)
    }
}

/// The directory part of an entry point, when it has a non-empty one.
pub open spec fn source_dir_model(entry: Seq<char>) -> Option<Seq<char>> {
    if entry.contains('/') && last_index(entry, '/') > 0 {
        Some(entry.subrange(0, last_index(entry, '/')))
    } else {
        None
    }
}

/// The `lib.fileset.toSource` expression for a location.
pub open spec fn fileset_model(entry: Seq<char>, src_var: Seq<char>, include_cargo_toml: bool) -> Seq<char> {
    let dir = match source_dir_model(entry) {
        Some(d) => "/"@ + d,
        None => seq![],
    };
    let first = "(${"@ + src_var + "}"@ + dir + ")"@;
    let files = if include_cargo_toml {
        first + "\n        "@ + "(${"@ + src_var + "}"@ + "/Cargo.toml"@ + ")"@
    } else {
        first
    };
    "lib.fileset.toSource {\n      root = ${"@ + src_var + "};\n      fileset = lib.fileset.unions [\n        "@
        + files + "\n      ];\n    }"@
}

impl SourceLocation {
    /// The source location of a unit, from its package id and entry point.
    pub fn from_unit(unit: &Unit) -> (r: Option<SourceLocation>)
        ensures
            match r {
                Some(l) => location_model(unit.pkg_id@, unit.target.src_path@) == Some(l@),
                None => location_model(unit.pkg_id@, unit.target.src_path@).is_none(),
            },
    {
        let (name, version, source) = match parse_pkg_id(unit.pkg_id.as_str()) {
            Some(x) => x,
            None => return None,
        };
        let (crate_root, entry_point) = match extract_crate_root(unit.target.src_path.as_str(), &source) {
            Some(x) => x,
            None => return None,
        };
        Some(SourceLocation { name, version, source, entry_point, crate_root })
    }

    /// Whether the source is a local path.
    pub fn is_path(&self) -> (r: bool)
        ensures
            r == (self.source@ is Path),
    {
        match self.source {
            SourceType::Path { .. } => true,
            _ => false,
        }
    }

    /// Whether the source is a registry.
    pub fn is_registry(&self) -> (r: bool)
        ensures
            r == (self.source@ is Registry),
    {
        match self.source {
            SourceType::Registry { .. } => true,
            _ => false,
        }
    }

    /// Whether the source is a git repository.
    pub fn is_git(&self) -> (r: bool)
        ensures
            r == (self.source@ is Git),
    {
        match self.source {
            SourceType::Git { .. } => true,
            _ => false,
        }
    }

    /// The crate root directory.
    pub fn source_dir(&self) -> (r: &str)
        ensures
            r@ == self.crate_root@,
    {
        self.crate_root.as_str()
    }

    /// The crate root relative to the workspace root; the unit graph does
    /// not give it, so there is none.
    pub fn relative_crate_root(&self) -> (r: Option<String>)
        ensures
            r.is_none(),
    {
        None
    }

    /// The directory of the entry point, relative to the crate root.
    fn relative_source_dir(&self) -> (r: Option<String>)
        ensures
            r.deep_view() == source_dir_model(self.entry_point@),
    {
        let e = chars_of(self.entry_point.as_str());
        match rfind_char(e.as_slice(), '/') {
            Some(i) => {
                if i > 0 {
                    Some(slice_string(e.as_slice(), 0, i))
                } else {
                    None
                }
            },
            None => None,
        }
    }

    /// A `lib.fileset.toSource` expression that keeps only the entry
    /// point's directory and, if asked, the crate's `Cargo.toml`.
#[verifier::rlimit(100)]
    pub fn to_nix_fileset(&self, src_var: &str, include_cargo_toml: bool) -> (r: String)
        ensures
            r@ == fileset_model(self.entry_point@, src_var@, include_cargo_toml),
    {
        let mut files = String::new();
        push_str(&mut files, "(${");
        push_str(&mut files, src_var);
        push_str(&mut files, "}");
        match self.relative_source_dir() {
            Some(d) => {
                push_str(&mut files, "/");
                push_str(&mut files, d.as_str());
            },
            None => {},
        }
        push_str(&mut files, ")");
        let ghost first = files@;
        if include_cargo_toml {
            push_str(&mut files, "\n        ");
            push_str(&mut files, "(${");
            push_str(&mut files, src_var);
            push_str(&mut files, "}");
            push_str(&mut files, "/Cargo.toml");
            push_str(&mut files, ")");
        }
        let mut out = String::new();
        push_str(&mut out, "lib.fileset.toSource {\n      root = ${");
        push_str(&mut out, src_var);
        push_str(&mut out, "};\n      fileset = lib.fileset.unions [\n        ");
        push_str(&mut out, files.as_str());
        push_str(&mut out, "\n      ];\n    }");
        proof {
            let dir = match source_dir_model(self.entry_point@) {
                Some(d) => "/"@ + d,
                None => seq![],
            };
            assert(first =~= "(${"@ + src_var@ + "}"@ + dir + ")"@);
        }
        assert(out@ =~= fileset_model(self.entry_point@, src_var@, include_cargo_toml));
        out
    }
}

// ---------------------------------------------------------------------------
// Remapping

/// A path under a cargo registry checkout, rewritten under `vendorDir`:
/// after `/registry/src/` the index segment is dropped.
pub open spec fn registry_remap(src: Seq<char>) -> Option<Seq<char>> {
    if occurs(src, "/registry/src/"@) {
        let after = from(src, first_occurrence(src, "/registry/src/"@) + 14);
        if after.contains('/') {
            Some("${vendorDir}/"@ + from(after, first_index(after, '/') + 1))
        } else {
            None
        }
    } else {
        None
    }
}

/// Where a source path points inside the sandbox.
pub open spec fn remap_source_model(src: Seq<char>, root: Seq<char>, var: Seq<char>) -> Seq<char> {
    match strip_dir_prefix(src, root) {
        Some(rel) => "${"@ + var + "}/"@ + rel,
        None => match registry_remap(src) {
            Some(x) => x,
            None => src,
        },
    }
}

fn remap_registry_path(src_path: &str) -> (r: Option<String>)
    ensures
        r.deep_view() == registry_remap(src_path@),
{
    let s = chars_of(src_path);
    let marker = chars_of("/registry/src/");
    proof {
        reveal_strlit("/registry/src/");
    }
    assert(marker@.len() == 14);
    let n = s.len();
    let pos = match find_sub(s.as_slice(), marker.as_slice()) {
        Some(p) => p,
        None => return None,
    };
    let after = sub_vec(s.as_slice(), pos + 14, n);
    let slash = match find_char(after.as_slice(), '/') {
        Some(k) => k,
        None => return None,
    };
    let mut out = owned("${vendorDir}/");
    let rest = sub_vec(after.as_slice(), slash + 1, after.len());
    crate::text::push_chars(&mut out, rest.as_slice());
    Some(out)
}

/// Rewrites an absolute source path: under the workspace root it becomes
/// `${var}/relative`; under a cargo registry `${vendorDir}/crate-version/...`;
/// otherwise it stays as it is.
pub fn remap_source_path(src_path: &str, workspace_root: &str, nix_src_var: &str) -> (r: String)
    ensures
        r@ == remap_source_model(src_path@, workspace_root@, nix_src_var@),
{
    match make_relative(workspace_root, src_path) {
        Some(rel) => {
            let mut out = owned("${");
            push_str(&mut out, nix_src_var);
            push_str(&mut out, "}/");
            push_str(&mut out, rel.as_str());
            out
        },
        None => match remap_registry_path(src_path) {
            Some(x) => x,
            None => owned(src_path),
        },
    }
}

/// Where a unit's manifest directory points inside the sandbox.
pub open spec fn manifest_dir_model(
    pkg_id: Seq<char>,
    src_path: Seq<char>,
    root: Seq<char>,
    src_var: Seq<char>,
    vendor_var: Seq<char>,
) -> Seq<char> {
    match location_model(pkg_id, src_path) {
        Some((n, v, k, crate_root, _e)) => if k is Path {
            match strip_dir_prefix(crate_root, root) {
                Some(rel) => if rel.len() == 0 {
                    "${"@ + src_var + "}"@
                } else {
                    "${"@ + src_var + "}/"@ + rel
                },
                None => "${"@ + src_var + "}"@,
            }
        } else {
            "${"@ + vendor_var + "}/"@ + n + "-"@ + v
        },
        None => "${"@ + src_var + "}"@,
    }
}

/// A unit's manifest directory inside the sandbox: `${src}` or
/// `${src}/relative` for path sources, `${vendorDir}/name-version` for
/// registry and git sources.
pub fn remap_manifest_dir(
    unit: &Unit,
    workspace_root: &str,
    nix_src_var: &str,
    nix_vendor_var: &str,
) -> (r: String)
    ensures
        r@ == manifest_dir_model(
            unit.pkg_id@,
            unit.target.src_path@,
            workspace_root@,
            nix_src_var@,
            nix_vendor_var@,
        ),
{
    let mut out = owned("${");
    match SourceLocation::from_unit(unit) {
        Some(loc) => {
            if loc.is_path() {
                push_str(&mut out, nix_src_var);
                match make_relative(workspace_root, loc.crate_root.as_str()) {
                    Some(rel) => {
                        if rel.as_str().unicode_len() == 0 {
                            push_str(&mut out, "}");
                        } else {
                            push_str(&mut out, "}/");
                            push_str(&mut out, rel.as_str());
                        }
                    },
                    None => push_str(&mut out, "}"),
                }
            } else {
                push_str(&mut out, nix_vendor_var);
                push_str(&mut out, "}/");
                push_str(&mut out, loc.name.as_str());
                push_str(&mut out, "-");
                push_str(&mut out, loc.version.as_str());
            }
        },
        None => {
            push_str(&mut out, nix_src_var);
            push_str(&mut out, "}");
        },
    }
    out
}

} // verus!
