//! Rendering of Nix expressions: string escaping, attribute sets, and the
//! derivations of the units of a graph.
use vstd::prelude::*;
use crate::build_script::{bs_view_of, run_attrs_model, BuildScriptInfo};
use crate::closure::{closure_list, closure_of, in_closure};
use crate::proc_macro::{requires_host_toolchain, requires_host_toolchain_spec, toolchain_var_model};
use crate::rustc_flags::{underscored, unit_flags, RustcFlags};
use crate::source_filter::{from, remap_source_model, remap_source_path};
use crate::text::{
    chars_of, clone_strings, decimal, find_char, first_index, has_char, has_prefix, matches_at,
    occurs, occurs_at, owned, push_char, push_str, str_eq, string_from_chars, sub_vec,
};
use crate::unit_graph::{
    compile_deps, graph_valid, has_kind, identity_hash_spec, identity_hash_with_spec, is_bin_spec,
    is_compile_spec, is_compile_unit, is_external_spec, is_lib_spec, is_proc_macro_spec,
    is_run_spec, is_test_spec, package_name_spec, version_or_default, Dependency, GraphError, Unit,
    UnitGraph,
};

verus! {

// ---------------------------------------------------------------------------
// Escaping

/// What one character becomes inside a single-line Nix string.
pub open spec fn nix_escape_piece(c: char) -> Seq<char> {
    if c == '\\' {
        seq!['\\', '\\']
    } else if c == '"' {
        seq!['\\', '"']
    } else if c == '\n' {
        seq!['\\', 'n']
    } else if c == '\r' {
        seq!['\\', 'r']
    } else if c == '\t' {
        seq!['\\', 't']
    } else if c == '$' {
        seq!['\\', '$']
    } else {
        seq![c]
    }
}

/// The body of a single-line Nix string that holds `s`.
pub open spec fn nix_escaped(s: Seq<char>) -> Seq<char>
    decreases s.len(),
{
    if s.len() == 0 {
        seq![]
    } else {
        nix_escaped(s.drop_last()) + nix_escape_piece(s.last())
    }
}

/// Escapes a string for a single-line Nix string: `\`, `"`, newline,
/// carriage return, tab and every `$` get a backslash escape.
pub fn escape_nix_string(s: &str) -> (r: String)
    ensures
        r@ == nix_escaped(s@),
{
    let cs = chars_of(s);
    let mut out = String::new();
    let mut i: usize = 0;
    while i < cs.len()
        invariant
            cs@ == s@,
            i <= cs@.len(),
            out@ == nix_escaped(cs@.subrange(0, i as int)),
        decreases cs@.len() - i,
    {
        let c = cs[i];
        if c == '\\' {
            push_char(&mut out, '\\');
            push_char(&mut out, '\\');
        } else if c == '"' {
            push_char(&mut out, '\\');
            push_char(&mut out, '"');
        } else if c == '\n' {
            push_char(&mut out, '\\');
            push_char(&mut out, 'n');
        } else if c == '\r' {
            push_char(&mut out, '\\');
            push_char(&mut out, 'r');
        } else if c == '\t' {
            push_char(&mut out, '\\');
            push_char(&mut out, 't');
        } else if c == '$' {
            push_char(&mut out, '\\');
            push_char(&mut out, '$');
        } else {
            push_char(&mut out, c);
        }
        assert(cs@.subrange(0, i + 1).drop_last() =~= cs@.subrange(0, i as int));
        i = i + 1;
        assert(out@ =~= nix_escaped(cs@.subrange(0, i as int)));
    }
    assert(cs@.subrange(0, cs@.len() as int) =~= cs@);
    out
}

/// `s` with each occurrence of `p` replaced by `r`, leftmost first and
/// without overlap.
pub open spec fn replace_all(s: Seq<char>, p: Seq<char>, r: Seq<char>) -> Seq<char>
    decreases s.len(),
{
    if p.len() == 0 || s.len() < p.len() {
        s
    } else if s.subrange(0, p.len() as int) == p {
        r + replace_all(from(s, p.len() as int), p, r)
    } else {
        seq![s[0]] + replace_all(s.drop_first(), p, r)
    }
}

#[verifier::rlimit(100)]
fn replace_all_exec(s: &[char], p: &[char], r: &[char]) -> (out: Vec<char>)
    requires
        p@.len() > 0,
    ensures
        out@ == replace_all(s@, p@, r@),
{
    let mut out: Vec<char> = Vec::new();
    let mut i: usize = 0;
    assert(from(s@, 0) =~= s@);
    while i < s.len()
        invariant
            p@.len() > 0,
            i <= s@.len(),
            out@ + replace_all(from(s@, i as int), p@, r@) == replace_all(s@, p@, r@),
        decreases s@.len() - i,
    {
        let ghost t = from(s@, i as int);
        if matches_at(s, p, i) {
            assert(t.subrange(0, p@.len() as int) =~= s@.subrange(i as int, i + p@.len()));
            assert(from(t, p@.len() as int) =~= from(s@, i + p@.len()));
            let ghost before = out@;
            let mut k: usize = 0;
            while k < r.len()
                invariant
                    k <= r@.len(),
                    out@ == before + r@.subrange(0, k as int),
                decreases r@.len() - k,
            {
                out.push(r[k]);
                k = k + 1;
                assert(out@ =~= before + r@.subrange(0, k as int));
            }
            assert(r@.subrange(0, r@.len() as int) =~= r@);
            assert(out@ + replace_all(from(s@, i + p@.len()), p@, r@) =~= before + (r@ + replace_all(from(t, p@.len() as int), p@, r@)));
            i = i + p.len();
        } else {
            assert(t.len() >= p@.len() ==> t.subrange(0, p@.len() as int) =~= s@.subrange(i as int, i + p@.len()));
            assert(t.drop_first() =~= from(s@, i + 1));
            let ghost before = out@;
            out.push(s[i]);
            assert(out@ + replace_all(from(s@, i + 1), p@, r@) =~= before + (seq![s@[i as int]] + replace_all(t.drop_first(), p@, r@)));
            i = i + 1;
        }
    }
    assert(from(s@, i as int) =~= seq![]);
    assert(out@ + seq![] =~= out@);
    out
}

/// The body of a multiline Nix string that holds `s`: `''` becomes `'''`,
/// then `${` becomes `''${`.
pub open spec fn multiline_escaped(s: Seq<char>) -> Seq<char> {
    replace_all(replace_all(s, seq!['\'', '\''], seq!['\'', '\'', '\'']), seq!['$', '{'], seq!['\'', '\'', '$', '{'])
}

/// Escapes a string for a multiline Nix string (`''...''`).
pub fn escape_nix_multiline(s: &str) -> (r: String)
    ensures
        r@ == multiline_escaped(s@),
{
    let cs = chars_of(s);
    let q2 = vec!['\'', '\''];
    let q3 = vec!['\'', '\'', '\''];
    let d = vec!['$', '{'];
    let qd = vec!['\'', '\'', '$', '{'];
    let a = replace_all_exec(cs.as_slice(), q2.as_slice(), q3.as_slice());
    let b = replace_all_exec(a.as_slice(), d.as_slice(), qd.as_slice());
    assert(q2@ =~= seq!['\'', '\'']);
    assert(q3@ =~= seq!['\'', '\'', '\'']);
    assert(d@ =~= seq!['$', '{']);
    assert(qd@ =~= seq!['\'', '\'', '$', '{']);
    string_from_chars(b.as_slice())
}

/// An escaped Nix string, or a raw Nix expression.
#[derive(Debug, Clone)]
pub struct NixString(String);

impl View for NixString {
    type V = Seq<char>;

    closed spec fn view(&self) -> Seq<char> {
        self.0@
    }
}

impl NixString {
    /// The escaped form of `s`.
    pub fn new(s: &str) -> (r: NixString)
        ensures
            r@ == nix_escaped(s@),
    {
        NixString(escape_nix_string(s))
    }

    /// A raw expression, taken as it is.
    pub fn raw(s: &str) -> (r: NixString)
        ensures
            r@ == s@,
    {
        NixString(owned(s))
    }

    /// The text.
    pub fn as_str(&self) -> (r: &str)
        ensures
            r@ == self@,
    {
        self.0.as_str()
    }
}

// ---------------------------------------------------------------------------
// Attribute sets

/// `n` times two spaces.
pub open spec fn spaces(n: nat) -> Seq<char>
    decreases n,
{
    if n == 0 {
        seq![]
    } else {
        spaces((n - 1) as nat) + seq![' ', ' ']
    }
}

/// Whether a rendered value is a multiline string.
pub open spec fn is_multiline_value(v: Seq<char>) -> bool {
    has_prefix(v, seq!['\'', '\'']) && v.contains('\n')
}

/// `v` with every newline followed by `pad`.
pub open spec fn indent_lines(v: Seq<char>, pad: Seq<char>) -> Seq<char>
    decreases v.len(),
{
    if v.len() == 0 {
        seq![]
    } else {
        indent_lines(v.drop_last(), pad) + if v.last() == '\n' {
            seq!['\n'] + pad
        } else {
            seq![v.last()]
        }
    }
}

/// One rendered attribute.
pub open spec fn render_attr(kv: (Seq<char>, Seq<char>), inner: Seq<char>) -> Seq<char> {
    inner + kv.0 + " = "@ + (if is_multiline_value(kv.1) {
        indent_lines(kv.1, inner + "  "@)
    } else {
        kv.1
    }) + ";\n"@
}

/// The rendered attributes, in order.
pub open spec fn render_attrs(attrs: Seq<(Seq<char>, Seq<char>)>, inner: Seq<char>) -> Seq<char>
    decreases attrs.len(),
{
    if attrs.len() == 0 {
        seq![]
    } else {
        render_attrs(attrs.drop_last(), inner) + render_attr(attrs.last(), inner)
    }
}

/// An attribute set rendered at an indentation level: braces at the level,
/// attributes one level deeper, in insertion order.
pub open spec fn render_model(attrs: Seq<(Seq<char>, Seq<char>)>, indent: nat) -> Seq<char> {
    "{\n"@ + render_attrs(attrs, spaces(indent + 1)) + spaces(indent) + "}"@
}

/// A builder of Nix attribute sets that keeps insertion order.
#[derive(Debug)]
pub struct NixAttrSet {
    attrs: Vec<(String, String)>,
}

impl View for NixAttrSet {
    type V = Seq<(Seq<char>, Seq<char>)>;

    closed spec fn view(&self) -> Seq<(Seq<char>, Seq<char>)> {
        self.attrs.deep_view()
    }
}

/// The content-addressed attributes, in order.
pub open spec fn ca_attrs() -> Seq<(Seq<char>, Seq<char>)> {
    seq![
        ("__contentAddressed"@, "true"@),
        ("outputHashMode"@, "\""@ + nix_escaped("recursive"@) + "\""@),
        ("outputHashAlgo"@, "\""@ + nix_escaped("sha256"@) + "\""@),
        ("dontFixup"@, "true"@),
    ]
}

/// A list of quoted, escaped strings.
pub open spec fn string_list_model(vs: Seq<Seq<char>>) -> Seq<char> {
    "[ "@ + string_items(vs) + " ]"@
}

/// The quoted items of a string list, separated by spaces.
pub open spec fn string_items(vs: Seq<Seq<char>>) -> Seq<char>
    decreases vs.len(),
{
    if vs.len() == 0 {
        seq![]
    } else if vs.len() == 1 {
        "\""@ + nix_escaped(vs[0]) + "\""@
    } else {
        string_items(vs.drop_last()) + " "@ + "\""@ + nix_escaped(vs.last()) + "\""@
    }
}

/// The items of an expression list, separated by spaces.
pub open spec fn expr_items(vs: Seq<Seq<char>>) -> Seq<char>
    decreases vs.len(),
{
    if vs.len() == 0 {
        seq![]
    } else if vs.len() == 1 {
        vs[0]
    } else {
        expr_items(vs.drop_last()) + " "@ + vs.last()
    }
}

/// A list of raw expressions.
pub open spec fn expr_list_model(vs: Seq<Seq<char>>) -> Seq<char> {
    "[ "@ + expr_items(vs) + " ]"@
}

/// `n` levels of indentation.
fn indentation(n: usize) -> (r: String)
    ensures
        r@ == spaces(n as nat),
{
    let mut out = String::new();
    let mut i: usize = 0;
    while i < n
        invariant
            i <= n,
            out@ == spaces(i as nat),
        decreases n - i,
    {
        push_str(&mut out, "  ");
        proof {
            reveal_strlit("  ");
        }
        i = i + 1;
        assert(out@ =~= spaces(i as nat));
    }
    out
}

impl NixAttrSet {
    /// An empty attribute set.
    pub fn new() -> (r: NixAttrSet)
        ensures
            r@ == Seq::<(Seq<char>, Seq<char>)>::empty(),
    {
        let r = NixAttrSet { attrs: Vec::new() };
        assert(r@ =~= Seq::<(Seq<char>, Seq<char>)>::empty());
        r
    }

    fn push(&mut self, key: &str, value: String)
        ensures
            final(self)@ == old(self)@.push((key@, value@)),
    {
        self.attrs.push((owned(key), value));
        assert(self@ =~= old(self)@.push((key@, value@)));
    }

    /// Adds a quoted, escaped string.
    pub fn string(&mut self, key: &str, value: &str)
        ensures
            final(self)@ == old(self)@.push((key@, "\""@ + nix_escaped(value@) + "\""@)),
    {
        let mut v = owned("\"");
        let e = escape_nix_string(value);
        push_str(&mut v, e.as_str());
        push_str(&mut v, "\"");
        self.push(key, v);
    }

    /// Adds a raw expression.
    pub fn expr(&mut self, key: &str, value: &str)
        ensures
            final(self)@ == old(self)@.push((key@, value@)),
    {
        self.push(key, owned(value));
    }

    /// Adds a boolean.
    pub fn bool(&mut self, key: &str, value: bool)
        ensures
            final(self)@ == old(self)@.push((key@, if value { "true"@ } else { "false"@ })),
    {
        self.push(key, owned(if value { "true" } else { "false" }));
    }

    /// Adds the content-addressed attributes: `__contentAddressed = true`,
    /// recursive sha256 output hashing, and no fixup phase.
    pub fn add_ca_attrs(&mut self)
        ensures
            final(self)@ == old(self)@ + ca_attrs(),
    {
        self.bool("__contentAddressed", true);
        self.string("outputHashMode", "recursive");
        self.string("outputHashAlgo", "sha256");
        self.bool("dontFixup", true);
        assert(self@ =~= old(self)@ + ca_attrs());
    }

    /// Adds an integer.
    pub fn integer(&mut self, key: &str, value: i64)
        ensures
            final(self)@ == old(self)@.push((key@, crate::text::signed_decimal(value as int))),
    {
        let v = crate::text::signed_decimal_string(value);
        self.push(key, v);
    }

    /// Adds a list of quoted, escaped strings.
    pub fn string_list(&mut self, key: &str, values: &Vec<String>)
        ensures
            final(self)@ == old(self)@.push((key@, string_list_model(values.deep_view()))),
    {
        let mut items = String::new();
        let mut i: usize = 0;
        while i < values.len()
            invariant
                i <= values@.len(),
                items@ == string_items(values.deep_view().subrange(0, i as int)),
            decreases values@.len() - i,
        {
            if i > 0 {
                push_str(&mut items, " ");
            }
            push_str(&mut items, "\"");
            let e = escape_nix_string(values[i].as_str());
            push_str(&mut items, e.as_str());
            push_str(&mut items, "\"");
            assert(values.deep_view().subrange(0, i + 1).drop_last() =~= values.deep_view().subrange(0, i as int));
            i = i + 1;
            assert(items@ =~= string_items(values.deep_view().subrange(0, i as int)));
        }
        assert(values.deep_view().subrange(0, values@.len() as int) =~= values.deep_view());
        let mut v = owned("[ ");
        push_str(&mut v, items.as_str());
        push_str(&mut v, " ]");
        self.push(key, v);
    }

    /// Adds a list of raw expressions.
    pub fn expr_list(&mut self, key: &str, values: &Vec<String>)
        ensures
            final(self)@ == old(self)@.push((key@, expr_list_model(values.deep_view()))),
    {
        let mut items = String::new();
        let mut i: usize = 0;
        while i < values.len()
            invariant
                i <= values@.len(),
                items@ == expr_items(values.deep_view().subrange(0, i as int)),
            decreases values@.len() - i,
        {
            if i > 0 {
                push_str(&mut items, " ");
            }
            push_str(&mut items, values[i].as_str());
            assert(values.deep_view().subrange(0, i + 1).drop_last() =~= values.deep_view().subrange(0, i as int));
            i = i + 1;
            assert(items@ =~= expr_items(values.deep_view().subrange(0, i as int)));
        }
        assert(values.deep_view().subrange(0, values@.len() as int) =~= values.deep_view());
        let mut v = owned("[ ");
        push_str(&mut v, items.as_str());
        push_str(&mut v, " ]");
        self.push(key, v);
    }

    /// Adds a multiline string, escaped.
    pub fn multiline(&mut self, key: &str, value: &str)
        ensures
            final(self)@ == old(self)@.push((key@, "''\n"@ + multiline_escaped(value@) + "\n''"@)),
    {
        let mut v = owned("''\n");
        let e = escape_nix_multiline(value);
        push_str(&mut v, e.as_str());
        push_str(&mut v, "\n''");
        self.push(key, v);
    }

    /// Adds a multiline string as it is, so that Nix interpolates it.
    pub fn multiline_interpolated(&mut self, key: &str, value: &str)
        ensures
            final(self)@ == old(self)@.push((key@, "''\n"@ + value@ + "\n''"@)),
    {
        let mut v = owned("''\n");
        push_str(&mut v, value);
        push_str(&mut v, "\n''");
        self.push(key, v);
    }

    /// Renders the set: `{` and `}` at `indent`, attributes one level deeper;
    /// the continuation lines of multiline values two more columns in.
#[verifier::rlimit(100)]
    pub fn render(&self, indent: usize) -> (r: String)
        requires
            indent < usize::MAX,
        ensures
            r@ == render_model(self@, indent as nat),
    {
        let base = indentation(indent);
        let inner = indentation(indent + 1);
        let mut pad = owned(inner.as_str());
        push_str(&mut pad, "  ");
        let mut out = owned("{\n");
        let ghost head = out@;
        let mut i: usize = 0;
        while i < self.attrs.len()
            invariant
                i <= self@.len(),
                self@.len() == self.attrs@.len(),
                inner@ == spaces(indent as nat + 1),
                pad@ == inner@ + "  "@,
                out@ == head + render_attrs(self@.subrange(0, i as int), inner@),
            decreases self.attrs@.len() - i,
        {
            let key = &self.attrs[i].0;
            let value = &self.attrs[i].1;
            assert(self@[i as int] == (key@, value@));
            push_str(&mut out, inner.as_str());
            push_str(&mut out, key.as_str());
            push_str(&mut out, " = ");
            let vc = chars_of(value.as_str());
            let ml = vc.len() >= 2 && vc[0] == '\'' && vc[1] == '\'' && has_char(vc.as_slice(), '\n');
            assert(ml == is_multiline_value(value@)) by {
                if vc@.len() >= 2 {
                    assert(vc@.subrange(0, 2) =~= seq!['\'', '\''] <==> (vc@[0] == '\'' && vc@[1] == '\''));
                }
            }
            if ml {
                let ind = indent_chars(vc.as_slice(), pad.as_str());
                push_str(&mut out, ind.as_str());
            } else {
                push_str(&mut out, value.as_str());
            }
            push_str(&mut out, ";\n");
            assert(self@.subrange(0, i + 1).drop_last() =~= self@.subrange(0, i as int));
            i = i + 1;
            assert(out@ =~= head + render_attrs(self@.subrange(0, i as int), inner@));
        }
        assert(self@.subrange(0, self.attrs@.len() as int) =~= self@);
        push_str(&mut out, base.as_str());
        push_str(&mut out, "}");
        assert(out@ =~= render_model(self@, indent as nat));
        out
    }
}

/// `v` with every newline followed by `pad`.
fn indent_chars(v: &[char], pad: &str) -> (r: String)
    ensures
        r@ == indent_lines(v@, pad@),
{
    let mut out = String::new();
    let mut i: usize = 0;
    while i < v.len()
        invariant
            i <= v@.len(),
            out@ == indent_lines(v@.subrange(0, i as int), pad@),
        decreases v@.len() - i,
    {
        push_char(&mut out, v[i]);
        if v[i] == '\n' {
            push_str(&mut out, pad);
        }
        assert(v@.subrange(0, i + 1).drop_last() =~= v@.subrange(0, i as int));
        i = i + 1;
        assert(out@ =~= indent_lines(v@.subrange(0, i as int), pad@));
    }
    assert(v@.subrange(0, v@.len() as int) =~= v@);
    out
}

// ---------------------------------------------------------------------------
// Package environment

/// The `k`-th `.`-separated field of `s`, if there is one.
pub open spec fn dot_field(s: Seq<char>, k: nat) -> Option<Seq<char>>
    decreases k,
{
    if s.contains('.') && 0 <= first_index(s, '.') < s.len() {
        if k == 0 {
            Some(s.subrange(0, first_index(s, '.')))
        } else {
            dot_field(from(s, first_index(s, '.') + 1), (k - 1) as nat)
        }
    } else if k == 0 {
        Some(s)
    } else {
        None
    }
}

/// `s` up to its first `-`.
pub open spec fn before_dash(s: Seq<char>) -> Seq<char> {
    if s.contains('-') {
        s.subrange(0, first_index(s, '-'))
    } else {
        s
    }
}

/// A field, or `0` when there is none.
pub open spec fn field_or_zero(f: Option<Seq<char>>) -> Seq<char> {
    match f {
        Some(x) => x,
        None => "0"@,
    }
}

/// Major, minor and patch of a version string; the patch loses any
/// pre-release suffix.
#[derive(Debug, Clone)]
pub struct VersionParts {
    pub major: String,
    pub minor: String,
    pub patch: String,
}

/// The first `.`-separated field of `s` from `i` on: its end, and where the
/// next field starts.
fn next_dot_field(s: &[char], i: usize) -> (r: (usize, Option<usize>))
    requires
        i <= s@.len(),
    ensures
        i <= r.0 <= s@.len(),
        dot_field(from(s@, i as int), 0) == Some(s@.subrange(i as int, r.0 as int)),
        match r.1 {
            Some(j) => j == r.0 + 1 && j <= s@.len() && forall|k: nat|
                dot_field(from(s@, i as int), k + 1) == #[trigger] dot_field(from(s@, j as int), k),
            None => r.0 == s@.len() && forall|k: nat| k > 0 ==> #[trigger] dot_field(from(s@, i as int), k).is_none(),
        },
{
    let t = sub_vec(s, i, s.len());
    assert(t@ =~= from(s@, i as int));
    match find_char(t.as_slice(), '.') {
        Some(d) => {
            assert(from(t@, d + 1) =~= from(s@, i + d + 1));
            assert(t@.subrange(0, d as int) =~= s@.subrange(i as int, i + d));
            assert forall|k: nat| dot_field(from(s@, i as int), k + 1) == #[trigger] dot_field(from(s@, (i + d + 1) as int), k) by {
                assert((k + 1 - 1) as nat == k);
            }
            (i + d, Some(i + d + 1))
        },
        None => {
            assert(s@.subrange(i as int, s@.len() as int) =~= t@);
            (s.len(), None)
        },
    }
}

impl VersionParts {
    /// Splits a version like `1.2.3` or `1.2.3-alpha`; a missing field is `0`.
    pub fn parse(version: &str) -> (r: VersionParts)
        ensures
            r.major@ == field_or_zero(dot_field(version@, 0)),
            r.minor@ == field_or_zero(dot_field(version@, 1)),
            r.patch@ == before_dash(field_or_zero(dot_field(version@, 2))),
    {
        let v = chars_of(version);
        assert(from(v@, 0) =~= v@);
        let (e0, n0) = next_dot_field(v.as_slice(), 0);
        let major = slice_string_at(v.as_slice(), 0, e0);
        let (minor, patch_full) = match n0 {
            Some(s1) => {
                let (e1, n1) = next_dot_field(v.as_slice(), s1);
                assert(dot_field(v@, 1) == dot_field(from(v@, s1 as int), 0));
                let minor = slice_string_at(v.as_slice(), s1, e1);
                let patch_full = match n1 {
                    Some(s2) => {
                        let (e2, _n2) = next_dot_field(v.as_slice(), s2);
                        assert(dot_field(v@, 2) == dot_field(from(v@, s1 as int), 1));
                        assert(dot_field(from(v@, s1 as int), 1) == dot_field(from(v@, s2 as int), 0));
                        sub_vec(v.as_slice(), s2, e2)
                    },
                    None => {
                        assert(dot_field(v@, 2) == dot_field(from(v@, s1 as int), 1));
                        assert(dot_field(from(v@, s1 as int), 1).is_none());
                        proof {
                            reveal_strlit("0");
                        }
                        let z = chars_of("0");
                        z
                    },
                };
                (minor, patch_full)
            },
            None => {
                assert(dot_field(v@, 1).is_none());
                assert(dot_field(v@, 2).is_none());
                (owned("0"), chars_of("0"))
            },
        };
        let patch = match find_char(patch_full.as_slice(), '-') {
            Some(k) => slice_string_at(patch_full.as_slice(), 0, k),
            None => string_from_chars(patch_full.as_slice()),
        };
        VersionParts { major, minor, patch }
    }
}

fn slice_string_at(s: &[char], a: usize, b: usize) -> (r: String)
    requires
        a <= b <= s@.len(),
    ensures
        r@ == s@.subrange(a as int, b as int),
{
    crate::text::slice_string(s, a, b)
}

/// An ASCII letter in upper case; other characters stay.
pub open spec fn ascii_upper(c: char) -> char {
    if 'a' <= c && c <= 'z' {
        (((c as u32) - 32) as u32) as char
    } else {
        c
    }
}

/// Relies on `char::to_ascii_uppercase`: `a` to `z` become `A` to `Z`, any
/// other character stays.
#[verifier::external_body]
fn to_ascii_upper(c: char) -> (r: char)
    ensures
        r == ascii_upper(c),
{
    c.to_ascii_uppercase()
}

/// A feature name as it appears in an environment variable: ASCII letters
/// upper-cased, `-` as `_`.
pub open spec fn env_name(s: Seq<char>) -> Seq<char> {
    s.map_values(|c: char| if c == '-' { '_' } else { ascii_upper(c) })
}

/// Appends the environment form of a name.
pub(crate) fn push_env_name(out: &mut String, s: &str)
    ensures
        final(out)@ == old(out)@ + env_name(s@),
{
    let cs = chars_of(s);
    let ghost start = out@;
    let mut i: usize = 0;
    while i < cs.len()
        invariant
            cs@ == s@,
            i <= cs@.len(),
            out@ == start + env_name(cs@.subrange(0, i as int)),
        decreases cs@.len() - i,
    {
        let c = cs[i];
        if c == '-' {
            push_char(out, '_');
        } else {
            push_char(out, to_ascii_upper(c));
        }
        i = i + 1;
        assert(out@ =~= start + env_name(cs@.subrange(0, i as int)));
    }
    assert(cs@.subrange(0, cs@.len() as int) =~= cs@);
}

/// One `export CARGO_FEATURE_X=1` line per feature, in order.
pub open spec fn feature_exports(fs: Seq<Seq<char>>) -> Seq<char>
    decreases fs.len(),
{
    if fs.len() == 0 {
        seq![]
    } else {
        feature_exports(fs.drop_last()) + "export CARGO_FEATURE_"@ + env_name(fs.last()) + "=1\n"@
    }
}

/// Appends the feature exports.
pub(crate) fn push_feature_exports(out: &mut String, features: &Vec<String>)
    ensures
        final(out)@ == old(out)@ + feature_exports(features.deep_view()),
{
    let ghost start = out@;
    let mut i: usize = 0;
    while i < features.len()
        invariant
            i <= features@.len(),
            out@ == start + feature_exports(features.deep_view().subrange(0, i as int)),
        decreases features@.len() - i,
    {
        push_str(out, "export CARGO_FEATURE_");
        push_env_name(out, features[i].as_str());
        push_str(out, "=1\n");
        assert(features.deep_view().subrange(0, i + 1).drop_last() =~= features.deep_view().subrange(0, i as int));
        i = i + 1;
        assert(out@ =~= start + feature_exports(features.deep_view().subrange(0, i as int)));
    }
    assert(features.deep_view().subrange(0, features@.len() as int) =~= features.deep_view());
}

/// The fixed empty package fields.
pub open spec fn empty_pkg_fields() -> Seq<char> {
    "export CARGO_PKG_VERSION_PRE=\"\"\nexport CARGO_PKG_AUTHORS=\"\"\nexport CARGO_PKG_DESCRIPTION=\"\"\nexport CARGO_PKG_HOMEPAGE=\"\"\nexport CARGO_PKG_REPOSITORY=\"\"\nexport CARGO_PKG_LICENSE=\"\"\nexport CARGO_PKG_LICENSE_FILE=\"\"\nexport CARGO_PKG_RUST_VERSION=\"\"\nexport CARGO_PKG_README=\"\"\n"@
}

/// The `CARGO_PKG_*` and `CARGO_FEATURE_*` exports of a unit.
pub open spec fn pkg_exports_model(name: Seq<char>, version: Seq<char>, features: Seq<Seq<char>>) -> Seq<char> {
    "# Cargo package environment variables for env!() macros\n"@
        + "export CARGO_PKG_NAME=\""@ + name + "\"\n"@
        + "export CARGO_PKG_VERSION=\""@ + version + "\"\n"@
        + "export CARGO_PKG_VERSION_MAJOR=\""@ + field_or_zero(dot_field(version, 0)) + "\"\n"@
        + "export CARGO_PKG_VERSION_MINOR=\""@ + field_or_zero(dot_field(version, 1)) + "\"\n"@
        + "export CARGO_PKG_VERSION_PATCH=\""@ + before_dash(field_or_zero(dot_field(version, 2))) + "\"\n"@
        + empty_pkg_fields() + feature_exports(features)
}

/// Shell exports of the `CARGO_PKG_*` variables (the version also split into
/// major, minor and patch) and one `CARGO_FEATURE_X=1` per feature.
pub fn generate_cargo_pkg_exports(package_name: &str, version: &str, features: &Vec<String>) -> (r: String)
    ensures
        r@ == pkg_exports_model(package_name@, version@, features.deep_view()),
{
    let vp = VersionParts::parse(version);
    let mut script = owned("# Cargo package environment variables for env!() macros\n");
    push_str(&mut script, "export CARGO_PKG_NAME=\"");
    push_str(&mut script, package_name);
    push_str(&mut script, "\"\n");
    push_str(&mut script, "export CARGO_PKG_VERSION=\"");
    push_str(&mut script, version);
    push_str(&mut script, "\"\n");
    push_str(&mut script, "export CARGO_PKG_VERSION_MAJOR=\"");
    push_str(&mut script, vp.major.as_str());
    push_str(&mut script, "\"\n");
    push_str(&mut script, "export CARGO_PKG_VERSION_MINOR=\"");
    push_str(&mut script, vp.minor.as_str());
    push_str(&mut script, "\"\n");
    push_str(&mut script, "export CARGO_PKG_VERSION_PATCH=\"");
    push_str(&mut script, vp.patch.as_str());
    push_str(&mut script, "\"\n");
    push_str(&mut script, "export CARGO_PKG_VERSION_PRE=\"\"\nexport CARGO_PKG_AUTHORS=\"\"\nexport CARGO_PKG_DESCRIPTION=\"\"\nexport CARGO_PKG_HOMEPAGE=\"\"\nexport CARGO_PKG_REPOSITORY=\"\"\nexport CARGO_PKG_LICENSE=\"\"\nexport CARGO_PKG_LICENSE_FILE=\"\"\nexport CARGO_PKG_RUST_VERSION=\"\"\nexport CARGO_PKG_README=\"\"\n");
    push_feature_exports(&mut script, features);
    assert(script@ =~= pkg_exports_model(package_name@, version@, features.deep_view()));
    script
}

// ---------------------------------------------------------------------------
// Unit derivations

/// A dependency as the consuming derivation refers to it.
#[derive(Debug, Clone)]
pub struct DepRef {
    /// Nix expression of the dependency's derivation (`units."name"`).
    pub nix_var: String,
    /// Name under which the crate is passed to rustc.
    pub extern_crate_name: String,
    /// Library name on disk (`lib{lib_name}-{hash}.rlib`).
    pub lib_name: String,
    /// The dependency's identity, its file-name suffix.
    pub identity_hash: String,
    /// The dependency's derivation name.
    pub derivation_name: String,
    /// Whether the dependency is a proc-macro.
    pub is_proc_macro: bool,
}

/// A dependency as plain sequences: variable, alias, library name,
/// identity, and whether it is a proc-macro.
pub type DepModel = (Seq<char>, Seq<char>, Seq<char>, Seq<char>, bool);

impl View for DepRef {
    type V = DepModel;

    open spec fn view(&self) -> DepModel {
        (self.nix_var@, self.extern_crate_name@, self.lib_name@, self.identity_hash@, self.is_proc_macro)
    }
}

/// The build-script run that a unit reads its extra flags from.
#[derive(Debug, Clone)]
pub struct BuildScriptRef {
    /// Nix expression of the run derivation.
    pub run_drv_var: String,
    /// Name of the derivation that compiles the script.
    pub compile_drv_name: String,
    /// Name of the run derivation.
    pub run_drv_name: String,
}

/// A unit derivation as plain values.
pub struct DrvModel {
    pub pname: Seq<char>,
    pub version: Seq<char>,
    pub crate_types: Seq<Seq<char>>,
    pub src_path: Seq<char>,
    pub features: Seq<Seq<char>>,
    pub is_proc_macro: bool,
    pub deps: Seq<DepModel>,
    pub lib_search: Seq<Seq<char>>,
    pub build_script: Option<Seq<char>>,
    pub flags: Seq<Seq<char>>,
    pub content_addressed: bool,
    pub toolchain_var: Seq<char>,
}

/// The builder of one unit's derivation.
#[derive(Debug)]
pub struct UnitDerivation {
    /// Derivation name.
    pub name: String,
    /// Package name of the derivation (the target name).
    pub pname: String,
    /// Package version.
    pub version: String,
    /// Rust edition.
    pub edition: String,
    /// Crate types.
    pub crate_types: Vec<String>,
    /// Entry point, as a Nix expression.
    pub src_path: String,
    /// Enabled features.
    pub features: Vec<String>,
    /// Optimization level.
    pub opt_level: String,
    /// Whether this is a test build.
    pub is_test: bool,
    /// Whether this is a proc-macro.
    pub is_proc_macro: bool,
    /// Direct dependencies, passed with `--extern`.
    pub deps: Vec<DepRef>,
    /// The transitive dependencies searched with `-L`: (variable, library name).
    pub lib_search_deps: Vec<(String, String)>,
    /// The build-script run this unit reads flags from, if any.
    pub build_script_ref: Option<BuildScriptRef>,
    /// Rustc arguments.
    pub rustc_flags: RustcFlags,
    /// Whether the derivation is content-addressed.
    pub content_addressed: bool,
    /// The toolchain variable (`rustToolchain` or `hostRustToolchain`).
    pub toolchain_var: String,
}

/// The first components of a sequence of pairs.
pub open spec fn firsts(s: Seq<(Seq<char>, Seq<char>)>) -> Seq<Seq<char>> {
    s.map_values(|p: (Seq<char>, Seq<char>)| p.0)
}

impl View for UnitDerivation {
    type V = DrvModel;

    open spec fn view(&self) -> DrvModel {
        DrvModel {
            pname: self.pname@,
            version: self.version@,
            crate_types: self.crate_types.deep_view(),
            src_path: self.src_path@,
            features: self.features.deep_view(),
            is_proc_macro: self.is_proc_macro,
            deps: self.deps@.map_values(|d: DepRef| d@),
            lib_search: firsts(self.lib_search_deps.deep_view()),
            build_script: match self.build_script_ref {
                Some(b) => Some(b.run_drv_var@),
                None => None,
            },
            flags: self.rustc_flags@,
            content_addressed: self.content_addressed,
            toolchain_var: self.toolchain_var@,
        }
    }
}

/// The shell that reads a build-script run's outputs into the environment
/// and into `$BUILD_SCRIPT_FLAGS`.
pub open spec fn flag_reader_model(v: Seq<char>) -> Seq<char> {
    "# Read build script outputs\nexport OUT_DIR=${"@ + v + "}/out-dir\n"@
        + "while IFS= read -r flag; do BUILD_SCRIPT_FLAGS=\"$BUILD_SCRIPT_FLAGS --cfg $flag\"; done < ${"@ + v + "}/rustc-cfg\n"@
        + "while IFS= read -r flag; do BUILD_SCRIPT_FLAGS=\"$BUILD_SCRIPT_FLAGS -l $flag\"; done < ${"@ + v + "}/rustc-link-lib\n"@
        + "while IFS= read -r flag; do BUILD_SCRIPT_FLAGS=\"$BUILD_SCRIPT_FLAGS -L $flag\"; done < ${"@ + v + "}/rustc-link-search\n"@
        + "while IFS= read -r kv; do export \"$kv\"; done < ${"@ + v + "}/rustc-env\n"@
}

/// The shell variable that holds a proc-macro dependency's library path.
pub open spec fn procmacro_var(lib: Seq<char>) -> Seq<char> {
    "PROCMACRO_"@ + crate::nix_gen::env_name(lib)
}

/// The path of a dependency's library with the given extension.
pub open spec fn dep_lib_path(d: DepModel, ext: Seq<char>) -> Seq<char> {
    "${"@ + d.0 + "}/lib/lib"@ + d.2 + "-"@ + d.3 + ext
}

/// The lines that find each proc-macro dependency's library: the `.dylib`
/// first, else the `.so`.
pub open spec fn procmacro_setup(deps: Seq<DepModel>) -> Seq<char>
    decreases deps.len(),
{
    if deps.len() == 0 {
        seq![]
    } else {
        let d = deps.last();
        procmacro_setup(deps.drop_last()) + if d.4 {
            procmacro_var(d.2) + "=\""@ + dep_lib_path(d, ".dylib"@) + "\"\n"@ + "[ -f \"$"@
                + procmacro_var(d.2) + "\" ] || "@ + procmacro_var(d.2) + "=\""@ + dep_lib_path(d, ".so"@)
                + "\"\n"@
        } else {
            seq![]
        }
    }
}

/// One `-L dependency=...` line per searched dependency.
pub open spec fn search_lines(vars: Seq<Seq<char>>) -> Seq<char>
    decreases vars.len(),
{
    if vars.len() == 0 {
        seq![]
    } else {
        search_lines(vars.drop_last()) + "  -L dependency=${"@ + vars.last() + "}/lib \\\n"@
    }
}

/// One `--extern alias=path` line per direct dependency.
pub open spec fn extern_lines(deps: Seq<DepModel>) -> Seq<char>
    decreases deps.len(),
{
    if deps.len() == 0 {
        seq![]
    } else {
        let d = deps.last();
        extern_lines(deps.drop_last()) + "  --extern "@ + d.1 + if d.4 {
            "=\"$"@ + procmacro_var(d.2) + "\""@
        } else {
            "="@ + dep_lib_path(d, ".rlib"@)
        } + " \\\n"@
    }
}

/// Whether the crate types hold `bin`.
pub open spec fn is_bin_types(ts: Seq<Seq<char>>) -> bool {
    ts.contains("bin"@)
}

/// The output arguments: `-o build/NAME` for binaries, an output directory
/// otherwise.
pub open spec fn output_lines(d: DrvModel) -> Seq<char> {
    if is_bin_types(d.crate_types) {
        "  -o build/"@ + d.pname + " \\\n"@
    } else {
        "  --out-dir build \\\n  --emit=dep-info,link \\\n"@
    }
}

/// The build phase of a unit (Nix multiline syntax).
pub open spec fn build_phase_model(d: DrvModel) -> Seq<char> {
    "mkdir -p build\nBUILD_SCRIPT_FLAGS=\"\"\n\n"@ + multiline_escaped(
        pkg_exports_model(d.pname, d.version, d.features),
    ) + "\n"@ + match d.build_script {
        Some(v) => "\n"@ + flag_reader_model(v) + "\n"@,
        None => seq![],
    } + procmacro_setup(d.deps) + "rustc "@ + multiline_escaped(crate::rustc_flags::shell_join(d.flags))
        + " \\\n"@ + search_lines(d.lib_search) + (if d.is_proc_macro {
        "  --extern proc_macro \\\n"@
    } else {
        seq![]
    }) + extern_lines(d.deps) + "  "@ + d.src_path + " \\\n"@ + output_lines(d)
        + "  $BUILD_SCRIPT_FLAGS"@
}

/// What installs a library's outputs.
pub open spec fn lib_install() -> Seq<char> {
    "[ -d \"$out/lib\" ] || {\n  mkdir -p $out/lib\n  cp build/* $out/lib/\n  # Set permissions: 755 for shared libs (dylib/so), 644 for others\n  for f in $out/lib/*; do\n    case \"$f\" in\n      *.dylib|*.so) chmod 755 \"$f\" ;;\n      *) chmod 644 \"$f\" ;;\n    esac\n  done\n  # Fix install_name for macOS dylibs (proc-macros) so they can be loaded from $out/lib\n  for dylib in $out/lib/*.dylib; do\n    [ -f \"$dylib\" ] && install_name_tool -id \"$dylib\" \"$dylib\" 2>/dev/null || true\n  done\n}"@
}

/// The install phase of a unit, before escaping.
pub open spec fn install_phase_model(d: DrvModel) -> Seq<char> {
    if is_bin_types(d.crate_types) {
        "[ -f \"$out/bin/"@ + d.pname + "\" ] || {\n  mkdir -p $out/bin\n  cp build/"@ + d.pname
            + " $out/bin/\n  chmod 755 $out/bin/"@ + d.pname + "\n}"@
    } else {
        lib_install()
    }
}

/// The build inputs: direct dependencies, then the build-script run.
pub open spec fn input_vars(d: DrvModel) -> Seq<Seq<char>> {
    d.deps.map_values(|x: DepModel| x.0) + match d.build_script {
        Some(v) => seq![v],
        None => seq![],
    }
}

/// The attributes of a unit derivation.
pub open spec fn drv_attrs(d: DrvModel) -> Seq<(Seq<char>, Seq<char>)> {
    seq![
        ("pname"@, "\""@ + nix_escaped(d.pname) + "\""@),
        ("version"@, "\""@ + nix_escaped(d.version) + "\""@),
        ("buildInputs"@, if input_vars(d).len() == 0 { "[]"@ } else { expr_list_model(input_vars(d)) }),
        ("nativeBuildInputs"@, "[ "@ + d.toolchain_var + " ]"@),
        ("dontStrip"@, "true"@),
    ] + (if d.content_addressed { ca_attrs() } else { seq![] }) + seq![
        ("buildPhase"@, "''\n"@ + build_phase_model(d) + "\n''"@),
        ("installPhase"@, "''\n"@ + multiline_escaped(install_phase_model(d)) + "\n''"@),
    ]
}

/// The rendered derivation of a unit.
pub open spec fn drv_text(d: DrvModel) -> Seq<char> {
    render_model(drv_attrs(d), 2)
}

impl UnitDerivation {
    /// Sets the build-script run this unit reads flags from.
    pub fn set_build_script_ref(&mut self, build_script_ref: BuildScriptRef)
        ensures
            final(self)@ == (DrvModel { build_script: Some(build_script_ref.run_drv_var@), ..old(self)@ }),
    {
        self.build_script_ref = Some(build_script_ref);
    }

    /// Adds a direct dependency.
    pub fn add_dep(&mut self, dep_ref: DepRef)
        ensures
            final(self)@ == (DrvModel { deps: old(self)@.deps.push(dep_ref@), ..old(self)@ }),
    {
        let ghost before = self.deps@;
        self.deps.push(dep_ref);
        assert(self.deps@.map_values(|d: DepRef| d@) =~= before.map_values(|d: DepRef| d@).push(dep_ref@));
    }

    /// Sets the dependencies searched with `-L`.
    pub fn set_lib_search_deps(&mut self, deps: Vec<(String, String)>)
        ensures
            final(self)@ == (DrvModel { lib_search: firsts(deps.deep_view()), ..old(self)@ }),
    {
        self.lib_search_deps = deps;
    }

    /// Whether the crate types hold `bin`.
    fn builds_bin(&self) -> (r: bool)
        ensures
            r == is_bin_types(self@.crate_types),
    {
        crate::text::contains_str(&self.crate_types, "bin")
    }

    /// The Nix derivation of this unit.
    #[verifier::rlimit(100)]
    pub fn to_nix(&self) -> (r: String)
        ensures
            r@ == drv_text(self@),
    {
        let mut attrs = NixAttrSet::new();
        attrs.string("pname", self.pname.as_str());
        attrs.string("version", self.version.as_str());
        let mut vars: Vec<String> = Vec::new();
        let mut i: usize = 0;
        while i < self.deps.len()
            invariant
                i <= self.deps@.len(),
                vars@.len() == i,
                vars.deep_view() == self@.deps.map_values(|x: DepModel| x.0).subrange(0, i as int),
            decreases self.deps@.len() - i,
        {
            let ghost prev = vars@;
            let x = owned(self.deps[i].nix_var.as_str());
            vars.push(x);
            assert forall|k: int| 0 <= k <= i implies #[trigger] vars.deep_view()[k] == self@.deps.map_values(|x: DepModel| x.0)[k] by {
                if k < i {
                    assert(vars@[k] == prev[k]);
                    assert(vars.deep_view()[k] == vars@[k]@);
                    assert(self@.deps.map_values(|x: DepModel| x.0).subrange(0, i as int)[k] == self@.deps.map_values(|x: DepModel| x.0)[k]);
                }
            }
            i = i + 1;
            assert(vars.deep_view() =~= self@.deps.map_values(|x: DepModel| x.0).subrange(0, i as int));
        }
        assert(self@.deps.map_values(|x: DepModel| x.0).subrange(0, self.deps@.len() as int) =~= self@.deps.map_values(|x: DepModel| x.0));
        match &self.build_script_ref {
            Some(b) => vars.push(owned(b.run_drv_var.as_str())),
            None => {},
        }
        assert(vars.deep_view() =~= input_vars(self@));
        if vars.len() > 0 {
            attrs.expr_list("buildInputs", &vars);
        } else {
            attrs.expr("buildInputs", "[]");
        }
        let mut native = owned("[ ");
        push_str(&mut native, self.toolchain_var.as_str());
        push_str(&mut native, " ]");
        attrs.expr("nativeBuildInputs", native.as_str());
        attrs.bool("dontStrip", true);
        let ghost before = attrs@;
        if self.content_addressed {
            attrs.add_ca_attrs();
        }
        assert(attrs@ == before + (if self.content_addressed { ca_attrs() } else { seq![] })) by {
            if !self.content_addressed {
                assert(before + seq![] =~= before);
            }
        }
        let build_phase = self.generate_build_phase();
        attrs.multiline_interpolated("buildPhase", build_phase.as_str());
        let install_phase = self.generate_install_phase();
        attrs.multiline("installPhase", install_phase.as_str());
        assert(attrs@ =~= drv_attrs(self@));
        attrs.render(2)
    }

    /// The build phase: environment, build-script flags, proc-macro paths,
    /// and the rustc invocation.
    #[verifier::rlimit(100)]
    pub fn generate_build_phase(&self) -> (r: String)
        ensures
            r@ == build_phase_model(self@),
    {
        let mut script = owned("mkdir -p build\nBUILD_SCRIPT_FLAGS=\"\"\n\n");
        let exports = generate_cargo_pkg_exports(self.pname.as_str(), self.version.as_str(), &self.features);
        let escaped = escape_nix_multiline(exports.as_str());
        push_str(&mut script, escaped.as_str());
        push_str(&mut script, "\n");
        let ghost s1 = script@;
        match &self.build_script_ref {
            Some(b) => {
                push_str(&mut script, "\n");
                push_flag_reader(&mut script, b.run_drv_var.as_str());
                push_str(&mut script, "\n");
            },
            None => {},
        }
        let ghost s2 = script@;
        proof {
            let bs = match self@.build_script {
                Some(v) => "\n"@ + flag_reader_model(v) + "\n"@,
                None => seq![],
            };
            assert(s2 =~= s1 + bs);
        }
        self.push_procmacro_setup(&mut script);
        push_str(&mut script, "rustc ");
        let args = self.rustc_flags.to_shell_string();
        let args_escaped = escape_nix_multiline(args.as_str());
        push_str(&mut script, args_escaped.as_str());
        push_str(&mut script, " \\\n");
        let ghost s3 = script@;
        self.push_search_lines(&mut script);
        if self.is_proc_macro {
            push_str(&mut script, "  --extern proc_macro \\\n");
        }
        let ghost s4 = script@;
        proof {
            let pm = if self@.is_proc_macro { "  --extern proc_macro \\\n"@ } else { seq![] };
            assert(s4 =~= s3 + search_lines(self@.lib_search) + pm);
        }
        self.push_extern_lines(&mut script);
        push_str(&mut script, "  ");
        push_str(&mut script, self.src_path.as_str());
        push_str(&mut script, " \\\n");
        let ghost s5 = script@;
        if self.builds_bin() {
            push_str(&mut script, "  -o build/");
            push_str(&mut script, self.pname.as_str());
            push_str(&mut script, " \\\n");
        } else {
            push_str(&mut script, "  --out-dir build \\\n  --emit=dep-info,link \\\n");
        }
        assert(script@ =~= s5 + output_lines(self@));
        push_str(&mut script, "  $BUILD_SCRIPT_FLAGS");
        assert(script@ =~= build_phase_model(self@));
        script
    }

    #[verifier::rlimit(100)]
    fn push_procmacro_setup(&self, out: &mut String)
        ensures
            final(out)@ == old(out)@ + procmacro_setup(self@.deps),
    {
        let ghost start = out@;
        let ghost ds = self@.deps;
        let mut i: usize = 0;
        while i < self.deps.len()
            invariant
                ds == self@.deps,
                ds.len() == self.deps@.len(),
                i <= self.deps@.len(),
                out@ == start + procmacro_setup(ds.subrange(0, i as int)),
            decreases self.deps@.len() - i,
        {
            let d = &self.deps[i];
            assert(ds[i as int] == d@);
            if d.is_proc_macro {
                let mut var = owned("PROCMACRO_");
                push_env_name(&mut var, d.lib_name.as_str());
                let dylib = dep_lib_path_exec(d, ".dylib");
                let so = dep_lib_path_exec(d, ".so");
                push_str(out, var.as_str());
                push_str(out, "=\"");
                push_str(out, dylib.as_str());
                push_str(out, "\"\n");
                push_str(out, "[ -f \"$");
                push_str(out, var.as_str());
                push_str(out, "\" ] || ");
                push_str(out, var.as_str());
                push_str(out, "=\"");
                push_str(out, so.as_str());
                push_str(out, "\"\n");
            }
            assert(ds.subrange(0, i + 1).drop_last() =~= ds.subrange(0, i as int));
            i = i + 1;
            assert(out@ =~= start + procmacro_setup(ds.subrange(0, i as int)));
        }
        assert(ds.subrange(0, self.deps@.len() as int) =~= ds);
    }

    fn push_search_lines(&self, out: &mut String)
        ensures
            final(out)@ == old(out)@ + search_lines(self@.lib_search),
    {
        let ghost start = out@;
        let ghost vs = self@.lib_search;
        let mut i: usize = 0;
        while i < self.lib_search_deps.len()
            invariant
                vs == self@.lib_search,
                vs.len() == self.lib_search_deps@.len(),
                i <= self.lib_search_deps@.len(),
                out@ == start + search_lines(vs.subrange(0, i as int)),
            decreases self.lib_search_deps@.len() - i,
        {
            assert(vs[i as int] == self.lib_search_deps@[i as int].0@);
            push_str(out, "  -L dependency=${");
            push_str(out, self.lib_search_deps[i].0.as_str());
            push_str(out, "}/lib \\\n");
            assert(vs.subrange(0, i + 1).drop_last() =~= vs.subrange(0, i as int));
            i = i + 1;
            assert(out@ =~= start + search_lines(vs.subrange(0, i as int)));
        }
        assert(vs.subrange(0, self.lib_search_deps@.len() as int) =~= vs);
    }

    #[verifier::rlimit(100)]
    fn push_extern_lines(&self, out: &mut String)
        ensures
            final(out)@ == old(out)@ + extern_lines(self@.deps),
    {
        let ghost start = out@;
        let ghost ds = self@.deps;
        let mut i: usize = 0;
        while i < self.deps.len()
            invariant
                ds == self@.deps,
                ds.len() == self.deps@.len(),
                i <= self.deps@.len(),
                out@ == start + extern_lines(ds.subrange(0, i as int)),
            decreases self.deps@.len() - i,
        {
            let d = &self.deps[i];
            assert(ds[i as int] == d@);
            let ghost before = out@;
            push_str(out, "  --extern ");
            push_str(out, d.extern_crate_name.as_str());
            if d.is_proc_macro {
                push_str(out, "=\"$PROCMACRO_");
                push_env_name(out, d.lib_name.as_str());
                push_str(out, "\"");
            } else {
                push_str(out, "=");
                let p = dep_lib_path_exec(d, ".rlib");
                push_str(out, p.as_str());
            }
            push_str(out, " \\\n");
            proof {
                let tail = if d@.4 {
                    "=\"$"@ + procmacro_var(d@.2) + "\""@
                } else {
                    "="@ + dep_lib_path(d@, ".rlib"@)
                };
                reveal_strlit("=\"$PROCMACRO_");
                reveal_strlit("=\"$");
                reveal_strlit("PROCMACRO_");
                assert("=\"$PROCMACRO_"@ =~= "=\"$"@ + "PROCMACRO_"@);
                assert(out@ =~= before + ("  --extern "@ + d@.1 + tail + " \\\n"@));
            }
            assert(ds.subrange(0, i + 1).drop_last() =~= ds.subrange(0, i as int));
            i = i + 1;
            assert(out@ =~= start + extern_lines(ds.subrange(0, i as int)));
        }
        assert(ds.subrange(0, self.deps@.len() as int) =~= ds);
    }

    /// The install phase: copy the binary, or the library outputs, into `$out`.
    pub fn generate_install_phase(&self) -> (r: String)
        ensures
            r@ == install_phase_model(self@),
    {
        if self.builds_bin() {
            let mut script = owned("[ -f \"$out/bin/");
            push_str(&mut script, self.pname.as_str());
            push_str(&mut script, "\" ] || {\n  mkdir -p $out/bin\n  cp build/");
            push_str(&mut script, self.pname.as_str());
            push_str(&mut script, " $out/bin/\n  chmod 755 $out/bin/");
            push_str(&mut script, self.pname.as_str());
            push_str(&mut script, "\n}");
            script
        } else {
            owned("[ -d \"$out/lib\" ] || {\n  mkdir -p $out/lib\n  cp build/* $out/lib/\n  # Set permissions: 755 for shared libs (dylib/so), 644 for others\n  for f in $out/lib/*; do\n    case \"$f\" in\n      *.dylib|*.so) chmod 755 \"$f\" ;;\n      *) chmod 644 \"$f\" ;;\n    esac\n  done\n  # Fix install_name for macOS dylibs (proc-macros) so they can be loaded from $out/lib\n  for dylib in $out/lib/*.dylib; do\n    [ -f \"$dylib\" ] && install_name_tool -id \"$dylib\" \"$dylib\" 2>/dev/null || true\n  done\n}")
        }
    }
}

fn dep_lib_path_exec(d: &DepRef, ext: &str) -> (r: String)
    ensures
        r@ == dep_lib_path(d@, ext@),
{
    let mut p = owned("${");
    push_str(&mut p, d.nix_var.as_str());
    push_str(&mut p, "}/lib/lib");
    push_str(&mut p, d.lib_name.as_str());
    push_str(&mut p, "-");
    push_str(&mut p, d.identity_hash.as_str());
    push_str(&mut p, ext);
    p
}

fn push_flag_reader(out: &mut String, v: &str)
    ensures
        final(out)@ == old(out)@ + flag_reader_model(v@),
{
    let ghost start = out@;
    push_str(out, "# Read build script outputs\nexport OUT_DIR=${");
    push_str(out, v);
    push_str(out, "}/out-dir\n");
    push_str(out, "while IFS= read -r flag; do BUILD_SCRIPT_FLAGS=\"$BUILD_SCRIPT_FLAGS --cfg $flag\"; done < ${");
    push_str(out, v);
    push_str(out, "}/rustc-cfg\n");
    push_str(out, "while IFS= read -r flag; do BUILD_SCRIPT_FLAGS=\"$BUILD_SCRIPT_FLAGS -l $flag\"; done < ${");
    push_str(out, v);
    push_str(out, "}/rustc-link-lib\n");
    push_str(out, "while IFS= read -r flag; do BUILD_SCRIPT_FLAGS=\"$BUILD_SCRIPT_FLAGS -L $flag\"; done < ${");
    push_str(out, v);
    push_str(out, "}/rustc-link-search\n");
    push_str(out, "while IFS= read -r kv; do export \"$kv\"; done < ${");
    push_str(out, v);
    push_str(out, "}/rustc-env\n");
    assert(out@ =~= start + flag_reader_model(v@));
}

// ---------------------------------------------------------------------------
// The generator

/// A unit's derivation name when built with the given toolchain identity.
pub open spec fn unit_name(u: Unit, t: Option<Seq<char>>) -> Seq<char> {
    u.target.name@ + "-"@ + version_or_default(u.pkg_id@) + "-"@ + identity_hash_with_spec(u, t)
}

/// The Nix expression that refers to a unit's derivation.
pub open spec fn unit_var(u: Unit, t: Option<Seq<char>>) -> Seq<char> {
    "units.\""@ + unit_name(u, t) + "\""@
}

/// Whether `v` refers to a unit of the transitive closure of unit `i`.
pub open spec fn closure_entry(g: UnitGraph, i: int, t: Option<Seq<char>>, v: Seq<char>) -> bool {
    exists|j: int| #[trigger] in_closure(g, i, j) && v == unit_var(g.units@[j], t)
}

/// Name of the derivation that runs a unit's build script.
pub open spec fn run_name(u: Unit) -> Seq<char> {
    package_name_spec(u.pkg_id@) + "-build-script-run-"@ + version_or_default(u.pkg_id@) + "-"@
        + identity_hash_spec(u)
}

/// The direct dependencies of a unit as its derivation refers to them,
/// build-script runs and dangling edges left out.
pub open spec fn dep_models(g: UnitGraph, deps: Seq<Dependency>, t: Option<Seq<char>>) -> Seq<DepModel>
    decreases deps.len(),
{
    if deps.len() == 0 {
        seq![]
    } else {
        let d = deps.last();
        let rest = dep_models(g, deps.drop_last(), t);
        if d.index < g.units@.len() && !is_run_spec(g.units@[d.index as int]) {
            let u = g.units@[d.index as int];
            rest.push(
                (
                    unit_var(u, t),
                    d.extern_crate_name@,
                    underscored(u.target.name@),
                    identity_hash_with_spec(u, t),
                    is_proc_macro_spec(u),
                ),
            )
        } else {
            rest
        }
    }
}

/// The build-script run a unit reads flags from: its last dependency that
/// runs a build script.
pub open spec fn bs_model(g: UnitGraph, deps: Seq<Dependency>) -> Option<Seq<char>>
    decreases deps.len(),
{
    if deps.len() == 0 {
        None
    } else {
        let d = deps.last();
        if d.index < g.units@.len() && is_run_spec(g.units@[d.index as int]) {
            Some("units.\""@ + run_name(g.units@[d.index as int]) + "\""@)
        } else {
            bs_model(g, deps.drop_last())
        }
    }
}

/// The `-L` entries of a unit: its closure, ascending.
pub open spec fn closure_vars(g: UnitGraph, i: int, t: Option<Seq<char>>) -> Seq<Seq<char>> {
    closure_list(g, i).map_values(|j: usize| unit_var(g.units@[j as int], t))
}

/// The derivation of unit `i` as the generator builds it.
pub open spec fn unit_model(g: UnitGraph, i: int, c: NixGenConfig) -> DrvModel {
    let u = g.units@[i];
    let t = c.toolchain_hash.deep_view();
    let h = identity_hash_with_spec(u, t);
    DrvModel {
        pname: u.target.name@,
        version: version_or_default(u.pkg_id@),
        crate_types: u.target.crate_types.deep_view(),
        src_path: remap_source_model(u.target.src_path@, c.workspace_root@, "src"@),
        features: u.features.deep_view(),
        is_proc_macro: is_proc_macro_spec(u),
        deps: dep_models(g, u.dependencies@, t),
        lib_search: closure_vars(g, i, t),
        build_script: bs_model(g, u.dependencies@),
        flags: unit_flags(u) + seq!["-C"@, "metadata="@ + h, "-C"@, "extra-filename="@ + ("-"@ + h)]
            + if is_external_spec(u) { seq!["--cap-lints"@, "warn"@] } else { seq![] },
        content_addressed: c.content_addressed,
        toolchain_var: toolchain_var_model(c.cross_compiling, requires_host_toolchain_spec(u)),
    }
}

/// Whether `p` occurs in `s`.
proof fn lemma_occurs_extend(s: Seq<char>, t: Seq<char>, p: Seq<char>)
    requires
        occurs(s, p),
    ensures
        occurs(s + t, p),
{
    let k = choose|k: int| occurs_at(s, p, k);
    assert((s + t).subrange(k, k + p.len()) =~= s.subrange(k, k + p.len()));
    assert(occurs_at(s + t, p, k));
}

/// `p` occurs at the end of `s + p`.
proof fn lemma_occurs_end(s: Seq<char>, p: Seq<char>)
    ensures
        occurs(s + p, p),
{
    assert((s + p).subrange(s.len() as int, s.len() as int + p.len()) =~= p);
    assert(occurs_at(s + p, p, s.len() as int));
}

/// The first dependency edge that leads to a build-script compile unit.
pub open spec fn first_compile(g: UnitGraph, deps: Seq<Dependency>) -> Option<usize>
    decreases deps.len(),
{
    if deps.len() == 0 {
        None
    } else if deps[0].index < g.units@.len() && is_compile_spec(g.units@[deps[0].index as int]) {
        Some(deps[0].index)
    } else {
        first_compile(g, deps.drop_first())
    }
}

/// Whether `u` is the library unit of the package `pkg`.
pub open spec fn is_lib_of(u: Unit, pkg: Seq<char>) -> bool {
    u.pkg_id@ == pkg && u.mode@ == "build"@ && (has_kind(u, "lib"@) || has_kind(u, "rlib"@))
}

/// The first library unit of package `pkg` at or after position `x`.
pub open spec fn first_lib(g: UnitGraph, pkg: Seq<char>, x: int) -> Option<int>
    decreases g.units@.len() - x,
{
    if x < 0 || x >= g.units@.len() {
        None
    } else if is_lib_of(g.units@[x], pkg) {
        Some(x)
    } else {
        first_lib(g, pkg, x + 1)
    }
}

/// The last build-script run of package `p` before position `y`.
pub open spec fn last_run_of(g: UnitGraph, p: Seq<char>, y: int) -> Option<int>
    decreases y,
{
    if y <= 0 || y > g.units@.len() {
        None
    } else if is_run_spec(g.units@[y - 1]) && package_name_spec(g.units@[y - 1].pkg_id@) == p {
        Some(y - 1)
    } else {
        last_run_of(g, p, y - 1)
    }
}

proof fn lemma_last_run_of(g: UnitGraph, p: Seq<char>, y: int)
    ensures
        match last_run_of(g, p, y) {
            Some(f) => 0 <= f < y && f < g.units@.len() && is_run_spec(g.units@[f])
                && package_name_spec(g.units@[f].pkg_id@) == p,
            None => true,
        },
    decreases y,
{
    if y > 0 && y <= g.units@.len() {
        lemma_last_run_of(g, p, y - 1);
    }
}

/// The outputs of the build scripts that the dependencies of a library
/// unit run, each once, the package `own` left out.
pub open spec fn dep_outputs_model(g: UnitGraph, own: Seq<char>, deps: Seq<Dependency>) -> Seq<Seq<char>>
    decreases deps.len(),
{
    if deps.len() == 0 {
        seq![]
    } else {
        let acc = dep_outputs_model(g, own, deps.drop_last());
        let d = deps.last().index;
        if d < g.units@.len() {
            let pkg = package_name_spec(g.units@[d as int].pkg_id@);
            if pkg != own {
                match last_run_of(g, pkg, g.units@.len() as int) {
                    Some(f) => {
                        let v = "units.\""@ + run_name(g.units@[f]) + "\""@;
                        if acc.contains(v) {
                            acc
                        } else {
                            acc.push(v)
                        }
                    },
                    None => acc,
                }
            } else {
                acc
            }
        } else {
            acc
        }
    }
}

/// The dependency build-script outputs of run unit `j`, through its
/// package's library unit.
pub open spec fn run_dep_outputs(g: UnitGraph, j: int) -> Seq<Seq<char>> {
    let u = g.units@[j];
    match first_lib(g, u.pkg_id@, 0) {
        Some(l) => dep_outputs_model(g, package_name_spec(u.pkg_id@), g.units@[l].dependencies@),
        None => seq![],
    }
}

/// The beginning of the expression, up to the opening of `units`.
pub open spec fn header_text() -> Seq<char> {
    "# Per-unit Nix derivations of a cargo build plan\n\n"@
        + "{ pkgs, rustToolchain, hostRustToolchain ? rustToolchain, src, extraNativeBuildInputs ? [], vendorDir ? null }:\n\n"@
        + "let\n"@ + "  mkUnit = attrs: pkgs.stdenv.mkDerivation (attrs // {\n"@ + "    dontUnpack = true;\n"@
        + "    dontConfigure = true;\n"@ + "  });\n\n"@ + "  units = {\n"@
}

/// The derivation that compiles the build script run by unit `j`.
pub open spec fn compile_var_model(g: UnitGraph, j: int, t: Option<Seq<char>>) -> Seq<char> {
    match first_compile(g, g.units@[j].dependencies@) {
        Some(cu) => unit_var(g.units@[cu as int], t),
        None => seq![],
    }
}

/// The run derivation of build-script run unit `j`.
pub open spec fn run_entry(g: UnitGraph, c: NixGenConfig, j: int) -> Seq<char> {
    let u = g.units@[j];
    "    \""@ + run_name(u) + "\" = mkUnit "@ + render_model(
        run_attrs_model(
            bs_view_of(u, c.workspace_root@, c.content_addressed),
            compile_var_model(g, j, c.toolchain_hash.deep_view()),
            run_dep_outputs(g, j),
        ),
        2,
    ) + ";\n\n"@
}

/// The run derivations of the first `k` units.
pub open spec fn run_section(g: UnitGraph, c: NixGenConfig, k: int) -> Seq<char>
    decreases k,
{
    if k <= 0 {
        seq![]
    } else {
        run_section(g, c, k - 1) + if is_run_spec(g.units@[k - 1]) {
            run_entry(g, c, k - 1)
        } else {
            seq![]
        }
    }
}

/// The derivation of unit `i` and its index alias.
pub open spec fn unit_entry(g: UnitGraph, c: NixGenConfig, i: int) -> Seq<char> {
    let name = unit_name(g.units@[i], c.toolchain_hash.deep_view());
    "    \""@ + name + "\" = mkUnit "@ + drv_text(unit_model(g, i, c)) + (";\n\n"@ + "    \"_idx_"@
        + decimal(i as nat) + "\" = units.\""@ + name + "\"; # index alias\n\n"@)
}

/// The unit derivations of the first `k` units.
pub open spec fn unit_section(g: UnitGraph, c: NixGenConfig, k: int) -> Seq<char>
    decreases k,
{
    if k <= 0 {
        seq![]
    } else {
        unit_section(g, c, k - 1) + if !is_run_spec(g.units@[k - 1]) {
            unit_entry(g, c, k - 1)
        } else {
            seq![]
        }
    }
}

/// The first `k` roots, separated by spaces.
pub open spec fn root_items(g: UnitGraph, t: Option<Seq<char>>, k: int) -> Seq<char>
    decreases k,
{
    if k <= 0 {
        seq![]
    } else {
        let x = g.roots@[k - 1];
        root_items(g, t, k - 1) + if x < g.units@.len() {
            (if k - 1 > 0 { " "@ } else { seq![] }) + unit_var(g.units@[x as int], t)
        } else {
            seq![]
        }
    }
}

/// Whether a root belongs to a view: all (0), binaries (1), libraries (2).
pub open spec fn in_view(u: Unit, which: u8) -> bool {
    if which == 0 {
        true
    } else if which == 1 {
        is_bin_spec(u)
    } else {
        is_lib_spec(u) || is_proc_macro_spec(u)
    }
}

/// The entries of a view for the first `k` roots.
pub open spec fn view_items(g: UnitGraph, t: Option<Seq<char>>, which: u8, k: int) -> Seq<char>
    decreases k,
{
    if k <= 0 {
        seq![]
    } else {
        let x = g.roots@[k - 1];
        view_items(g, t, which, k - 1) + if x < g.units@.len() && in_view(g.units@[x as int], which) {
            "    \""@ + nix_escaped(g.units@[x as int].target.name@) + "\" = "@ + unit_var(g.units@[x as int], t)
                + ";\n"@
        } else {
            seq![]
        }
    }
}

/// A view over the roots.
pub open spec fn view_model(g: UnitGraph, t: Option<Seq<char>>, head: Seq<char>, which: u8) -> Seq<char> {
    head + view_items(g, t, which, g.roots@.len() as int) + "  };\n"@
}

/// The `default` attribute: the first root.
pub open spec fn default_model(g: UnitGraph, t: Option<Seq<char>>) -> Seq<char> {
    if g.roots@.len() > 0 && g.roots@[0] < g.units@.len() {
        "\n  default = "@ + unit_var(g.units@[g.roots@[0] as int], t) + ";\n"@
    } else {
        seq![]
    }
}

/// The end of the expression: roots, views and default.
pub open spec fn outputs_model(g: UnitGraph, t: Option<Seq<char>>) -> Seq<char> {
    "  };\n\n"@ + "in {\n"@ + "  inherit units;\n"@ + "  roots = [ "@ + root_items(g, t, g.roots@.len() as int)
        + " ];\n"@ + view_model(g, t, "\n  # Workspace packages by target name\n  packages = {\n"@, 0)
        + view_model(g, t, "\n  # Binary targets only\n  binaries = {\n"@, 1) + view_model(
        g,
        t,
        "\n  # Library targets only\n  libraries = {\n"@,
        2,
    ) + default_model(g, t) + "}\n"@
}

/// The whole expression emitted for a graph under a configuration.
pub open spec fn emit_model(g: UnitGraph, c: NixGenConfig) -> Seq<char> {
    header_text() + run_section(g, c, g.units@.len() as int) + unit_section(g, c, g.units@.len() as int)
        + outputs_model(g, c.toolchain_hash.deep_view())
}

/// Configuration of the generator.
#[derive(Debug, Clone)]
pub struct NixGenConfig {
    /// Workspace root, for remapping source paths.
    pub workspace_root: String,
    /// Whether derivations are content-addressed.
    pub content_addressed: bool,
    /// Whether the build cross-compiles.
    pub cross_compiling: bool,
    /// Target platform triple.
    pub target_platform: Option<String>,
    /// Host platform triple.
    pub host_platform: Option<String>,
    /// Toolchain identity folded into every unit identity.
    pub toolchain_hash: Option<String>,
}

impl Default for NixGenConfig {
    fn default() -> (r: NixGenConfig)
        ensures
            r.workspace_root@ == Seq::<char>::empty(),
            !r.content_addressed,
            !r.cross_compiling,
            r.target_platform.is_none(),
            r.host_platform.is_none(),
            r.toolchain_hash.is_none(),
    {
        NixGenConfig {
            workspace_root: String::new(),
            content_addressed: false,
            cross_compiling: false,
            target_platform: None,
            host_platform: None,
            toolchain_hash: None,
        }
    }
}

impl NixGenConfig {
    /// The same configuration, cross-compiling from `host` to `target`.
    pub fn with_cross_compilation(self, host: &str, target: &str) -> (r: NixGenConfig)
        ensures
            r.cross_compiling,
            r.host_platform.deep_view() == Some(host@),
            r.target_platform.deep_view() == Some(target@),
            r.workspace_root == self.workspace_root,
            r.content_addressed == self.content_addressed,
    {
        let mut c = self;
        c.cross_compiling = true;
        c.host_platform = Some(owned(host));
        c.target_platform = Some(owned(target));
        c
    }

    /// `hostRustToolchain` for proc-macros and build scripts of a cross
    /// build, `rustToolchain` otherwise.
    pub fn toolchain_var_for_unit(&self, unit: &Unit) -> (r: &'static str)
        ensures
            r@ == toolchain_var_model(self.cross_compiling, requires_host_toolchain_spec(*unit)),
    {
        if self.cross_compiling && requires_host_toolchain(unit) {
            "hostRustToolchain"
        } else {
            "rustToolchain"
        }
    }
}

impl UnitDerivation {
    /// The derivation builder of a unit, without its dependencies: name,
    /// package facts, remapped entry point, and the rustc arguments with the
    /// identity as metadata (and `--cap-lints warn` for outside packages).
#[verifier::rlimit(100)]
    pub fn from_unit(
        unit: &Unit,
        workspace_root: &str,
        content_addressed: bool,
        toolchain_var: &str,
        drv_name: &str,
        identity_hash: &str,
        is_external_dep: bool,
    ) -> (r: UnitDerivation)
        ensures
            r.name@ == drv_name@,
            r.pname@ == unit.target.name@,
            r.version@ == version_or_default(unit.pkg_id@),
            r.edition@ == unit.target.edition@,
            r.crate_types.deep_view() == unit.target.crate_types.deep_view(),
            r.src_path@ == remap_source_model(unit.target.src_path@, workspace_root@, "src"@),
            r.features.deep_view() == unit.features.deep_view(),
            r.opt_level@ == unit.profile.opt_level@,
            r.is_test == is_test_spec(*unit),
            r.is_proc_macro == is_proc_macro_spec(*unit),
            r.deps@.len() == 0,
            r.lib_search_deps@.len() == 0,
            r.build_script_ref.is_none(),
            r.rustc_flags@ == unit_flags(*unit) + seq![
                "-C"@,
                "metadata="@ + identity_hash@,
                "-C"@,
                "extra-filename="@ + ("-"@ + identity_hash@),
            ] + if is_external_dep { seq!["--cap-lints"@, "warn"@] } else { seq![] },
            r.content_addressed == content_addressed,
            r.toolchain_var@ == toolchain_var@,
    {
        let version = match unit.package_version() {
            Some(v) => v,
            None => owned("0.0.0"),
        };
        let src_path = remap_source_path(unit.target.src_path.as_str(), workspace_root, "src");
        let mut rustc_flags = RustcFlags::from_unit(unit);
        rustc_flags.add_metadata(identity_hash);
        let ghost with_meta = rustc_flags@;
        if is_external_dep {
            rustc_flags.cap_lints_for_dependency();
        }
        assert(rustc_flags@ == with_meta + if is_external_dep { seq!["--cap-lints"@, "warn"@] } else { seq![] }) by {
            if !is_external_dep {
                assert(with_meta + seq![] =~= with_meta);
            }
        }
        let r = UnitDerivation {
            name: owned(drv_name),
            pname: owned(unit.target.name.as_str()),
            version,
            edition: owned(unit.target.edition.as_str()),
            crate_types: clone_strings(&unit.target.crate_types),
            src_path,
            features: clone_strings(&unit.features),
            opt_level: owned(unit.profile.opt_level.as_str()),
            is_test: unit.is_test(),
            is_proc_macro: unit.is_proc_macro(),
            deps: Vec::new(),
            lib_search_deps: Vec::new(),
            build_script_ref: None,
            rustc_flags,
            content_addressed,
            toolchain_var: owned(toolchain_var),
        };
        r
    }
}

/// Generates the Nix expression of a unit graph.
#[derive(Debug)]
pub struct NixGenerator {
    config: NixGenConfig,
}

/// `units."NAME"`.
fn var_of(name: &str) -> (r: String)
    ensures
        r@ == "units.\""@ + name@ + "\""@,
{
    let mut v = owned("units.\"");
    push_str(&mut v, name);
    push_str(&mut v, "\"");
    v
}

impl NixGenerator {
    /// A generator with the given configuration.
    pub fn new(config: NixGenConfig) -> (r: NixGenerator)
        ensures
            r.config() == config,
    {
        NixGenerator { config }
    }

    /// The configuration.
    pub closed spec fn config(&self) -> NixGenConfig {
        self.config
    }

    /// Identities and derivation names of all units.
    #[verifier::rlimit(100)]
    #[verifier::spinoff_prover]
    fn names_of(&self, graph: &UnitGraph) -> (r: (Vec<String>, Vec<String>))
        ensures
            r.0@.len() == graph.units@.len(),
            r.1@.len() == graph.units@.len(),
            forall|j: int| 0 <= j < graph.units@.len() ==> #[trigger] r.0@[j]@ == identity_hash_with_spec(
                graph.units@[j],
                self.config().toolchain_hash.deep_view(),
            ),
            forall|j: int| 0 <= j < graph.units@.len() ==> #[trigger] r.1@[j]@ == unit_name(
                graph.units@[j],
                self.config().toolchain_hash.deep_view(),
            ),
    {
        let mut hashes: Vec<String> = Vec::new();
        let mut names: Vec<String> = Vec::new();
        let mut j: usize = 0;
        while j < graph.units.len()
            invariant
                j <= graph.units@.len(),
                hashes@.len() == j,
                names@.len() == j,
                forall|x: int| 0 <= x < j ==> #[trigger] hashes@[x]@ == identity_hash_with_spec(
                    graph.units@[x],
                    self.config().toolchain_hash.deep_view(),
                ),
                forall|x: int| 0 <= x < j ==> #[trigger] names@[x]@ == unit_name(
                    graph.units@[x],
                    self.config().toolchain_hash.deep_view(),
                ),
            decreases graph.units@.len() - j,
        {
            let u = &graph.units[j];
            let h = u.identity_hash_with(&self.config.toolchain_hash);
            let mut name = owned(u.target.name.as_str());
            push_str(&mut name, "-");
            match u.package_version() {
                Some(v) => push_str(&mut name, v.as_str()),
                None => push_str(&mut name, "0.0.0"),
            }
            push_str(&mut name, "-");
            push_str(&mut name, h.as_str());
            hashes.push(h);
            names.push(name);
            j = j + 1;
        }
        (hashes, names)
    }

    /// The `-L` search entries of unit `i`: the variable and library name
    /// of each unit of its transitive closure, ascending.
    #[verifier::rlimit(100)]
    #[verifier::spinoff_prover]
    fn search_entries(&self, graph: &UnitGraph, i: usize, names: &Vec<String>) -> (r: Vec<(String, String)>)
        requires
            i < graph.units@.len(),
            names@.len() == graph.units@.len(),
            forall|j: int| 0 <= j < graph.units@.len() ==> #[trigger] names@[j]@ == unit_name(
                graph.units@[j],
                self.config().toolchain_hash.deep_view(),
            ),
        ensures
            firsts(r.deep_view()) == closure_vars(*graph, i as int, self.config().toolchain_hash.deep_view()),
            forall|k: int| 0 <= k < r@.len() ==> closure_entry(
                *graph,
                i as int,
                self.config().toolchain_hash.deep_view(),
                #[trigger] firsts(r.deep_view())[k],
            ),
            forall|j: int| in_closure(*graph, i as int, j) ==> exists|k: int|
                0 <= k < r@.len() && #[trigger] firsts(r.deep_view())[k] == unit_var(
                    graph.units@[j],
                    self.config().toolchain_hash.deep_view(),
                ),
    {
        let c = closure_of(graph, i);
        let n = graph.units.len();
        let ghost t = self.config().toolchain_hash.deep_view();
        let mut out: Vec<(String, String)> = Vec::new();
        let mut k: usize = 0;
        while k < c.len()
            invariant
                k <= c@.len(),
                out@.len() == k,
                forall|m: int| 0 <= m < c@.len() ==> c@[m] < graph.units@.len(),
                forall|m: int| 0 <= m < k ==> #[trigger] out@[m].0@ == unit_var(graph.units@[c@[m] as int], t),
                names@.len() == graph.units@.len(),
                forall|j: int| 0 <= j < graph.units@.len() ==> #[trigger] names@[j]@ == unit_name(graph.units@[j], t),
                t == self.config().toolchain_hash.deep_view(),
            decreases c@.len() - k,
        {
            let j = c[k];
            let v = var_of(names[j].as_str());
            let lib = crate::rustc_flags::underscore_name(graph.units[j].target.name.as_str());
            out.push((v, lib));
            k = k + 1;
        }
        proof {
            assert forall|m: int| 0 <= m < out@.len() implies #[trigger] firsts(out.deep_view())[m] == out@[m].0@ by {}
            assert forall|k: int| 0 <= k < out@.len() implies closure_entry(*graph, i as int, t, #[trigger] firsts(out.deep_view())[k]) by {
                let j = c@[k];
                assert(c@.contains(j));
                assert(in_closure(*graph, i as int, j as int));
                assert(firsts(out.deep_view())[k] == out@[k].0@);
                assert(firsts(out.deep_view())[k] == unit_var(graph.units@[j as int], t));
            }
            assert forall|j: int| in_closure(*graph, i as int, j) implies exists|k: int|
                0 <= k < out@.len() && #[trigger] firsts(out.deep_view())[k] == unit_var(graph.units@[j], t) by {
                assert(0 <= j < n);
                let ju = j as usize;
                assert(ju as int == j);
                assert(in_closure(*graph, i as int, ju as int));
                assert(c@.contains(ju));
                let k = choose|k: int| 0 <= k < c@.len() && c@[k] == ju;
                assert(firsts(out.deep_view())[k] == out@[k].0@);
                assert(out@[k].0@ == unit_var(graph.units@[c@[k] as int], t));
            }
            assert(firsts(out.deep_view()) =~= closure_vars(*graph, i as int, t));
        }
        out
    }

    /// The first dependency of unit `j` that compiles a build script. In a
    /// graph that can be emitted, every build-script run has exactly one,
    /// and its run derivation takes that unit's derivation as input.
    pub fn compile_sibling(graph: &UnitGraph, j: usize) -> (r: Option<usize>)
        requires
            j < graph.units@.len(),
        ensures
            match r {
                Some(c) => c < graph.units@.len() && is_compile_spec(graph.units@[c as int]) && exists|k: int|
                    0 <= k < graph.units@[j as int].dependencies@.len()
                        && #[trigger] graph.units@[j as int].dependencies@[k].index == c,
                None => compile_deps(graph.units@, graph.units@[j as int].dependencies@) == 0,
            },
            graph_valid(*graph) && is_run_spec(graph.units@[j as int]) ==> r.is_some(),
            r == first_compile(*graph, graph.units@[j as int].dependencies@),
    {
        let deps = &graph.units[j].dependencies;
        let mut k: usize = 0;
        assert(deps@.subrange(0, deps@.len() as int) =~= deps@);
        while k < deps.len()
            invariant
                k <= deps@.len(),
                j < graph.units@.len(),
                deps == graph.units@[j as int].dependencies,
                compile_deps(graph.units@, deps@.subrange(0, k as int)) == 0,
                first_compile(*graph, deps@) == first_compile(*graph, deps@.subrange(k as int, deps@.len() as int)),
            decreases deps@.len() - k,
        {
            let d = deps[k].index;
            assert(deps@.subrange(k as int, deps@.len() as int)[0] == deps@[k as int]);
            assert(deps@.subrange(k as int, deps@.len() as int).drop_first() =~= deps@.subrange(k + 1, deps@.len() as int));
            if d < graph.units.len() && is_compile_unit(&graph.units[d]) {
                return Some(d);
            }
            assert(deps@.subrange(0, k + 1).drop_last() =~= deps@.subrange(0, k as int));
            k = k + 1;
        }
        assert(deps@.subrange(0, deps@.len() as int) =~= deps@);
        None
    }

    /// The build-script facts of every run unit, by position.
    #[verifier::rlimit(100)]
    #[verifier::spinoff_prover]
    fn run_infos(&self, graph: &UnitGraph) -> (r: Vec<Option<BuildScriptInfo>>)
        ensures
            r@.len() == graph.units@.len(),
            forall|j: int| 0 <= j < graph.units@.len() ==> (#[trigger] r@[j]).is_some() == is_run_spec(graph.units@[j]),
            forall|j: int| 0 <= j < graph.units@.len() && (#[trigger] r@[j]).is_some() ==> r@[j].unwrap().run_drv_name@
                == run_name(graph.units@[j]) && r@[j].unwrap().package_name@ == package_name_spec(graph.units@[j].pkg_id@)
                && r@[j].unwrap()@ == bs_view_of(graph.units@[j], self.config().workspace_root@, self.config().content_addressed),
    {
        let mut out: Vec<Option<BuildScriptInfo>> = Vec::new();
        let mut j: usize = 0;
        while j < graph.units.len()
            invariant
                j <= graph.units@.len(),
                out@.len() == j,
                forall|x: int| 0 <= x < j ==> (#[trigger] out@[x]).is_some() == is_run_spec(graph.units@[x]),
                forall|x: int| 0 <= x < j && (#[trigger] out@[x]).is_some() ==> out@[x].unwrap().run_drv_name@
                    == run_name(graph.units@[x]) && out@[x].unwrap().package_name@ == package_name_spec(graph.units@[x].pkg_id@)
                    && out@[x].unwrap()@ == bs_view_of(graph.units@[x], self.config().workspace_root@, self.config().content_addressed),
            decreases graph.units@.len() - j,
        {
            let u = &graph.units[j];
            if str_eq(u.mode.as_str(), "run-custom-build") {
                out.push(BuildScriptInfo::from_unit(u, self.config.workspace_root.as_str(), self.config.content_addressed));
            } else {
                out.push(None);
            }
            j = j + 1;
        }
        out
    }

    /// The outputs of the build scripts that run unit `j`'s package depends
    /// on: through the package's library unit, each dependency whose package
    /// runs a build script of its own, once, and never the package itself.
    #[verifier::rlimit(100)]
    #[verifier::spinoff_prover]
    fn dep_build_script_outputs(graph: &UnitGraph, j: usize, infos: &Vec<Option<BuildScriptInfo>>) -> (r: Vec<String>)
        requires
            j < graph.units@.len(),
            is_run_spec(graph.units@[j as int]),
            infos@.len() == graph.units@.len(),
            forall|x: int| 0 <= x < graph.units@.len() ==> (#[trigger] infos@[x]).is_some() == is_run_spec(graph.units@[x]),
            forall|x: int| 0 <= x < graph.units@.len() && (#[trigger] infos@[x]).is_some() ==> infos@[x].unwrap().run_drv_name@
                == run_name(graph.units@[x]) && infos@[x].unwrap().package_name@ == package_name_spec(graph.units@[x].pkg_id@),
        ensures
            r.deep_view() == run_dep_outputs(*graph, j as int),
    {
        let mut out: Vec<String> = Vec::new();
        let own = graph.units[j].package_name();
        let n = graph.units.len();
        let ghost pkg_j = graph.units@[j as int].pkg_id@;
        let mut lib: Option<usize> = None;
        let mut x: usize = 0;
        while x < n && lib.is_none()
            invariant
                x <= n,
                j < n,
                n == graph.units@.len(),
                pkg_j == graph.units@[j as int].pkg_id@,
                match lib {
                    Some(l) => l < n && first_lib(*graph, pkg_j, 0) == Some(l as int),
                    None => first_lib(*graph, pkg_j, 0) == first_lib(*graph, pkg_j, x as int),
                },
            decreases n - x + (if lib.is_none() { 1int } else { 0int }),
        {
            let u = &graph.units[x];
            if str_eq(u.pkg_id.as_str(), graph.units[j].pkg_id.as_str()) && str_eq(u.mode.as_str(), "build")
                && (crate::text::contains_str(&u.target.kind, "lib") || crate::text::contains_str(&u.target.kind, "rlib")) {
                lib = Some(x);
            } else {
                x = x + 1;
            }
        }
        let l = match lib {
            Some(l) => l,
            None => {
                assert(out.deep_view() =~= Seq::<Seq<char>>::empty());
                return out;
            },
        };
        assert(first_lib(*graph, pkg_j, 0) == Some(l as int));
        let deps = &graph.units[l].dependencies;
        let mut k: usize = 0;
        assert(out.deep_view() =~= Seq::<Seq<char>>::empty());
        while k < deps.len()
            invariant
                k <= deps@.len(),
                n == graph.units@.len(),
                l < n,
                deps == graph.units@[l as int].dependencies,
                own@ == package_name_spec(graph.units@[j as int].pkg_id@),
                infos@.len() == n,
                forall|x: int| 0 <= x < n ==> (#[trigger] infos@[x]).is_some() == is_run_spec(graph.units@[x]),
                forall|x: int| 0 <= x < n && (#[trigger] infos@[x]).is_some() ==> infos@[x].unwrap().run_drv_name@
                    == run_name(graph.units@[x]) && infos@[x].unwrap().package_name@ == package_name_spec(graph.units@[x].pkg_id@),
                out.deep_view() == dep_outputs_model(*graph, own@, deps@.subrange(0, k as int)),
            decreases deps@.len() - k,
        {
            let d = deps[k].index;
            assert(deps@.subrange(0, k + 1).drop_last() =~= deps@.subrange(0, k as int));
            assert(deps@.subrange(0, k + 1).last() == deps@[k as int]);
            if d < n {
                let pkg = graph.units[d].package_name();
                if !str_eq(pkg.as_str(), own.as_str()) {
                    let mut y: usize = n;
                    let mut found: Option<usize> = None;
                    while y > 0 && found.is_none()
                        invariant
                            y <= n,
                            n == graph.units@.len(),
                            infos@.len() == n,
                            forall|x: int| 0 <= x < n ==> (#[trigger] infos@[x]).is_some() == is_run_spec(graph.units@[x]),
                            forall|x: int| 0 <= x < n && (#[trigger] infos@[x]).is_some() ==> infos@[x].unwrap().package_name@
                                == package_name_spec(graph.units@[x].pkg_id@),
                            match found {
                                Some(f) => f < n && last_run_of(*graph, pkg@, n as int) == Some(f as int),
                                None => last_run_of(*graph, pkg@, n as int) == last_run_of(*graph, pkg@, y as int),
                            },
                        decreases y + (if found.is_none() { 1int } else { 0int }),
                    {
                        let mut hit = false;
                        match &infos[y - 1] {
                            Some(info) => {
                                if str_eq(info.package_name.as_str(), pkg.as_str()) {
                                    hit = true;
                                }
                            },
                            None => {},
                        }
                        if hit {
                            found = Some(y - 1);
                        } else {
                            y = y - 1;
                        }
                    }
                    proof {
                        lemma_last_run_of(*graph, pkg@, n as int);
                    }
                    match found {
                        Some(f) => {
                            match &infos[f] {
                                Some(info) => {
                                    let v = var_of(info.run_drv_name.as_str());
                                    if !crate::text::contains_str(&out, v.as_str()) {
                                        let ghost before = out.deep_view();
                                        out.push(v);
                                        assert(out.deep_view() =~= before.push(v@));
                                    }
                                },
                                None => {},
                            }
                        },
                        None => {
                            assert(last_run_of(*graph, pkg@, n as int).is_none());
                        },
                    }
                }
            }
            k = k + 1;
        }
        assert(deps@.subrange(0, deps@.len() as int) =~= deps@);
        out
    }

    /// The derivation of unit `i`, with its dependencies wired: build-script
    /// runs as the flag source, other dependencies as `--extern`, and the
    /// transitive closure as `-L` search paths.
    #[verifier::rlimit(100)]
    #[verifier::spinoff_prover]
    fn build_unit(
        &self,
        graph: &UnitGraph,
        i: usize,
        hashes: &Vec<String>,
        names: &Vec<String>,
        infos: &Vec<Option<BuildScriptInfo>>,
    ) -> (r: UnitDerivation)
        requires
            i < graph.units@.len(),
            hashes@.len() == graph.units@.len(),
            names@.len() == graph.units@.len(),
            infos@.len() == graph.units@.len(),
            forall|j: int| 0 <= j < graph.units@.len() ==> #[trigger] hashes@[j]@ == identity_hash_with_spec(
                graph.units@[j],
                self.config().toolchain_hash.deep_view(),
            ),
            forall|j: int| 0 <= j < graph.units@.len() ==> #[trigger] names@[j]@ == unit_name(
                graph.units@[j],
                self.config().toolchain_hash.deep_view(),
            ),
            forall|j: int| 0 <= j < graph.units@.len() ==> (#[trigger] infos@[j]).is_some() == is_run_spec(graph.units@[j]),
            forall|j: int| 0 <= j < graph.units@.len() && (#[trigger] infos@[j]).is_some() ==> infos@[j].unwrap().run_drv_name@
                == run_name(graph.units@[j]),
        ensures
            r@ == unit_model(*graph, i as int, self.config()),
            forall|k: int| 0 <= k < r@.lib_search.len() ==> closure_entry(
                *graph,
                i as int,
                self.config().toolchain_hash.deep_view(),
                #[trigger] r@.lib_search[k],
            ),
            forall|j: int| in_closure(*graph, i as int, j) ==> exists|k: int|
                0 <= k < r@.lib_search.len() && #[trigger] r@.lib_search[k] == unit_var(
                    graph.units@[j],
                    self.config().toolchain_hash.deep_view(),
                ),
    {
        let ghost t = self.config().toolchain_hash.deep_view();
        let unit = &graph.units[i];
        let tv = self.config.toolchain_var_for_unit(unit);
        let ext = unit.is_external_dependency();
        let mut drv = UnitDerivation::from_unit(
            unit,
            self.config.workspace_root.as_str(),
            self.config.content_addressed,
            tv,
            names[i].as_str(),
            hashes[i].as_str(),
            ext,
        );
        let ghost base = drv@;
        assert(base.deps =~= Seq::<DepModel>::empty());
        let n = graph.units.len();
        let deps = &unit.dependencies;
        assert(deps@.subrange(0, 0) =~= Seq::<Dependency>::empty());
        let mut k: usize = 0;
        while k < deps.len()
            invariant
                k <= deps@.len(),
                i < n,
                n == graph.units@.len(),
                deps == graph.units@[i as int].dependencies,
                t == self.config().toolchain_hash.deep_view(),
                hashes@.len() == n,
                names@.len() == n,
                infos@.len() == n,
                forall|j: int| 0 <= j < n ==> #[trigger] hashes@[j]@ == identity_hash_with_spec(graph.units@[j], t),
                forall|j: int| 0 <= j < n ==> #[trigger] names@[j]@ == unit_name(graph.units@[j], t),
                forall|j: int| 0 <= j < n ==> (#[trigger] infos@[j]).is_some() == is_run_spec(graph.units@[j]),
                forall|j: int| 0 <= j < n && (#[trigger] infos@[j]).is_some() ==> infos@[j].unwrap().run_drv_name@
                    == run_name(graph.units@[j]),
                drv@ == (DrvModel {
                    deps: dep_models(*graph, deps@.subrange(0, k as int), t),
                    build_script: bs_model(*graph, deps@.subrange(0, k as int)),
                    ..base
                }),
            decreases deps@.len() - k,
        {
            let d = deps[k].index;
            let ghost pre = deps@.subrange(0, k as int);
            assert(deps@.subrange(0, k + 1).drop_last() =~= pre);
            assert(deps@.subrange(0, k + 1).last() == deps@[k as int]);
            if d < n {
                let du = &graph.units[d];
                if str_eq(du.mode.as_str(), "run-custom-build") {
                    match &infos[d] {
                        Some(info) => {
                            let compile_drv_name = match Self::compile_sibling(graph, d) {
                                Some(c) => owned(names[c].as_str()),
                                None => String::new(),
                            };
                            drv.set_build_script_ref(BuildScriptRef {
                                run_drv_var: var_of(info.run_drv_name.as_str()),
                                compile_drv_name,
                                run_drv_name: owned(info.run_drv_name.as_str()),
                            });
                        },
                        None => {},
                    }
                } else {
                    let dep = DepRef {
                        nix_var: var_of(names[d].as_str()),
                        extern_crate_name: owned(deps[k].extern_crate_name.as_str()),
                        lib_name: crate::rustc_flags::underscore_name(du.target.name.as_str()),
                        identity_hash: owned(hashes[d].as_str()),
                        derivation_name: owned(names[d].as_str()),
                        is_proc_macro: du.is_proc_macro(),
                    };
                    drv.add_dep(dep);
                }
            }
            k = k + 1;
        }
        assert(deps@.subrange(0, deps@.len() as int) =~= deps@);
        let entries = self.search_entries(graph, i, names);
        let ghost fe = firsts(entries.deep_view());
        drv.set_lib_search_deps(entries);
        assert(drv@.lib_search == fe);
        drv
    }

    /// The derivation of unit `i` of a graph that can be emitted; its `-L`
    /// search entries are exactly the units of the transitive closure of
    /// its dependencies, build-script runs left out.
    pub fn unit_derivation(&self, graph: &UnitGraph, i: usize) -> (r: UnitDerivation)
        requires
            i < graph.units@.len(),
        ensures
            r@ == unit_model(*graph, i as int, self.config()),
            forall|k: int| 0 <= k < r@.lib_search.len() ==> closure_entry(
                *graph,
                i as int,
                self.config().toolchain_hash.deep_view(),
                #[trigger] r@.lib_search[k],
            ),
            forall|j: int| in_closure(*graph, i as int, j) ==> exists|k: int|
                0 <= k < r@.lib_search.len() && #[trigger] r@.lib_search[k] == unit_var(
                    graph.units@[j],
                    self.config().toolchain_hash.deep_view(),
                ),
    {
        let (hashes, names) = self.names_of(graph);
        let infos = self.run_infos(graph);
        self.build_unit(graph, i, &hashes, &names, &infos)
    }

    /// The Nix expression of a graph: a function of `pkgs`, the toolchains,
    /// `src`, extra native inputs and `vendorDir`, giving `units`, `roots`,
    /// `packages`, `binaries`, `libraries` and `default`. A graph that
    /// cannot be emitted gives the error of its first defect. The text is a
    /// function of the graph and the configuration alone, and holds the
    /// derivation of every unit that does not run a build script.
    #[verifier::rlimit(100)]
    #[verifier::spinoff_prover]
    pub fn generate(&self, graph: &UnitGraph) -> (r: Result<String, GraphError>)
        ensures
            r.is_ok() == graph_valid(*graph),
            r.is_ok() ==> r.unwrap()@ == emit_model(*graph, self.config()),
            r.is_ok() ==> forall|x: int|
                0 <= x < graph.units@.len() && !is_run_spec(graph.units@[x]) ==> occurs(
                    r.unwrap()@,
                    #[trigger] drv_text(unit_model(*graph, x, self.config())),
                ),
    {
        match graph.validate() {
            Ok(()) => {},
            Err(e) => return Err(e),
        }
        let ghost c = self.config();
        let ghost t = c.toolchain_hash.deep_view();
        let mut out = owned("# Per-unit Nix derivations of a cargo build plan\n\n");
        push_str(&mut out, "{ pkgs, rustToolchain, hostRustToolchain ? rustToolchain, src, extraNativeBuildInputs ? [], vendorDir ? null }:\n\n");
        push_str(&mut out, "let\n");
        push_str(&mut out, "  mkUnit = attrs: pkgs.stdenv.mkDerivation (attrs // {\n");
        push_str(&mut out, "    dontUnpack = true;\n");
        push_str(&mut out, "    dontConfigure = true;\n");
        push_str(&mut out, "  });\n\n");
        push_str(&mut out, "  units = {\n");
        assert(out@ =~= header_text());
        let (hashes, names) = self.names_of(graph);
        let infos = self.run_infos(graph);
        let n = graph.units.len();
        let mut j: usize = 0;
        while j < n
            invariant
                j <= n,
                n == graph.units@.len(),
                c == self.config(),
                t == c.toolchain_hash.deep_view(),
                infos@.len() == n,
                names@.len() == n,
                forall|x: int| 0 <= x < n ==> #[trigger] names@[x]@ == unit_name(graph.units@[x], t),
                forall|x: int| 0 <= x < n ==> (#[trigger] infos@[x]).is_some() == is_run_spec(graph.units@[x]),
                forall|x: int| 0 <= x < n && (#[trigger] infos@[x]).is_some() ==> infos@[x].unwrap().run_drv_name@
                    == run_name(graph.units@[x]) && infos@[x].unwrap().package_name@ == package_name_spec(graph.units@[x].pkg_id@)
                    && infos@[x].unwrap()@ == bs_view_of(graph.units@[x], c.workspace_root@, c.content_addressed),
                out@ == header_text() + run_section(*graph, c, j as int),
            decreases n - j,
        {
            let ghost before = out@;
            match &infos[j] {
                Some(info) => {
                    let compile_var = match Self::compile_sibling(graph, j) {
                        Some(cu) => var_of(names[cu].as_str()),
                        None => String::new(),
                    };
                    assert(compile_var@ == compile_var_model(*graph, j as int, t));
                    let dep_outputs = Self::dep_build_script_outputs(graph, j, &infos);
                    push_str(&mut out, "    \"");
                    push_str(&mut out, info.run_drv_name.as_str());
                    push_str(&mut out, "\" = mkUnit ");
                    let text = info.run_derivation_with_deps(compile_var.as_str(), &dep_outputs);
                    push_str(&mut out, text.as_str());
                    push_str(&mut out, ";\n\n");
                    assert(out@ =~= before + run_entry(*graph, c, j as int));
                },
                None => {
                    assert(out@ =~= before + seq![]);
                },
            }
            j = j + 1;
        }
        let mut i: usize = 0;
        while i < n
            invariant
                i <= n,
                n == graph.units@.len(),
                c == self.config(),
                t == c.toolchain_hash.deep_view(),
                hashes@.len() == n,
                names@.len() == n,
                infos@.len() == n,
                forall|x: int| 0 <= x < n ==> #[trigger] hashes@[x]@ == identity_hash_with_spec(graph.units@[x], t),
                forall|x: int| 0 <= x < n ==> #[trigger] names@[x]@ == unit_name(graph.units@[x], t),
                forall|x: int| 0 <= x < n ==> (#[trigger] infos@[x]).is_some() == is_run_spec(graph.units@[x]),
                forall|x: int| 0 <= x < n && (#[trigger] infos@[x]).is_some() ==> infos@[x].unwrap().run_drv_name@
                    == run_name(graph.units@[x]),
                out@ == header_text() + run_section(*graph, c, n as int) + unit_section(*graph, c, i as int),
                forall|x: int| 0 <= x < i && !is_run_spec(graph.units@[x]) ==> occurs(
                    out@,
                    #[trigger] drv_text(unit_model(*graph, x, c)),
                ),
            decreases n - i,
        {
            let ghost o0 = out@;
            if !str_eq(graph.units[i].mode.as_str(), "run-custom-build") {
                let drv = self.build_unit(graph, i, &hashes, &names, &infos);
                let mut head = owned("    \"");
                push_str(&mut head, names[i].as_str());
                push_str(&mut head, "\" = mkUnit ");
                let text = drv.to_nix();
                let mut tail = owned(";\n\n");
                push_str(&mut tail, "    \"_idx_");
                let idx = crate::text::decimal_string(i as u64);
                push_str(&mut tail, idx.as_str());
                push_str(&mut tail, "\" = units.\"");
                push_str(&mut tail, names[i].as_str());
                push_str(&mut tail, "\"; # index alias\n\n");
                push_str(&mut out, head.as_str());
                let ghost o1 = out@;
                push_str(&mut out, text.as_str());
                let ghost o2 = out@;
                push_str(&mut out, tail.as_str());
                assert(out@ =~= o0 + unit_entry(*graph, c, i as int));
                proof {
                    lemma_occurs_end(o1, text@);
                    lemma_occurs_extend(o2, tail@, text@);
                    assert forall|x: int| 0 <= x < i + 1 && !is_run_spec(graph.units@[x]) implies occurs(
                        out@,
                        #[trigger] drv_text(unit_model(*graph, x, c)),
                    ) by {
                        if x < i {
                            lemma_occurs_extend(o0, unit_entry(*graph, c, i as int), drv_text(unit_model(*graph, x, c)));
                        }
                    }
                }
            } else {
                assert(out@ =~= o0 + seq![]);
            }
            assert(header_text() + run_section(*graph, c, n as int) + unit_section(*graph, c, i + 1)
                =~= header_text() + run_section(*graph, c, n as int) + unit_section(*graph, c, i as int)
                + (if !is_run_spec(graph.units@[i as int]) { unit_entry(*graph, c, i as int) } else { seq![] }));
            i = i + 1;
        }
        let outputs = self.outputs(graph, &names);
        let ghost before = out@;
        push_str(&mut out, outputs.as_str());
        proof {
            assert forall|x: int| 0 <= x < n && !is_run_spec(graph.units@[x]) implies occurs(
                out@,
                #[trigger] drv_text(unit_model(*graph, x, c)),
            ) by {
                lemma_occurs_extend(before, outputs@, drv_text(unit_model(*graph, x, c)));
            }
        }
        Ok(out)
    }

    /// The end of the expression: the roots and the views over them.
    #[verifier::rlimit(100)]
    #[verifier::spinoff_prover]
    fn outputs(&self, graph: &UnitGraph, names: &Vec<String>) -> (r: String)
        requires
            names@.len() == graph.units@.len(),
            forall|x: int| 0 <= x < graph.units@.len() ==> #[trigger] names@[x]@ == unit_name(
                graph.units@[x],
                self.config().toolchain_hash.deep_view(),
            ),
        ensures
            r@ == outputs_model(*graph, self.config().toolchain_hash.deep_view()),
    {
        let ghost t = self.config().toolchain_hash.deep_view();
        let n = graph.units.len();
        let mut out = owned("  };\n\n");
        push_str(&mut out, "in {\n");
        push_str(&mut out, "  inherit units;\n");
        push_str(&mut out, "  roots = [ ");
        let ghost start = out@;
        let mut r: usize = 0;
        while r < graph.roots.len()
            invariant
                r <= graph.roots@.len(),
                n == graph.units@.len(),
                names@.len() == n,
                forall|x: int| 0 <= x < n ==> #[trigger] names@[x]@ == unit_name(graph.units@[x], t),
                out@ == start + root_items(*graph, t, r as int),
            decreases graph.roots@.len() - r,
        {
            let x = graph.roots[r];
            let ghost before = out@;
            if x < n {
                if r > 0 {
                    push_str(&mut out, " ");
                }
                let v = var_of(names[x].as_str());
                push_str(&mut out, v.as_str());
            }
            r = r + 1;
            assert(out@ =~= start + root_items(*graph, t, r as int));
        }
        push_str(&mut out, " ];\n");
        self.push_view(&mut out, graph, names, "\n  # Workspace packages by target name\n  packages = {\n", 0);
        self.push_view(&mut out, graph, names, "\n  # Binary targets only\n  binaries = {\n", 1);
        self.push_view(&mut out, graph, names, "\n  # Library targets only\n  libraries = {\n", 2);
        let ghost before_default = out@;
        if graph.roots.len() > 0 && graph.roots[0] < n {
            push_str(&mut out, "\n  default = ");
            let v = var_of(names[graph.roots[0]].as_str());
            push_str(&mut out, v.as_str());
            push_str(&mut out, ";\n");
        }
        assert(out@ =~= before_default + default_model(*graph, t));
        push_str(&mut out, "}\n");
        assert(out@ =~= outputs_model(*graph, t));
        out
    }

    /// One view over the roots: all of them (`which` 0), the binaries (1),
    /// or the libraries and proc-macros (2), by target name.
    #[verifier::rlimit(100)]
    #[verifier::spinoff_prover]
    fn push_view(&self, out: &mut String, graph: &UnitGraph, names: &Vec<String>, head: &str, which: u8)
        requires
            names@.len() == graph.units@.len(),
            forall|x: int| 0 <= x < graph.units@.len() ==> #[trigger] names@[x]@ == unit_name(
                graph.units@[x],
                self.config().toolchain_hash.deep_view(),
            ),
        ensures
            final(out)@ == old(out)@ + view_model(*graph, self.config().toolchain_hash.deep_view(), head@, which),
    {
        let ghost t = self.config().toolchain_hash.deep_view();
        let ghost start = out@;
        push_str(out, head);
        let ghost s1 = out@;
        let n = graph.units.len();
        let mut r: usize = 0;
        while r < graph.roots.len()
            invariant
                r <= graph.roots@.len(),
                n == graph.units@.len(),
                names@.len() == n,
                forall|x: int| 0 <= x < n ==> #[trigger] names@[x]@ == unit_name(graph.units@[x], t),
                out@ == s1 + view_items(*graph, t, which, r as int),
            decreases graph.roots@.len() - r,
        {
            let x = graph.roots[r];
            if x < n {
                let u = &graph.units[x];
                let keep = if which == 0 {
                    true
                } else if which == 1 {
                    u.is_bin()
                } else {
                    u.is_lib() || u.is_proc_macro()
                };
                if keep {
                    push_str(out, "    \"");
                    let key = escape_nix_string(u.target.name.as_str());
                    push_str(out, key.as_str());
                    push_str(out, "\" = ");
                    let v = var_of(names[x].as_str());
                    push_str(out, v.as_str());
                    push_str(out, ";\n");
                }
            }
            r = r + 1;
            assert(out@ =~= s1 + view_items(*graph, t, which, r as int));
        }
        push_str(out, "  };\n");
        assert(out@ =~= start + view_model(*graph, t, head@, which));
    }
}

} // verus!
