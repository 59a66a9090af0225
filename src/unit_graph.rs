//! The cargo unit graph: one record per rustc invocation, with the derived
//! predicates, the lenient decoding of union-typed profile fields, the unit
//! identity and the derivation name.
use vstd::prelude::*;
use crate::source_filter::git_name;
use crate::text::{
    chars_of, contains_str, decimal, digit_char, find_char, first_index, has_prefix, owned,
    push_char, push_decimal, push_str, slice_string, starts_with, str_eq, sub_vec,
};
use vstd::utf8::encode_utf8;

verus! {

/// The root of a unit graph: a version tag, the units, and the indices of
/// the root units.
#[derive(Debug, Clone)]
pub struct UnitGraph {
    /// Format version (currently 1).
    pub version: u32,
    /// All compilation units; dependency edges refer to them by position.
    pub units: Vec<Unit>,
    /// Positions of the root units.
    pub roots: Vec<usize>,
}

/// One compilation unit (one rustc invocation).
#[derive(Debug, Clone)]
pub struct Unit {
    /// Opaque package identifier, `name version (source)` or `source#name@version`.
    pub pkg_id: String,
    /// The target being built.
    pub target: Target,
    /// The compilation profile.
    pub profile: Profile,
    /// Enabled features; their order carries no meaning.
    pub features: Vec<String>,
    /// One of `build`, `check`, `test`, `doc`, `doctest`, `run-custom-build`.
    pub mode: String,
    /// Dependency edges, in order.
    pub dependencies: Vec<Dependency>,
    /// Target triple for units that compile for the host.
    pub platform: Option<String>,
    /// Whether the unit belongs to the standard library build.
    pub is_std: bool,
}

/// A build target.
#[derive(Debug, Clone)]
pub struct Target {
    /// Target kinds (`lib`, `bin`, `proc-macro`, `custom-build`, ...).
    pub kind: Vec<String>,
    /// Crate types to produce, in order.
    pub crate_types: Vec<String>,
    /// Crate name.
    pub name: String,
    /// Absolute path of the entry point.
    pub src_path: String,
    /// Rust edition.
    pub edition: String,
    /// Whether tests are enabled.
    pub test: bool,
    /// Whether doctests are enabled.
    pub doctest: bool,
    /// Whether documentation is enabled.
    pub doc: bool,
}

/// Compilation profile settings.
#[derive(Debug, Clone)]
pub struct Profile {
    /// Profile name (`dev`, `release`, ...).
    pub name: String,
    /// Optimization level (`0`..`3`, `s`, `z`).
    pub opt_level: String,
    /// Link-time optimization.
    pub lto: LtoSetting,
    /// Number of codegen units, if set.
    pub codegen_units: Option<u32>,
    /// Debug information level.
    pub debuginfo: DebugInfo,
    /// Whether debug assertions are on.
    pub debug_assertions: bool,
    /// Whether overflow checks are on.
    pub overflow_checks: bool,
    /// Whether rpath is set.
    pub rpath: bool,
    /// Whether incremental compilation is on.
    pub incremental: bool,
    /// Panic strategy.
    pub panic: PanicStrategy,
    /// Symbol stripping.
    pub strip: StripSetting,
    /// Split debuginfo setting, if set.
    pub split_debuginfo: Option<String>,
}

/// Link-time optimization setting.
#[derive(Debug, Clone, Copy, PartialEq, Eq, Structural)]
pub enum LtoSetting {
    Off,
    Thin,
    Fat,
}

/// Debug information level.
#[derive(Debug, Clone, Copy, PartialEq, Eq, Structural)]
pub enum DebugInfo {
    Disabled,
    LineDirectivesOnly,
    LineTablesOnly,
    Limited,
    Full,
}

/// Panic strategy.
#[derive(Debug, Clone, Copy, PartialEq, Eq, Structural)]
pub enum PanicStrategy {
    Unwind,
    Abort,
}

/// Symbol stripping setting.
#[derive(Debug, Clone, Copy, PartialEq, Eq, Structural)]
pub enum StripSetting {
    Nothing,
    Debuginfo,
    Symbols,
}

/// A dependency edge between units.
#[derive(Debug, Clone)]
pub struct Dependency {
    /// Position of the dependency in the graph's units.
    pub index: usize,
    /// Name under which the dependency is passed to rustc.
    pub extern_crate_name: String,
    /// Whether this is a public dependency.
    pub public: bool,
    /// Whether the dependency stays out of the prelude.
    pub noprelude: bool,
}

/// An input value that names no known variant of a profile field.
#[derive(Debug, Clone)]
pub struct UnknownVariant {
    /// The field (`lto`, `debuginfo`, `panic`, `strip`).
    pub field: String,
    /// The value found.
    pub value: String,
}

/// The forms a `strip` value takes in the input.
#[derive(Debug, Clone)]
pub enum StripInput {
    /// A boolean.
    Bool(bool),
    /// A string.
    Text(String),
    /// An object `{"resolved": "..."}`.
    Resolved(String),
    /// An object `{"resolved": {"Named": "..."}}`.
    ResolvedNamed(String),
    /// `null`, which leaves the default.
    Absent,
    /// Any other JSON value, which names no setting.
    Other,
}

// ---------------------------------------------------------------------------
// Predicates

/// Whether the target kinds hold `k`.
pub open spec fn has_kind(u: Unit, k: Seq<char>) -> bool {
    u.target.kind.deep_view().contains(k)
}

/// Whether a unit runs a build script.
pub open spec fn is_run_spec(u: Unit) -> bool {
    u.mode@ == "run-custom-build"@
}

/// Whether a unit is a build script, compiled or run.
pub open spec fn is_build_script_spec(u: Unit) -> bool {
    is_run_spec(u) || has_kind(u, "custom-build"@)
}

/// Whether a unit is a proc-macro.
pub open spec fn is_proc_macro_spec(u: Unit) -> bool {
    has_kind(u, "proc-macro"@)
}

/// Whether a unit is a library of any kind.
pub open spec fn is_lib_spec(u: Unit) -> bool {
    has_kind(u, "lib"@) || has_kind(u, "rlib"@) || has_kind(u, "dylib"@) || has_kind(u, "cdylib"@)
        || has_kind(u, "staticlib"@)
}

/// Whether a unit is a binary.
pub open spec fn is_bin_spec(u: Unit) -> bool {
    has_kind(u, "bin"@)
}

/// Whether a unit is a test build.
pub open spec fn is_test_spec(u: Unit) -> bool {
    has_kind(u, "test"@) || u.mode@ == "test"@
}

// ---------------------------------------------------------------------------
// Package id words

/// The whitespace characters that separate the words of an old-style package id.
pub open spec fn is_ws(c: char) -> bool {
    c == ' ' || c == '\t' || c == '\n' || c == '\r' || c == '\x0b' || c == '\x0c'
}

/// `s` without its leading whitespace.
pub open spec fn skip_ws(s: Seq<char>) -> Seq<char>
    decreases s.len(),
{
    if s.len() > 0 && is_ws(s[0]) {
        skip_ws(s.drop_first())
    } else {
        s
    }
}

/// The leading run of non-whitespace characters of `s`.
pub open spec fn take_word(s: Seq<char>) -> Seq<char>
    decreases s.len(),
{
    if s.len() > 0 && !is_ws(s[0]) {
        seq![s[0]] + take_word(s.drop_first())
    } else {
        seq![]
    }
}

/// The first whitespace-separated word of `s`, if any.
pub open spec fn first_word(s: Seq<char>) -> Option<Seq<char>> {
    if skip_ws(s).len() == 0 {
        None
    } else {
        Some(take_word(skip_ws(s)))
    }
}

/// What follows the first word of `s`.
pub open spec fn after_first_word(s: Seq<char>) -> Seq<char> {
    skip_ws(s).subrange(take_word(skip_ws(s)).len() as int, skip_ws(s).len() as int)
}

/// What follows the first `#` of a new-style package id.
pub open spec fn after_hash(p: Seq<char>) -> Seq<char> {
    p.subrange(first_index(p, '#') + 1, p.len() as int)
}

/// What precedes the first `#` of a new-style package id: its source.
pub open spec fn before_hash(p: Seq<char>) -> Seq<char> {
    p.subrange(0, first_index(p, '#'))
}

/// Whether a new-style package id is a git source written `SOURCE#VERSION`.
pub open spec fn is_git_version_id(p: Seq<char>) -> bool {
    !after_hash(p).contains('@') && has_prefix(before_hash(p), "git+"@)
}

/// The package name within a package id. A git id `SOURCE#VERSION` is
/// named after the last segment of its URL.
pub open spec fn package_name_spec(p: Seq<char>) -> Seq<char> {
    if p.contains('#') {
        let a = after_hash(p);
        if a.contains('@') {
            a.subrange(0, first_index(a, '@'))
        } else if is_git_version_id(p) {
            git_name(before_hash(p))
        } else {
            a
        }
    } else {
        match first_word(p) {
            Some(w) => w,
            None => p,
        }
    }
}

/// The package version within a package id, if it has one. For a git id
/// `SOURCE#VERSION` it is what follows the `#`.
pub open spec fn package_version_spec(p: Seq<char>) -> Option<Seq<char>> {
    if p.contains('#') {
        let a = after_hash(p);
        if a.contains('@') {
            Some(a.subrange(first_index(a, '@') + 1, a.len() as int))
        } else if is_git_version_id(p) {
            Some(a)
        } else {
            None
        }
    } else {
        first_word(after_first_word(p))
    }
}

proof fn lemma_skip_step(s: Seq<char>, i: int)
    requires
        0 <= i < s.len(),
    ensures
        s.subrange(i, s.len() as int).drop_first() == s.subrange(i + 1, s.len() as int),
        s.subrange(i, s.len() as int)[0] == s[i],
{
    assert(s.subrange(i, s.len() as int).drop_first() =~= s.subrange(i + 1, s.len() as int));
}

/// The position of the first non-whitespace character at or after `i`.
fn skip_ws_from(s: &[char], i: usize) -> (j: usize)
    requires
        i <= s@.len(),
    ensures
        i <= j <= s@.len(),
        s@.subrange(j as int, s@.len() as int) == skip_ws(s@.subrange(i as int, s@.len() as int)),
{
    let mut j = i;
    while j < s.len() && is_ws_char(s[j])
        invariant
            i <= j <= s@.len(),
            skip_ws(s@.subrange(j as int, s@.len() as int)) == skip_ws(
                s@.subrange(i as int, s@.len() as int),
            ),
        decreases s@.len() - j,
    {
        proof {
            lemma_skip_step(s@, j as int);
        }
        j = j + 1;
    }
    if j < s.len() {
        proof {
            lemma_skip_step(s@, j as int);
        }
    } else {
        assert(s@.subrange(j as int, s@.len() as int).len() == 0);
    }
    j
}

/// The end of the word that starts at `j`.
fn word_end(s: &[char], j: usize) -> (k: usize)
    requires
        j <= s@.len(),
    ensures
        j <= k <= s@.len(),
        s@.subrange(j as int, k as int) == take_word(s@.subrange(j as int, s@.len() as int)),
{
    let mut k = j;
    while k < s.len() && !is_ws_char(s[k])
        invariant
            j <= k <= s@.len(),
            s@.subrange(j as int, k as int) + take_word(s@.subrange(k as int, s@.len() as int))
                == take_word(s@.subrange(j as int, s@.len() as int)),
        decreases s@.len() - k,
    {
        proof {
            lemma_skip_step(s@, k as int);
            assert(s@.subrange(j as int, k + 1) =~= s@.subrange(j as int, k as int) + seq![s@[k as int]]);
        }
        k = k + 1;
    }
    if k < s.len() {
        proof {
            lemma_skip_step(s@, k as int);
        }
    }
    assert(take_word(s@.subrange(k as int, s@.len() as int)) =~= seq![]);
    assert(s@.subrange(j as int, k as int) + seq![] =~= s@.subrange(j as int, k as int));
    k
}

fn is_ws_char(c: char) -> (r: bool)
    ensures
        r == is_ws(c),
{
    c == ' ' || c == '\t' || c == '\n' || c == '\r' || c == '\x0b' || c == '\x0c'
}

/// The bounds of the first word at or after `i`, if any.
pub(crate) fn next_word(s: &[char], i: usize) -> (r: Option<(usize, usize)>)
    requires
        i <= s@.len(),
    ensures
        match r {
            Some((a, b)) => a <= b <= s@.len() && first_word(s@.subrange(i as int, s@.len() as int))
                == Some(s@.subrange(a as int, b as int)) && after_first_word(
                s@.subrange(i as int, s@.len() as int),
            ) == s@.subrange(b as int, s@.len() as int),
            None => first_word(s@.subrange(i as int, s@.len() as int)).is_none(),
        },
{
    let a = skip_ws_from(s, i);
    if a == s.len() {
        return None;
    }
    let b = word_end(s, a);
    proof {
        let t = s@.subrange(a as int, s@.len() as int);
        assert(t.subrange(take_word(t).len() as int, t.len() as int) =~= s@.subrange(b as int, s@.len() as int));
    }
    Some((a, b))
}

impl Unit {
    /// Whether this unit is a build script (compiled or run).
    pub fn is_build_script(&self) -> (r: bool)
        ensures
            r == is_build_script_spec(*self),
    {
        str_eq(self.mode.as_str(), "run-custom-build") || contains_str(&self.target.kind, "custom-build")
    }

    /// Whether this unit is a proc-macro.
    pub fn is_proc_macro(&self) -> (r: bool)
        ensures
            r == is_proc_macro_spec(*self),
    {
        contains_str(&self.target.kind, "proc-macro")
    }

    /// Whether this unit is a library of any kind.
    pub fn is_lib(&self) -> (r: bool)
        ensures
            r == is_lib_spec(*self),
    {
        contains_str(&self.target.kind, "lib") || contains_str(&self.target.kind, "rlib")
            || contains_str(&self.target.kind, "dylib") || contains_str(&self.target.kind, "cdylib")
            || contains_str(&self.target.kind, "staticlib")
    }

    /// Whether this unit is a binary.
    pub fn is_bin(&self) -> (r: bool)
        ensures
            r == is_bin_spec(*self),
    {
        contains_str(&self.target.kind, "bin")
    }

    /// Whether this unit is a test build.
    pub fn is_test(&self) -> (r: bool)
        ensures
            r == is_test_spec(*self),
    {
        contains_str(&self.target.kind, "test") || str_eq(self.mode.as_str(), "test")
    }

    /// The package name within `pkg_id`.
    pub fn package_name(&self) -> (r: String)
        ensures
            r@ == package_name_spec(self.pkg_id@),
    {
        let p = chars_of(self.pkg_id.as_str());
        match find_char(p.as_slice(), '#') {
            Some(h) => {
                let n = p.len();
                let ghost a = p@.subrange(h + 1, n as int);
                match find_char(&p.as_slice()[h + 1..n], '@') {
                    Some(at) => {
                        assert(p@.subrange(h + 1, n as int).subrange(0, at as int) =~= p@.subrange(h + 1, h + 1 + at));
                        slice_string(p.as_slice(), h + 1, h + 1 + at)
                    },
                    None => {
                        let src = sub_vec(p.as_slice(), 0, h);
                        let git = chars_of("git+");
                        if starts_with(src.as_slice(), git.as_slice()) {
                            crate::source_filter::git_name_exec(src.as_slice())
                        } else {
                            slice_string(p.as_slice(), h + 1, n)
                        }
                    },
                }
            },
            None => {
                assert(p@.subrange(0, p@.len() as int) =~= p@);
                match next_word(p.as_slice(), 0) {
                    Some((a, b)) => slice_string(p.as_slice(), a, b),
                    None => owned(self.pkg_id.as_str()),
                }
            },
        }
    }

    /// The package version within `pkg_id`, if it has one.
#[verifier::rlimit(100)]
    pub fn package_version(&self) -> (r: Option<String>)
        ensures
            r.is_some() == package_version_spec(self.pkg_id@).is_some(),
            r.is_some() ==> r.unwrap()@ == package_version_spec(self.pkg_id@).unwrap(),
    {
        let p = chars_of(self.pkg_id.as_str());
        match find_char(p.as_slice(), '#') {
            Some(h) => {
                let n = p.len();
                match find_char(&p.as_slice()[h + 1..n], '@') {
                    Some(at) => {
                        assert(p@.subrange(h + 1, n as int).subrange(at + 1, n - (h + 1)) =~= p@.subrange(h + 1 + at + 1, n as int));
                        Some(slice_string(p.as_slice(), h + 1 + at + 1, n))
                    },
                    None => {
                        let src = sub_vec(p.as_slice(), 0, h);
                        let git = chars_of("git+");
                        if starts_with(src.as_slice(), git.as_slice()) {
                            Some(slice_string(p.as_slice(), h + 1, n))
                        } else {
                            None
                        }
                    },
                }
            },
            None => {
                assert(p@.subrange(0, p@.len() as int) =~= p@);
                match next_word(p.as_slice(), 0) {
                    Some((a, b)) => {
                        match next_word(p.as_slice(), b) {
                            Some((c, d)) => Some(slice_string(p.as_slice(), c, d)),
                            None => None,
                        }
                    },
                    None => {
                        assert(after_first_word(p@) =~= seq![]);
                        assert(p@.subrange(p@.len() as int, p@.len() as int) =~= seq![]);
                        match next_word(p.as_slice(), p.len()) {
                            Some((c, d)) => Some(slice_string(p.as_slice(), c, d)),
                            None => None,
                        }
                    },
                }
            },
        }
    }
}

// ---------------------------------------------------------------------------
// Lenient decoding of union-typed profile fields

/// The LTO setting that a string names.
pub open spec fn lto_of_str(s: Seq<char>) -> Option<LtoSetting> {
    if s == "false"@ || s == "off"@ {
        Some(LtoSetting::Off)
    } else if s == "true"@ || s == "fat"@ {
        Some(LtoSetting::Fat)
    } else if s == "thin"@ {
        Some(LtoSetting::Thin)
    } else {
        None
    }
}

/// The canonical string form of an LTO setting.
pub open spec fn lto_name(l: LtoSetting) -> Seq<char> {
    match l {
        LtoSetting::Off => "off"@,
        LtoSetting::Thin => "thin"@,
        LtoSetting::Fat => "fat"@,
    }
}

/// The debuginfo level that a string names.
pub open spec fn debuginfo_of_str(s: Seq<char>) -> Option<DebugInfo> {
    if s == "0"@ || s == "none"@ || s == "false"@ {
        Some(DebugInfo::Disabled)
    } else if s == "line-directives-only"@ {
        Some(DebugInfo::LineDirectivesOnly)
    } else if s == "line-tables-only"@ {
        Some(DebugInfo::LineTablesOnly)
    } else if s == "1"@ || s == "limited"@ {
        Some(DebugInfo::Limited)
    } else if s == "2"@ || s == "full"@ || s == "true"@ {
        Some(DebugInfo::Full)
    } else {
        None
    }
}

/// The debuginfo level that an integer names.
pub open spec fn debuginfo_of_int(v: int) -> DebugInfo {
    if v == 0 {
        DebugInfo::Disabled
    } else if v == 1 {
        DebugInfo::Limited
    } else {
        DebugInfo::Full
    }
}

/// The canonical string form of a debuginfo level.
pub open spec fn debuginfo_name(d: DebugInfo) -> Seq<char> {
    match d {
        DebugInfo::Disabled => "none"@,
        DebugInfo::LineDirectivesOnly => "line-directives-only"@,
        DebugInfo::LineTablesOnly => "line-tables-only"@,
        DebugInfo::Limited => "limited"@,
        DebugInfo::Full => "full"@,
    }
}

/// The panic strategy that a string names.
pub open spec fn panic_of_str(s: Seq<char>) -> Option<PanicStrategy> {
    if s == "unwind"@ {
        Some(PanicStrategy::Unwind)
    } else if s == "abort"@ {
        Some(PanicStrategy::Abort)
    } else {
        None
    }
}

/// The canonical string form of a panic strategy.
pub open spec fn panic_name(p: PanicStrategy) -> Seq<char> {
    match p {
        PanicStrategy::Unwind => "unwind"@,
        PanicStrategy::Abort => "abort"@,
    }
}

/// An ASCII capital in lower case; any other character stays.
pub open spec fn ascii_lower(c: char) -> char {
    if 'A' <= c && c <= 'Z' {
        (((c as u32) + 32) as u32) as char
    } else {
        c
    }
}

/// `s` with its ASCII capitals in lower case.
pub open spec fn lower_ascii(s: Seq<char>) -> Seq<char> {
    s.map_values(|c: char| ascii_lower(c))
}

/// Relies on `char::to_ascii_lowercase`: `A` to `Z` become `a` to `z`, any
/// other character stays.
#[verifier::external_body]
fn to_ascii_lower(c: char) -> (r: char)
    ensures
        r == ascii_lower(c),
{
    c.to_ascii_lowercase()
}

/// `s` with its ASCII capitals in lower case.
fn lowered(s: &str) -> (r: String)
    ensures
        r@ == lower_ascii(s@),
{
    let cs = chars_of(s);
    let mut out = String::new();
    let mut i: usize = 0;
    while i < cs.len()
        invariant
            cs@ == s@,
            i <= cs@.len(),
            out@ == lower_ascii(cs@.subrange(0, i as int)),
        decreases cs@.len() - i,
    {
        push_char(&mut out, to_ascii_lower(cs[i]));
        i = i + 1;
        assert(out@ =~= lower_ascii(cs@.subrange(0, i as int)));
    }
    assert(cs@.subrange(0, cs@.len() as int) =~= cs@);
    out
}

/// The strip setting that a string names, whatever the case of its ASCII
/// letters.
pub open spec fn strip_of_str(s: Seq<char>) -> Option<StripSetting> {
    let l = lower_ascii(s);
    if l == "none"@ || l == "false"@ {
        Some(StripSetting::Nothing)
    } else if l == "debuginfo"@ {
        Some(StripSetting::Debuginfo)
    } else if l == "symbols"@ || l == "true"@ {
        Some(StripSetting::Symbols)
    } else {
        None
    }
}

/// The canonical string form of a strip setting.
pub open spec fn strip_name(x: StripSetting) -> Seq<char> {
    match x {
        StripSetting::Nothing => "none"@,
        StripSetting::Debuginfo => "debuginfo"@,
        StripSetting::Symbols => "symbols"@,
    }
}

/// The strip setting that an input value gives, if it is a known one.
pub open spec fn strip_of_input(v: StripInput) -> Option<StripSetting> {
    match v {
        StripInput::Bool(b) => Some(if b { StripSetting::Symbols } else { StripSetting::Nothing }),
        StripInput::Text(s) => strip_of_str(s@),
        StripInput::Resolved(s) => strip_of_str(s@),
        StripInput::ResolvedNamed(s) => strip_of_str(s@),
        StripInput::Absent => Some(StripSetting::Nothing),
        StripInput::Other => None,
    }
}

fn unknown(field: &str, value: &str) -> (e: UnknownVariant)
    ensures
        e.field@ == field@,
        e.value@ == value@,
{
    UnknownVariant { field: owned(field), value: owned(value) }
}

impl LtoSetting {
    /// Decodes a boolean: `false` is off, `true` is fat.
    pub fn from_json_bool(v: bool) -> (r: LtoSetting)
        ensures
            r == (if v { LtoSetting::Fat } else { LtoSetting::Off }),
    {
        if v { LtoSetting::Fat } else { LtoSetting::Off }
    }

    /// Decodes a string; an unknown one is an error.
    pub fn from_json_str(v: &str) -> (r: Result<LtoSetting, UnknownVariant>)
        ensures
            match r {
                Ok(l) => lto_of_str(v@) == Some(l),
                Err(e) => lto_of_str(v@).is_none() && e.field@ == "lto"@ && e.value@ == v@,
            },
    {
        if str_eq(v, "false") || str_eq(v, "off") {
            Ok(LtoSetting::Off)
        } else if str_eq(v, "true") || str_eq(v, "fat") {
            Ok(LtoSetting::Fat)
        } else if str_eq(v, "thin") {
            Ok(LtoSetting::Thin)
        } else {
            Err(unknown("lto", v))
        }
    }

    /// The canonical string form, which decodes back to the same setting.
    pub fn as_json_str(&self) -> (r: &'static str)
        ensures
            r@ == lto_name(*self),
    {
        match self {
            LtoSetting::Off => "off",
            LtoSetting::Thin => "thin",
            LtoSetting::Fat => "fat",
        }
    }
}

impl DebugInfo {
    /// Decodes a boolean: `false` is none, `true` is full.
    pub fn from_json_bool(v: bool) -> (r: DebugInfo)
        ensures
            r == (if v { DebugInfo::Full } else { DebugInfo::Disabled }),
    {
        if v { DebugInfo::Full } else { DebugInfo::Disabled }
    }

    /// Decodes a signed integer: 0 is none, 1 is limited, any other is full.
    pub fn from_json_int(v: i64) -> (r: DebugInfo)
        ensures
            r == debuginfo_of_int(v as int),
    {
        if v == 0 {
            DebugInfo::Disabled
        } else if v == 1 {
            DebugInfo::Limited
        } else {
            DebugInfo::Full
        }
    }

    /// Decodes an unsigned integer: 0 is none, 1 is limited, 2 and above full.
    pub fn from_json_uint(v: u64) -> (r: DebugInfo)
        ensures
            r == debuginfo_of_int(v as int),
    {
        if v == 0 {
            DebugInfo::Disabled
        } else if v == 1 {
            DebugInfo::Limited
        } else {
            DebugInfo::Full
        }
    }

    /// Decodes a string; an unknown one is an error.
    pub fn from_json_str(v: &str) -> (r: Result<DebugInfo, UnknownVariant>)
        ensures
            match r {
                Ok(d) => debuginfo_of_str(v@) == Some(d),
                Err(e) => debuginfo_of_str(v@).is_none() && e.field@ == "debuginfo"@ && e.value@ == v@,
            },
    {
        if str_eq(v, "0") || str_eq(v, "none") || str_eq(v, "false") {
            Ok(DebugInfo::Disabled)
        } else if str_eq(v, "line-directives-only") {
            Ok(DebugInfo::LineDirectivesOnly)
        } else if str_eq(v, "line-tables-only") {
            Ok(DebugInfo::LineTablesOnly)
        } else if str_eq(v, "1") || str_eq(v, "limited") {
            Ok(DebugInfo::Limited)
        } else if str_eq(v, "2") || str_eq(v, "full") || str_eq(v, "true") {
            Ok(DebugInfo::Full)
        } else {
            Err(unknown("debuginfo", v))
        }
    }

    /// The canonical string form, which decodes back to the same level.
    pub fn as_json_str(&self) -> (r: &'static str)
        ensures
            r@ == debuginfo_name(*self),
    {
        match self {
            DebugInfo::Disabled => "none",
            DebugInfo::LineDirectivesOnly => "line-directives-only",
            DebugInfo::LineTablesOnly => "line-tables-only",
            DebugInfo::Limited => "limited",
            DebugInfo::Full => "full",
        }
    }
}

impl PanicStrategy {
    /// Decodes a string; an unknown one is an error.
    pub fn from_json_str(v: &str) -> (r: Result<PanicStrategy, UnknownVariant>)
        ensures
            match r {
                Ok(p) => panic_of_str(v@) == Some(p),
                Err(e) => panic_of_str(v@).is_none() && e.field@ == "panic"@ && e.value@ == v@,
            },
    {
        if str_eq(v, "unwind") {
            Ok(PanicStrategy::Unwind)
        } else if str_eq(v, "abort") {
            Ok(PanicStrategy::Abort)
        } else {
            Err(unknown("panic", v))
        }
    }

    /// The canonical string form, which decodes back to the same strategy.
    pub fn as_json_str(&self) -> (r: &'static str)
        ensures
            r@ == panic_name(*self),
    {
        match self {
            PanicStrategy::Unwind => "unwind",
            PanicStrategy::Abort => "abort",
        }
    }
}

impl StripSetting {
    /// Decodes a string; an unknown one is an error.
    pub fn from_str_value(v: &str) -> (r: Result<StripSetting, UnknownVariant>)
        ensures
            match r {
                Ok(x) => strip_of_str(v@) == Some(x),
                Err(e) => strip_of_str(v@).is_none() && e.field@ == "strip"@ && e.value@ == v@,
            },
    {
        let l = lowered(v);
        let w = l.as_str();
        if str_eq(w, "none") || str_eq(w, "false") {
            Ok(StripSetting::Nothing)
        } else if str_eq(w, "debuginfo") {
            Ok(StripSetting::Debuginfo)
        } else if str_eq(w, "symbols") || str_eq(w, "true") {
            Ok(StripSetting::Symbols)
        } else {
            Err(unknown("strip", v))
        }
    }

    /// Decodes any input form: a boolean, a string, or a `resolved` object;
    /// `null` gives the default and any other form is an error.
    pub fn from_json(v: &StripInput) -> (r: Result<StripSetting, UnknownVariant>)
        ensures
            match r {
                Ok(x) => strip_of_input(*v) == Some(x),
                Err(e) => strip_of_input(*v).is_none() && e.field@ == "strip"@,
            },
    {
        match v {
            StripInput::Bool(b) => Ok(if *b { StripSetting::Symbols } else { StripSetting::Nothing }),
            StripInput::Text(s) => StripSetting::from_str_value(s.as_str()),
            StripInput::Resolved(s) => StripSetting::from_str_value(s.as_str()),
            StripInput::ResolvedNamed(s) => StripSetting::from_str_value(s.as_str()),
            StripInput::Absent => Ok(StripSetting::Nothing),
            StripInput::Other => Err(unknown("strip", "a value of another form")),
        }
    }

    /// The canonical string form, which decodes back to the same setting.
    pub fn as_json_str(&self) -> (r: &'static str)
        ensures
            r@ == strip_name(*self),
    {
        match self {
            StripSetting::Nothing => "none",
            StripSetting::Debuginfo => "debuginfo",
            StripSetting::Symbols => "symbols",
        }
    }
}

/// Decoding the canonical string form of a profile setting gives the setting
/// back, for each of the four union-typed fields.
pub proof fn lemma_profile_settings_round_trip(
    l: LtoSetting,
    d: DebugInfo,
    p: PanicStrategy,
    x: StripSetting,
)
    ensures
        lto_of_str(lto_name(l)) == Some(l),
        debuginfo_of_str(debuginfo_name(d)) == Some(d),
        panic_of_str(panic_name(p)) == Some(p),
        strip_of_str(strip_name(x)) == Some(x),
{
    reveal_strlit("false");
    assert("false"@.len() == 5);
    reveal_strlit("off");
    assert("off"@.len() == 3);
    reveal_strlit("true");
    assert("true"@.len() == 4);
    reveal_strlit("fat");
    assert("fat"@.len() == 3);
    reveal_strlit("thin");
    assert("thin"@.len() == 4);
    reveal_strlit("0");
    assert("0"@.len() == 1);
    reveal_strlit("none");
    assert("none"@.len() == 4);
    reveal_strlit("line-directives-only");
    assert("line-directives-only"@.len() == 20);
    reveal_strlit("line-tables-only");
    assert("line-tables-only"@.len() == 16);
    reveal_strlit("1");
    assert("1"@.len() == 1);
    reveal_strlit("limited");
    assert("limited"@.len() == 7);
    reveal_strlit("2");
    assert("2"@.len() == 1);
    reveal_strlit("full");
    assert("full"@.len() == 4);
    reveal_strlit("unwind");
    assert("unwind"@.len() == 6);
    reveal_strlit("abort");
    assert("abort"@.len() == 5);
    reveal_strlit("debuginfo");
    assert("debuginfo"@.len() == 9);
    assert(lower_ascii("none"@) =~= "none"@);
    assert(lower_ascii("debuginfo"@) =~= "debuginfo"@);
    reveal_strlit("symbols");
    assert("symbols"@.len() == 7);
    assert(lower_ascii("symbols"@) =~= "symbols"@);
    assert("true"@[1] != "thin"@[1]);
    assert("fat"@[0] != "off"@[0]);
    assert("full"@[0] != "none"@[0]);
}

// ---------------------------------------------------------------------------
// Feature ordering

/// Lexicographic order on character sequences, by code point; a prefix
/// comes first. This is the order of `String`'s `Ord`.
pub open spec fn lex_le(a: Seq<char>, b: Seq<char>) -> bool
    decreases a.len(),
{
    if a.len() == 0 {
        true
    } else if b.len() == 0 {
        false
    } else if a[0] != b[0] {
        (a[0] as u32) < (b[0] as u32)
    } else {
        lex_le(a.drop_first(), b.drop_first())
    }
}

/// `l` with `x` put before its first element that is not below `x`.
pub open spec fn insert_sorted(x: Seq<char>, l: Seq<Seq<char>>) -> Seq<Seq<char>>
    decreases l.len(),
{
    if l.len() == 0 {
        seq![x]
    } else if lex_le(x, l[0]) {
        seq![x] + l
    } else {
        seq![l[0]] + insert_sorted(x, l.drop_first())
    }
}

/// The strings of `s` in ascending order.
pub open spec fn sorted_strings(s: Seq<Seq<char>>) -> Seq<Seq<char>>
    decreases s.len(),
{
    if s.len() == 0 {
        seq![]
    } else {
        insert_sorted(s.last(), sorted_strings(s.drop_last()))
    }
}

/// Compares two strings in the order of `lex_le`.
fn lex_le_exec(a: &[char], b: &[char]) -> (r: bool)
    ensures
        r == lex_le(a@, b@),
{
    let mut i: usize = 0;
    assert(a@.subrange(0, a@.len() as int) =~= a@);
    assert(b@.subrange(0, b@.len() as int) =~= b@);
    loop
        invariant
            i <= a@.len(),
            i <= b@.len(),
            lex_le(a@.subrange(i as int, a@.len() as int), b@.subrange(i as int, b@.len() as int))
                == lex_le(a@, b@),
        decreases a@.len() - i,
    {
        let ghost x = a@.subrange(i as int, a@.len() as int);
        let ghost y = b@.subrange(i as int, b@.len() as int);
        if i == a.len() {
            return true;
        }
        if i == b.len() {
            return false;
        }
        if a[i] != b[i] {
            return (a[i] as u32) < (b[i] as u32);
        }
        assert(x.drop_first() =~= a@.subrange(i + 1, a@.len() as int));
        assert(y.drop_first() =~= b@.subrange(i + 1, b@.len() as int));
        i = i + 1;
    }
}

proof fn lemma_insert_at(x: Seq<char>, l: Seq<Seq<char>>, k: int)
    requires
        0 <= k <= l.len(),
        forall|j: int| 0 <= j < k ==> !lex_le(x, #[trigger] l[j]),
        k < l.len() ==> lex_le(x, l[k]),
    ensures
        insert_sorted(x, l) == l.subrange(0, k) + seq![x] + l.subrange(k, l.len() as int),
    decreases k,
{
    if k == 0 {
        if l.len() == 0 {
            assert(l.subrange(0, 0) + seq![x] + l.subrange(0, 0) =~= seq![x]);
        } else {
            assert(l.subrange(0, 0) + seq![x] + l.subrange(0, l.len() as int) =~= seq![x] + l);
        }
    } else {
        assert(!lex_le(x, l[0]));
        let t = l.drop_first();
        assert forall|j: int| 0 <= j < k - 1 implies !lex_le(x, #[trigger] t[j]) by {
            assert(t[j] == l[j + 1]);
        }
        lemma_insert_at(x, t, k - 1);
        assert(l.subrange(0, k) + seq![x] + l.subrange(k, l.len() as int) =~= seq![l[0]] + (
        t.subrange(0, k - 1) + seq![x] + t.subrange(k - 1, t.len() as int)));
    }
}

/// The features in ascending order.
#[verifier::rlimit(100)]
fn sort_features(v: &Vec<String>) -> (r: Vec<String>)
    ensures
        r.deep_view() == sorted_strings(v.deep_view()),
{
    let mut out: Vec<String> = Vec::new();
    let mut i: usize = 0;
    while i < v.len()
        invariant
            i <= v@.len(),
            out.deep_view() == sorted_strings(v.deep_view().subrange(0, i as int)),
        decreases v@.len() - i,
    {
        let x = chars_of(v[i].as_str());
        let mut k: usize = 0;
        while k < out.len() && !lex_le_exec(x.as_slice(), chars_of(out[k].as_str()).as_slice())
            invariant
                k <= out@.len(),
                x@ == v.deep_view()[i as int],
                forall|j: int| 0 <= j < k ==> !lex_le(x@, #[trigger] out.deep_view()[j]),
            decreases out@.len() - k,
        {
            k = k + 1;
        }
        proof {
            lemma_insert_at(x@, out.deep_view(), k as int);
            assert(v.deep_view().subrange(0, i + 1).drop_last() =~= v.deep_view().subrange(0, i as int));
        }
        let ghost before = out.deep_view();
        out.insert(k, v[i].clone());
        assert(out.deep_view() =~= before.subrange(0, k as int) + seq![x@] + before.subrange(k as int, before.len() as int));
        i = i + 1;
    }
    assert(v.deep_view().subrange(0, v@.len() as int) =~= v.deep_view());
    out
}

// ---------------------------------------------------------------------------
// Identity

/// The separator after every field of the identity text.
pub open spec fn nul() -> Seq<char> {
    seq!['\0']
}

/// Each string followed by the separator.
pub open spec fn terminated(s: Seq<Seq<char>>) -> Seq<char>
    decreases s.len(),
{
    if s.len() == 0 {
        seq![]
    } else {
        terminated(s.drop_last()) + s.last() + nul()
    }
}

/// How the LTO setting enters the identity.
pub open spec fn lto_tag(l: LtoSetting) -> Seq<char> {
    match l {
        LtoSetting::Off => "Off"@,
        LtoSetting::Thin => "Thin"@,
        LtoSetting::Fat => "Fat"@,
    }
}

/// How the debuginfo level enters the identity.
pub open spec fn debuginfo_tag(d: DebugInfo) -> Seq<char> {
    match d {
        DebugInfo::Disabled => "None"@,
        DebugInfo::LineDirectivesOnly => "LineDirectivesOnly"@,
        DebugInfo::LineTablesOnly => "LineTablesOnly"@,
        DebugInfo::Limited => "Limited"@,
        DebugInfo::Full => "Full"@,
    }
}

/// How the panic strategy enters the identity.
pub open spec fn panic_tag(p: PanicStrategy) -> Seq<char> {
    match p {
        PanicStrategy::Unwind => "Unwind"@,
        PanicStrategy::Abort => "Abort"@,
    }
}

/// How a flag enters the identity.
pub open spec fn flag_tag(b: bool) -> Seq<char> {
    if b { "1"@ } else { "0"@ }
}

/// How the codegen-unit count enters the identity.
pub open spec fn cgu_tag(c: Option<u32>) -> Seq<char> {
    match c {
        Some(n) => decimal(n as nat),
        None => seq![],
    }
}

/// How the platform enters the identity.
pub open spec fn platform_tag(p: Option<String>) -> Seq<char> {
    match p {
        Some(s) => s@,
        None => seq![],
    }
}

/// The canonical text whose UTF-8 bytes are hashed into a unit's identity:
/// the package id, target name, crate types (in order), sorted features,
/// profile name, opt level, LTO, debuginfo, panic, the two check flags,
/// codegen units, mode and platform, each closed by a NUL.
pub open spec fn identity_text(u: Unit) -> Seq<char> {
    identity_head(u) + identity_profile(u.profile) + u.mode@ + nul() + platform_tag(u.platform)
        + nul()
}

/// The package, target, crate types and sorted features of the identity text.
pub open spec fn identity_head(u: Unit) -> Seq<char> {
    u.pkg_id@ + nul() + u.target.name@ + nul() + terminated(u.target.crate_types.deep_view())
        + terminated(sorted_strings(u.features.deep_view()))
}

/// A field followed by the separator and what comes after.
pub open spec fn fld(s: Seq<char>, rest: Seq<char>) -> Seq<char> {
    s + (nul() + rest)
}

/// The profile part of the identity text.
pub open spec fn identity_profile(p: Profile) -> Seq<char> {
    fld(
        p.name@,
        fld(
            p.opt_level@,
            fld(
                lto_tag(p.lto),
                fld(
                    debuginfo_tag(p.debuginfo),
                    fld(
                        panic_tag(p.panic),
                        flag_tag(p.debug_assertions) + (flag_tag(p.overflow_checks) + (cgu_tag(
                            p.codegen_units,
                        ) + nul())),
                    ),
                ),
            ),
        ),
    )
}

/// What SHA-256 gives for a byte sequence.
pub uninterp spec fn sha256_of(data: Seq<u8>) -> Seq<u8>;

/// Relies on `sha2::Sha256::digest`: the SHA-256 digest of the data, 32 bytes.
#[verifier::external_body]
fn sha256_digest(data: &[u8]) -> (r: Vec<u8>)
    ensures
        r@ == sha256_of(data@),
        r@.len() == 32,
{
    <sha2::Sha256 as sha2::Digest>::digest(data).to_vec()
}

/// The lowercase hexadecimal digit of a value below sixteen.
pub open spec fn hex_digit(v: nat) -> char {
    if v < 10 {
        digit_char(v)
    } else if v == 10 {
        'a'
    } else if v == 11 {
        'b'
    } else if v == 12 {
        'c'
    } else if v == 13 {
        'd'
    } else if v == 14 {
        'e'
    } else {
        'f'
    }
}

/// Two lowercase hexadecimal digits per byte, high nibble first.
pub open spec fn hex_of(b: Seq<u8>) -> Seq<char>
    decreases b.len(),
{
    if b.len() == 0 {
        seq![]
    } else {
        hex_of(b.drop_last()) + seq![hex_digit((b.last() / 16) as nat), hex_digit((b.last() % 16) as nat)]
    }
}

/// Relies on `hex::encode`: two lowercase hexadecimal digits per byte, high
/// nibble first.
#[verifier::external_body]
fn hex_encode(b: &[u8]) -> (r: String)
    ensures
        r@ == hex_of(b@),
{
    hex::encode(b)
}

/// The 16 hexadecimal digits of a digest's first eight bytes.
pub fn short_hex(digest: &[u8]) -> (r: String)
    requires
        digest@.len() >= 8,
    ensures
        r@ == hex_of(digest@.subrange(0, 8)),
{
    hex_encode(&digest[0..8])
}

/// A unit's identity: the first eight bytes of the SHA-256 of its identity
/// text, in hexadecimal.
pub open spec fn identity_hash_spec(u: Unit) -> Seq<char> {
    hex_of(sha256_of(encode_utf8(identity_text(u))).subrange(0, 8))
}

/// The version that names a unit's derivation.
pub open spec fn version_or_default(p: Seq<char>) -> Seq<char> {
    match package_version_spec(p) {
        Some(v) => v,
        None => "0.0.0"@,
    }
}

/// A unit's derivation name: target name, version and identity.
pub open spec fn derivation_name_spec(u: Unit) -> Seq<char> {
    u.target.name@ + "-"@ + version_or_default(u.pkg_id@) + "-"@ + identity_hash_spec(u)
}

fn push_terminated(out: &mut String, v: &Vec<String>)
    ensures
        final(out)@ == old(out)@ + terminated(v.deep_view()),
{
    let ghost start = out@;
    let mut i: usize = 0;
    while i < v.len()
        invariant
            i <= v@.len(),
            out@ == start + terminated(v.deep_view().subrange(0, i as int)),
        decreases v@.len() - i,
    {
        push_str(out, v[i].as_str());
        push_char(out, '\0');
        proof {
            let t = v.deep_view().subrange(0, i + 1);
            assert(t.drop_last() =~= v.deep_view().subrange(0, i as int));
        }
        i = i + 1;
        assert(out@ =~= start + terminated(v.deep_view().subrange(0, i as int)));
    }
    assert(v.deep_view().subrange(0, v@.len() as int) =~= v.deep_view());
}

fn lto_tag_str(l: LtoSetting) -> (r: &'static str)
    ensures
        r@ == lto_tag(l),
{
    match l {
        LtoSetting::Off => "Off",
        LtoSetting::Thin => "Thin",
        LtoSetting::Fat => "Fat",
    }
}

fn debuginfo_tag_str(d: DebugInfo) -> (r: &'static str)
    ensures
        r@ == debuginfo_tag(d),
{
    match d {
        DebugInfo::Disabled => "None",
        DebugInfo::LineDirectivesOnly => "LineDirectivesOnly",
        DebugInfo::LineTablesOnly => "LineTablesOnly",
        DebugInfo::Limited => "Limited",
        DebugInfo::Full => "Full",
    }
}

fn panic_tag_str(p: PanicStrategy) -> (r: &'static str)
    ensures
        r@ == panic_tag(p),
{
    match p {
        PanicStrategy::Unwind => "Unwind",
        PanicStrategy::Abort => "Abort",
    }
}

fn flag_tag_str(b: bool) -> (r: &'static str)
    ensures
        r@ == flag_tag(b),
{
    if b { "1" } else { "0" }
}

/// Appends `piece` and the separator.
fn push_field(t: &mut String, piece: &str)
    ensures
        final(t)@ == old(t)@ + piece@ + nul(),
{
    push_str(t, piece);
    push_char(t, '\0');
}

/// `s`, the separator, then `rest`.
fn field_then(s: &str, rest: &str) -> (r: String)
    ensures
        r@ == fld(s@, rest@),
{
    let mut out = owned(s);
    push_char(&mut out, '\0');
    push_str(&mut out, rest);
    assert(out@ =~= fld(s@, rest@));
    out
}

fn push_profile(t: &mut String, p: &Profile)
    ensures
        final(t)@ == old(t)@ + identity_profile(*p),
{
    let mut g = owned(flag_tag_str(p.debug_assertions));
    push_str(&mut g, flag_tag_str(p.overflow_checks));
    let ghost fl = g@;
    match p.codegen_units {
        Some(n) => push_decimal(&mut g, n as u64),
        None => {},
    }
    push_char(&mut g, '\0');
    assert(g@ =~= flag_tag(p.debug_assertions) + (flag_tag(p.overflow_checks) + (cgu_tag(p.codegen_units) + nul())));
    let e = field_then(panic_tag_str(p.panic), g.as_str());
    let d = field_then(debuginfo_tag_str(p.debuginfo), e.as_str());
    let l = field_then(lto_tag_str(p.lto), d.as_str());
    let o = field_then(p.opt_level.as_str(), l.as_str());
    let whole = field_then(p.name.as_str(), o.as_str());
    push_str(t, whole.as_str());
}

impl Unit {
    /// The canonical identity text of this unit.
#[verifier::rlimit(100)]
    pub fn identity_input(&self) -> (r: String)
        ensures
            r@ == identity_text(*self),
    {
        let mut t = String::new();
        push_str(&mut t, self.pkg_id.as_str());
        push_char(&mut t, '\0');
        push_str(&mut t, self.target.name.as_str());
        push_char(&mut t, '\0');
        push_terminated(&mut t, &self.target.crate_types);
        let features = sort_features(&self.features);
        push_terminated(&mut t, &features);
        assert(t@ =~= identity_head(*self));
        push_profile(&mut t, &self.profile);
        push_field(&mut t, self.mode.as_str());
        let ghost c = t@;
        match &self.platform {
            Some(p) => push_str(&mut t, p.as_str()),
            None => {},
        }
        assert(t@ == c + platform_tag(self.platform)) by {
            if self.platform.is_none() {
                assert(c + platform_tag(self.platform) =~= c);
            }
        }
        push_char(&mut t, '\0');
        assert(t@ =~= identity_text(*self));
        t
    }

    /// The unit's identity: 16 hexadecimal digits, the first eight bytes of
    /// the SHA-256 of its identity text.
    pub fn identity_hash(&self) -> (r: String)
        ensures
            r@ == identity_hash_spec(*self),
    {
        let t = self.identity_input();
        let digest = sha256_digest(t.as_str().as_bytes());
        short_hex(digest.as_slice())
    }

    /// The derivation name `{target-name}-{version or 0.0.0}-{identity}`.
    pub fn derivation_name(&self) -> (r: String)
        ensures
            r@ == derivation_name_spec(*self),
    {
        let mut out = owned(self.target.name.as_str());
        push_str(&mut out, "-");
        match self.package_version() {
            Some(v) => push_str(&mut out, v.as_str()),
            None => push_str(&mut out, "0.0.0"),
        }
        push_str(&mut out, "-");
        let h = self.identity_hash();
        push_str(&mut out, h.as_str());
        out
    }
}

impl UnitGraph {
    /// The positions of the root units that name a unit, in order.
    pub fn root_units(&self) -> (r: Vec<usize>)
        ensures
            r@ == valid_roots(self.roots@, self.units@.len()),
    {
        let mut out: Vec<usize> = Vec::new();
        let mut i: usize = 0;
        while i < self.roots.len()
            invariant
                i <= self.roots@.len(),
                out@ == valid_roots(self.roots@.subrange(0, i as int), self.units@.len()),
            decreases self.roots@.len() - i,
        {
            assert(self.roots@.subrange(0, i + 1).drop_last() =~= self.roots@.subrange(0, i as int));
            if self.roots[i] < self.units.len() {
                out.push(self.roots[i]);
            }
            i = i + 1;
        }
        assert(self.roots@.subrange(0, self.roots@.len() as int) =~= self.roots@);
        out
    }
}

/// The roots that are positions of units, in order.
pub open spec fn valid_roots(roots: Seq<usize>, n: nat) -> Seq<usize>
    decreases roots.len(),
{
    if roots.len() == 0 {
        seq![]
    } else if roots.last() < n {
        valid_roots(roots.drop_last(), n).push(roots.last())
    } else {
        valid_roots(roots.drop_last(), n)
    }
}

/// A graph that cannot be emitted.
#[derive(Debug, Clone)]
pub enum GraphError {
    /// A dependency names no unit.
    DependencyOutOfRange { unit: usize, index: usize },
    /// A unit depends on itself.
    SelfDependency { unit: usize },
    /// A root names no unit.
    RootOutOfRange { index: usize },
    /// A build-script run has no compile unit, or more than one.
    BuildScriptCompile { unit: usize, found: usize },
}

/// Whether a unit compiles a build script: mode `build`, kind `custom-build`.
pub open spec fn is_compile_spec(u: Unit) -> bool {
    u.mode@ == "build"@ && has_kind(u, "custom-build"@)
}

/// How many of the dependency edges lead to a build-script compile unit.
pub open spec fn compile_deps(units: Seq<Unit>, deps: Seq<Dependency>) -> nat
    decreases deps.len(),
{
    if deps.len() == 0 {
        0
    } else {
        compile_deps(units, deps.drop_last()) + if deps.last().index < units.len()
            && is_compile_spec(units[deps.last().index as int]) {
            1nat
        } else {
            0nat
        }
    }
}

/// Whether a graph can be emitted: every dependency names another unit,
/// every root names a unit, and every build-script run has exactly one
/// compile unit among its dependencies.
pub open spec fn graph_valid(g: UnitGraph) -> bool {
    &&& forall|i: int, k: int|
        0 <= i < g.units@.len() && 0 <= k < g.units@[i].dependencies@.len() ==> {
            let d = #[trigger] g.units@[i].dependencies@[k].index;
            d < g.units@.len() && d != i
        }
    &&& forall|r: int| 0 <= r < g.roots@.len() ==> #[trigger] g.roots@[r] < g.units@.len()
    &&& forall|i: int|
        0 <= i < g.units@.len() && is_run_spec(#[trigger] g.units@[i]) ==> compile_deps(
            g.units@,
            g.units@[i].dependencies@,
        ) == 1
}

/// Whether a unit compiles a build script.
pub fn is_compile_unit(u: &Unit) -> (r: bool)
    ensures
        r == is_compile_spec(*u),
{
    str_eq(u.mode.as_str(), "build") && contains_str(&u.target.kind, "custom-build")
}

fn count_compile_deps(g: &UnitGraph, i: usize) -> (r: usize)
    requires
        i < g.units@.len(),
    ensures
        r == compile_deps(g.units@, g.units@[i as int].dependencies@),
{
    let deps = &g.units[i].dependencies;
    let mut c: usize = 0;
    let mut k: usize = 0;
    while k < deps.len()
        invariant
            deps == g.units@[i as int].dependencies,
            k <= deps@.len(),
            c <= k,
            c == compile_deps(g.units@, deps@.subrange(0, k as int)),
        decreases deps@.len() - k,
    {
        let d = deps[k].index;
        if d < g.units.len() && is_compile_unit(&g.units[d]) {
            c = c + 1;
        }
        assert(deps@.subrange(0, k + 1).drop_last() =~= deps@.subrange(0, k as int));
        k = k + 1;
    }
    assert(deps@.subrange(0, deps@.len() as int) =~= deps@);
    c
}

impl UnitGraph {
    /// Checks that the graph can be emitted; the error names the first
    /// offending unit or root.
    pub fn validate(&self) -> (r: Result<(), GraphError>)
        ensures
            r.is_ok() == graph_valid(*self),
    {
        let n = self.units.len();
        let mut i: usize = 0;
        while i < n
            invariant
                n == self.units@.len(),
                i <= n,
                forall|a: int, k: int|
                    0 <= a < i && 0 <= k < self.units@[a].dependencies@.len() ==> {
                        let d = #[trigger] self.units@[a].dependencies@[k].index;
                        d < n && d != a
                    },
                forall|a: int| 0 <= a < i && is_run_spec(#[trigger] self.units@[a]) ==> compile_deps(
                    self.units@,
                    self.units@[a].dependencies@,
                ) == 1,
            decreases n - i,
        {
            let deps = &self.units[i].dependencies;
            let mut k: usize = 0;
            while k < deps.len()
                invariant
                    n == self.units@.len(),
                    i < n,
                    deps == self.units@[i as int].dependencies,
                    k <= deps@.len(),
                    forall|q: int| 0 <= q < k ==> {
                        let d = #[trigger] deps@[q].index;
                        d < n && d != i
                    },
                decreases deps@.len() - k,
            {
                let d = deps[k].index;
                if d >= n {
                    return Err(GraphError::DependencyOutOfRange { unit: i, index: d });
                }
                if d == i {
                    return Err(GraphError::SelfDependency { unit: i });
                }
                k = k + 1;
            }
            if str_eq(self.units[i].mode.as_str(), "run-custom-build") {
                let c = count_compile_deps(self, i);
                if c != 1 {
                    return Err(GraphError::BuildScriptCompile { unit: i, found: c });
                }
            }
            i = i + 1;
        }
        let mut r: usize = 0;
        while r < self.roots.len()
            invariant
                n == self.units@.len(),
                r <= self.roots@.len(),
                forall|q: int| 0 <= q < r ==> #[trigger] self.roots@[q] < n,
            decreases self.roots@.len() - r,
        {
            if self.roots[r] >= n {
                return Err(GraphError::RootOutOfRange { index: self.roots[r] });
            }
            r = r + 1;
        }
        Ok(())
    }
}

/// How a toolchain identity enters a unit's identity text.
pub open spec fn toolchain_tag(t: Option<Seq<char>>) -> Seq<char> {
    match t {
        Some(x) => x + nul(),
        None => seq![],
    }
}

/// A unit's identity when builds with a given toolchain must not share
/// outputs with builds by another.
pub open spec fn identity_hash_with_spec(u: Unit, t: Option<Seq<char>>) -> Seq<char> {
    hex_of(sha256_of(encode_utf8(identity_text(u) + toolchain_tag(t))).subrange(0, 8))
}

impl Unit {
    /// The unit's identity with a toolchain identity folded in, if given.
    pub fn identity_hash_with(&self, toolchain: &Option<String>) -> (r: String)
        ensures
            r@ == identity_hash_with_spec(*self, toolchain.deep_view()),
    {
        let mut t = self.identity_input();
        match toolchain {
            Some(x) => {
                push_str(&mut t, x.as_str());
                push_char(&mut t, '\0');
            },
            None => {},
        }
        assert(t@ =~= identity_text(*self) + toolchain_tag(toolchain.deep_view()));
        let digest = sha256_digest(t.as_str().as_bytes());
        short_hex(digest.as_slice())
    }

    /// Whether the unit's package comes from a registry or git.
    pub fn is_external_dependency(&self) -> (r: bool)
        ensures
            r == is_external_spec(*self),
    {
        match crate::source_filter::parse_pkg_id(self.pkg_id.as_str()) {
            Some((_n, _v, crate::source_filter::SourceType::Path { .. })) => false,
            Some(_) => true,
            None => false,
        }
    }
}

/// Whether a unit's package comes from a registry or git.
pub open spec fn is_external_spec(u: Unit) -> bool {
    match crate::source_filter::pkg_id_model(u.pkg_id@) {
        Some((_n, _v, k)) => !(k is Path),
        None => false,
    }
}

// ---------------------------------------------------------------------------
// Order of features

proof fn lemma_lex_refl(a: Seq<char>)
    ensures
        lex_le(a, a),
    decreases a.len(),
{
    if a.len() > 0 {
        lemma_lex_refl(a.drop_first());
    }
}

proof fn lemma_lex_antisym(a: Seq<char>, b: Seq<char>)
    requires
        lex_le(a, b),
        lex_le(b, a),
    ensures
        a == b,
    decreases a.len(),
{
    if a.len() == 0 || b.len() == 0 {
        assert(a =~= b);
    } else if a[0] == b[0] {
        lemma_lex_antisym(a.drop_first(), b.drop_first());
        assert(a.drop_first().len() == b.drop_first().len());
        assert(a.len() == b.len());
        assert forall|i: int| 0 <= i < a.len() implies a[i] == b[i] by {
            if i > 0 {
                assert(a[i] == a.drop_first()[i - 1]);
                assert(b[i] == b.drop_first()[i - 1]);
            }
        }
        assert(a =~= b);
    }
}

proof fn lemma_lex_trans(a: Seq<char>, b: Seq<char>, c: Seq<char>)
    requires
        lex_le(a, b),
        lex_le(b, c),
    ensures
        lex_le(a, c),
    decreases a.len(),
{
    if a.len() > 0 && b.len() > 0 && c.len() > 0 {
        if a[0] == b[0] && b[0] == c[0] {
            lemma_lex_trans(a.drop_first(), b.drop_first(), c.drop_first());
        }
    }
}

proof fn lemma_lex_total(a: Seq<char>, b: Seq<char>)
    ensures
        lex_le(a, b) || lex_le(b, a),
    decreases a.len(),
{
    if a.len() > 0 && b.len() > 0 {
        if a[0] == b[0] {
            lemma_lex_total(a.drop_first(), b.drop_first());
        } else {
            let x = a[0] as u32;
            let y = b[0] as u32;
            assert(x != y) by {
                if x == y {
                    vstd::utf8::char_u32_cast(a[0], x);
                    vstd::utf8::char_u32_cast(b[0], y);
                }
            }
        }
    }
}

/// Whether a sequence of strings is in ascending order.
pub open spec fn is_sorted(s: Seq<Seq<char>>) -> bool {
    forall|i: int, j: int| 0 <= i < j < s.len() ==> lex_le(#[trigger] s[i], #[trigger] s[j])
}

#[verifier::rlimit(100)]
proof fn lemma_insert_sorted(x: Seq<char>, l: Seq<Seq<char>>)
    requires
        is_sorted(l),
    ensures
        is_sorted(insert_sorted(x, l)),
        insert_sorted(x, l).to_multiset() == l.to_multiset().insert(x),
    decreases l.len(),
{
    broadcast use vstd::seq_lib::group_to_multiset_ensures, vstd::multiset::group_multiset_axioms;

    let r = insert_sorted(x, l);
    if l.len() == 0 {
        assert(r =~= Seq::<Seq<char>>::empty().push(x));
        assert(r.to_multiset() =~= l.to_multiset().insert(x));
    } else if lex_le(x, l[0]) {
        assert forall|i: int, j: int| 0 <= i < j < r.len() implies lex_le(#[trigger] r[i], #[trigger] r[j]) by {
            if i == 0 {
                if j == 1 {
                    assert(r[j] == l[0]);
                } else {
                    assert(r[j] == l[j - 1]);
                    assert(lex_le(l[0], l[j - 1]));
                    lemma_lex_trans(x, l[0], l[j - 1]);
                }
            } else {
                assert(r[i] == l[i - 1] && r[j] == l[j - 1]);
            }
        }
        vstd::seq_lib::lemma_multiset_commutative(seq![x], l);
        assert(seq![x] =~= Seq::<Seq<char>>::empty().push(x));
        assert(r.to_multiset() =~= l.to_multiset().insert(x));
    } else {
        let rest = l.drop_first();
        assert forall|i: int, j: int| 0 <= i < j < rest.len() implies lex_le(#[trigger] rest[i], #[trigger] rest[j]) by {
            assert(rest[i] == l[i + 1] && rest[j] == l[j + 1]);
        }
        lemma_insert_sorted(x, rest);
        let ins = insert_sorted(x, rest);
        assert(r == seq![l[0]] + ins);
        lemma_lex_total(x, l[0]);
        assert forall|i: int, j: int| 0 <= i < j < r.len() implies lex_le(#[trigger] r[i], #[trigger] r[j]) by {
            if i == 0 {
                let y = r[j];
                assert(y == ins[j - 1]);
                assert(ins.contains(y));
                assert(ins.to_multiset().count(y) > 0);
                if y != x {
                    assert(rest.to_multiset().count(y) > 0);
                    assert(rest.contains(y));
                    let m = choose|m: int| 0 <= m < rest.len() && rest[m] == y;
                    assert(l[m + 1] == y);
                    assert(lex_le(l[0], l[m + 1]));
                }
            } else {
                assert(r[i] == ins[i - 1] && r[j] == ins[j - 1]);
            }
        }
        vstd::seq_lib::lemma_multiset_commutative(seq![l[0]], ins);
        vstd::seq_lib::lemma_multiset_commutative(seq![l[0]], rest);
        assert(l =~= seq![l[0]] + rest);
        assert(seq![l[0]] =~= Seq::<Seq<char>>::empty().push(l[0]));
        assert(r.to_multiset() =~= l.to_multiset().insert(x));
    }
}

proof fn lemma_sorted_strings(s: Seq<Seq<char>>)
    ensures
        is_sorted(sorted_strings(s)),
        sorted_strings(s).to_multiset() == s.to_multiset(),
    decreases s.len(),
{
    broadcast use vstd::seq_lib::group_to_multiset_ensures;

    if s.len() == 0 {
        assert(sorted_strings(s).to_multiset() =~= s.to_multiset());
    } else {
        lemma_sorted_strings(s.drop_last());
        lemma_insert_sorted(s.last(), sorted_strings(s.drop_last()));
        assert(s =~= s.drop_last().push(s.last()));
    }
}

#[verifier::rlimit(100)]
proof fn lemma_sorted_unique(a: Seq<Seq<char>>, b: Seq<Seq<char>>)
    requires
        is_sorted(a),
        is_sorted(b),
        a.to_multiset() == b.to_multiset(),
    ensures
        a == b,
    decreases a.len(),
{
    broadcast use vstd::seq_lib::group_to_multiset_ensures, vstd::multiset::group_multiset_axioms;

    assert(a.len() == a.to_multiset().len());
    assert(b.len() == b.to_multiset().len());
    if a.len() == 0 {
        assert(a =~= b);
    } else {
        let a0 = a[0];
        let b0 = b[0];
        assert(a.contains(a0));
        assert(a.to_multiset().count(a0) > 0);
        assert(b.contains(a0));
        let k = choose|k: int| 0 <= k < b.len() && b[k] == a0;
        if k == 0 {
            lemma_lex_refl(b0);
        } else {
            assert(lex_le(b[0], b[k]));
        }
        assert(b.contains(b0));
        assert(b.to_multiset().count(b0) > 0);
        assert(a.contains(b0));
        let m = choose|m: int| 0 <= m < a.len() && a[m] == b0;
        if m == 0 {
            lemma_lex_refl(a0);
        } else {
            assert(lex_le(a[0], a[m]));
        }
        lemma_lex_antisym(a0, b0);
        let ta = a.drop_first();
        let tb = b.drop_first();
        assert(a.remove(0) =~= ta);
        assert(b.remove(0) =~= tb);
        assert(ta.to_multiset() == a.to_multiset().remove(a0));
        assert(tb.to_multiset() == b.to_multiset().remove(b0));
        assert forall|i: int, j: int| 0 <= i < j < ta.len() implies lex_le(#[trigger] ta[i], #[trigger] ta[j]) by {
            assert(ta[i] == a[i + 1] && ta[j] == a[j + 1]);
        }
        assert forall|i: int, j: int| 0 <= i < j < tb.len() implies lex_le(#[trigger] tb[i], #[trigger] tb[j]) by {
            assert(tb[i] == b[i + 1] && tb[j] == b[j + 1]);
        }
        lemma_sorted_unique(ta, tb);
        assert(a =~= seq![a0] + ta);
        assert(b =~= seq![b0] + tb);
    }
}

/// The order of the features does not matter: two permutations of one
/// feature list sort to the same sequence.
pub proof fn lemma_sorted_features_permutation(f1: Seq<Seq<char>>, f2: Seq<Seq<char>>)
    requires
        f1.to_multiset() == f2.to_multiset(),
    ensures
        sorted_strings(f1) == sorted_strings(f2),
{
    lemma_sorted_strings(f1);
    lemma_sorted_strings(f2);
    lemma_sorted_unique(sorted_strings(f1), sorted_strings(f2));
}

/// Whether two units agree on everything that names and identifies them
/// except their features.
pub open spec fn same_but_features(u1: Unit, u2: Unit) -> bool {
    &&& u1.pkg_id@ == u2.pkg_id@
    &&& u1.target.name@ == u2.target.name@
    &&& u1.target.crate_types.deep_view() == u2.target.crate_types.deep_view()
    &&& u1.profile.name@ == u2.profile.name@
    &&& u1.profile.opt_level@ == u2.profile.opt_level@
    &&& u1.profile.lto == u2.profile.lto
    &&& u1.profile.debuginfo == u2.profile.debuginfo
    &&& u1.profile.panic == u2.profile.panic
    &&& u1.profile.debug_assertions == u2.profile.debug_assertions
    &&& u1.profile.overflow_checks == u2.profile.overflow_checks
    &&& u1.profile.codegen_units == u2.profile.codegen_units
    &&& u1.mode@ == u2.mode@
    &&& platform_tag(u1.platform) == platform_tag(u2.platform)
}

/// Two units that differ only by the order of their features have the same
/// identity and the same derivation name.
pub proof fn lemma_identity_feature_order(u1: Unit, u2: Unit)
    requires
        same_but_features(u1, u2),
        u1.features.deep_view().to_multiset() == u2.features.deep_view().to_multiset(),
    ensures
        identity_text(u1) == identity_text(u2),
        identity_hash_spec(u1) == identity_hash_spec(u2),
        derivation_name_spec(u1) == derivation_name_spec(u2),
{
    lemma_sorted_features_permutation(u1.features.deep_view(), u2.features.deep_view());
    assert(identity_profile(u1.profile) == identity_profile(u2.profile));
    assert(identity_head(u1) == identity_head(u2));
}

// ---------------------------------------------------------------------------
// What the identity text tells apart

/// Whether a string holds no NUL character.
pub open spec fn no_nul(s: Seq<char>) -> bool {
    !s.contains('\0')
}

/// A field closed by the separator is recovered from the text.
proof fn lemma_nul_field(p1: Seq<char>, p2: Seq<char>, r1: Seq<char>, r2: Seq<char>)
    requires
        no_nul(p1),
        no_nul(p2),
        p1 + nul() + r1 == p2 + nul() + r2,
    ensures
        p1 == p2,
        r1 == r2,
{
    let t = p1 + nul() + r1;
    if p1.len() < p2.len() {
        assert(t[p1.len() as int] == '\0');
        assert((p2 + nul() + r2)[p1.len() as int] == p2[p1.len() as int]);
        assert(p2.contains('\0'));
    } else if p2.len() < p1.len() {
        assert(t[p2.len() as int] == p1[p2.len() as int]);
        assert((p2 + nul() + r2)[p2.len() as int] == '\0');
        assert(p1.contains('\0'));
    } else {
        assert(p1 =~= t.subrange(0, p1.len() as int));
        assert(p2 =~= (p2 + nul() + r2).subrange(0, p2.len() as int));
        assert(r1 =~= t.subrange(p1.len() as int + 1, t.len() as int));
        assert(r2 =~= (p2 + nul() + r2).subrange(p2.len() as int + 1, t.len() as int));
    }
}

/// A common prefix cancels.
proof fn lemma_cancel_prefix(a: Seq<char>, x: Seq<char>, y: Seq<char>)
    requires
        a + x == a + y,
    ensures
        x == y,
{
    assert(x =~= (a + x).subrange(a.len() as int, (a + x).len() as int));
    assert(y =~= (a + y).subrange(a.len() as int, (a + y).len() as int));
}

/// A common suffix cancels.
proof fn lemma_cancel_suffix(x: Seq<char>, y: Seq<char>, b: Seq<char>)
    requires
        x + b == y + b,
    ensures
        x == y,
{
    assert((x + b).len() == (y + b).len());
    assert((x + b).len() == x.len() + b.len());
    assert((y + b).len() == y.len() + b.len());
    assert(x.len() == y.len());
    assert(x =~= (x + b).subrange(0, x.len() as int));
    assert(y =~= (y + b).subrange(0, y.len() as int));
}

proof fn lemma_terminated_last(z: Seq<Seq<char>>)
    requires
        z.len() > 0,
    ensures
        terminated(z).len() > 0,
        terminated(z).last() == '\0',
{
}

/// A list of separator-free strings is recovered from its terminated form.
proof fn lemma_terminated_injective(x: Seq<Seq<char>>, y: Seq<Seq<char>>)
    requires
        forall|i: int| 0 <= i < x.len() ==> no_nul(#[trigger] x[i]),
        forall|i: int| 0 <= i < y.len() ==> no_nul(#[trigger] y[i]),
        terminated(x) == terminated(y),
    ensures
        x == y,
    decreases x.len() + y.len(),
{
    if x.len() == 0 && y.len() == 0 {
        assert(x =~= y);
    } else if x.len() == 0 {
        lemma_terminated_last(y);
    } else if y.len() == 0 {
        lemma_terminated_last(x);
    } else {
        let tx = terminated(x.drop_last());
        let ty = terminated(y.drop_last());
        let xl = x.last();
        let yl = y.last();
        assert(no_nul(xl) && no_nul(yl));
        lemma_cancel_suffix(tx + xl, ty + yl, nul());
        let s = tx + xl;
        if xl.len() < yl.len() {
            let q = s.len() - xl.len() - 1;
            assert((ty + yl)[q] == yl[q - ty.len()]);
            if x.len() > 1 {
                lemma_terminated_last(x.drop_last());
                assert(s[q] == tx[tx.len() - 1]);
            } else {
                assert(tx.len() == 0);
            }
        } else if yl.len() < xl.len() {
            let q = s.len() - yl.len() - 1;
            assert(s[q] == xl[q - tx.len()]);
            if y.len() > 1 {
                lemma_terminated_last(y.drop_last());
                assert((ty + yl)[q] == ty[ty.len() - 1]);
            } else {
                assert(ty.len() == 0);
            }
        } else {
            assert(xl =~= s.subrange(tx.len() as int, s.len() as int));
            assert(yl =~= (ty + yl).subrange(ty.len() as int, s.len() as int));
            lemma_cancel_suffix(tx, ty, xl);
            lemma_terminated_injective(x.drop_last(), y.drop_last());
            assert(x =~= x.drop_last().push(xl));
            assert(y =~= y.drop_last().push(yl));
        }
    }
}

/// The value of a string of decimal digits.
pub open spec fn digits_value(s: Seq<char>) -> nat
    decreases s.len(),
{
    if s.len() == 0 {
        0
    } else {
        digits_value(s.drop_last()) * 10 + digit_value(s.last())
    }
}

/// The value of a decimal digit.
pub open spec fn digit_value(c: char) -> nat {
    if c == '1' { 1 }
    else if c == '2' { 2 }
    else if c == '3' { 3 }
    else if c == '4' { 4 }
    else if c == '5' { 5 }
    else if c == '6' { 6 }
    else if c == '7' { 7 }
    else if c == '8' { 8 }
    else if c == '9' { 9 }
    else { 0 }
}

proof fn lemma_digit(d: nat)
    requires
        d < 10,
    ensures
        digit_value(digit_char(d)) == d,
        digit_char(d) != '\0',
{
    if d == 0 {
    } else if d == 1 {
    } else if d == 2 {
    } else if d == 3 {
    } else if d == 4 {
    } else if d == 5 {
    } else if d == 6 {
    } else if d == 7 {
    } else if d == 8 {
    } else {
    }
}

proof fn lemma_decimal_value(n: nat)
    ensures
        digits_value(decimal(n)) == n,
        decimal(n).len() > 0,
        no_nul(decimal(n)),
    decreases n,
{
    if n < 10 {
        lemma_digit(n);
        assert(decimal(n).drop_last() =~= Seq::<char>::empty());
        assert(decimal(n)[0] == digit_char(n));
        assert(decimal(n).last() == digit_char(n));
        assert(digits_value(Seq::<char>::empty()) == 0);
        assert(digits_value(decimal(n)) == digits_value(decimal(n).drop_last()) * 10 + digit_value(decimal(n).last()));
    } else {
        lemma_digit(n % 10);
        lemma_decimal_value(n / 10);
        assert(decimal(n).drop_last() == decimal(n / 10));
        assert(decimal(n).last() == digit_char(n % 10));
        assert(digits_value(decimal(n)) == digits_value(decimal(n / 10)) * 10 + digit_value(digit_char(n % 10)));
        assert(n == (n / 10) * 10 + n % 10);
        assert forall|i: int| 0 <= i < decimal(n).len() implies decimal(n)[i] != '\0' by {
            if i < decimal(n / 10).len() {
                assert(decimal(n)[i] == decimal(n / 10)[i]);
            }
        }
    }
}

proof fn lemma_literal_tags()
    ensures
        no_nul("Off"@) && no_nul("Thin"@) && no_nul("Fat"@),
        no_nul("None"@) && no_nul("LineDirectivesOnly"@) && no_nul("LineTablesOnly"@)
            && no_nul("Limited"@) && no_nul("Full"@),
        no_nul("Unwind"@) && no_nul("Abort"@),
        "Off"@ != "Thin"@ && "Off"@ != "Fat"@ && "Thin"@ != "Fat"@,
        "None"@ != "LineDirectivesOnly"@ && "None"@ != "LineTablesOnly"@ && "None"@ != "Limited"@
            && "None"@ != "Full"@ && "LineDirectivesOnly"@ != "LineTablesOnly"@
            && "LineDirectivesOnly"@ != "Limited"@ && "LineDirectivesOnly"@ != "Full"@
            && "LineTablesOnly"@ != "Limited"@ && "LineTablesOnly"@ != "Full"@ && "Limited"@ != "Full"@,
        "Unwind"@ != "Abort"@,
        "1"@ != "0"@ && "1"@.len() == 1 && "0"@.len() == 1,
{
    reveal_strlit("Off");
    reveal_strlit("Thin");
    reveal_strlit("Fat");
    reveal_strlit("None");
    reveal_strlit("LineDirectivesOnly");
    reveal_strlit("LineTablesOnly");
    reveal_strlit("Limited");
    reveal_strlit("Full");
    reveal_strlit("Unwind");
    reveal_strlit("Abort");
    reveal_strlit("1");
    reveal_strlit("0");
    assert("Off"@.len() == 3 && "Thin"@.len() == 4 && "Fat"@.len() == 3);
    assert("Off"@[0] != "Fat"@[0]);
    assert("None"@.len() == 4 && "LineDirectivesOnly"@.len() == 18 && "LineTablesOnly"@.len() == 14);
    assert("Limited"@.len() == 7 && "Full"@.len() == 4);
    assert("None"@[0] != "Full"@[0]);
    assert("Unwind"@.len() == 6 && "Abort"@.len() == 5);
    assert("1"@[0] != "0"@[0]);
}

/// The profile part of the identity text, followed by anything, tells apart
/// every profile setting that enters it, given names free of NUL.
proof fn lemma_fld_append(x: Seq<char>, r: Seq<char>, rest: Seq<char>)
    ensures
        fld(x, r) + rest == fld(x, r + rest),
{
    assert(fld(x, r) + rest =~= fld(x, r + rest));
}

proof fn lemma_fld_split(p1: Seq<char>, p2: Seq<char>, r1: Seq<char>, r2: Seq<char>)
    requires
        no_nul(p1),
        no_nul(p2),
        fld(p1, r1) == fld(p2, r2),
    ensures
        p1 == p2,
        r1 == r2,
{
    assert(fld(p1, r1) =~= p1 + nul() + r1);
    assert(fld(p2, r2) =~= p2 + nul() + r2);
    lemma_nul_field(p1, p2, r1, r2);
}

/// The profile part of the identity text, followed by anything, tells apart
/// every profile setting that enters it, given names free of NUL.
proof fn lemma_identity_profile_injective(p1: Profile, p2: Profile, rest1: Seq<char>, rest2: Seq<char>)
    requires
        no_nul(p1.name@) && no_nul(p2.name@),
        no_nul(p1.opt_level@) && no_nul(p2.opt_level@),
        identity_profile(p1) + rest1 == identity_profile(p2) + rest2,
    ensures
        p1.name@ == p2.name@,
        p1.opt_level@ == p2.opt_level@,
        p1.lto == p2.lto,
        p1.debuginfo == p2.debuginfo,
        p1.panic == p2.panic,
        p1.debug_assertions == p2.debug_assertions,
        p1.overflow_checks == p2.overflow_checks,
        p1.codegen_units == p2.codegen_units,
        rest1 == rest2,
{
    lemma_literal_tags();
    let c1 = cgu_tag(p1.codegen_units);
    let c2 = cgu_tag(p2.codegen_units);
    let g1 = flag_tag(p1.debug_assertions) + (flag_tag(p1.overflow_checks) + (c1 + nul()));
    let g2 = flag_tag(p2.debug_assertions) + (flag_tag(p2.overflow_checks) + (c2 + nul()));
    let e1 = fld(panic_tag(p1.panic), g1);
    let e2 = fld(panic_tag(p2.panic), g2);
    let d1 = fld(debuginfo_tag(p1.debuginfo), e1);
    let d2 = fld(debuginfo_tag(p2.debuginfo), e2);
    let l1 = fld(lto_tag(p1.lto), d1);
    let l2 = fld(lto_tag(p2.lto), d2);
    let o1 = fld(p1.opt_level@, l1);
    let o2 = fld(p2.opt_level@, l2);
    lemma_fld_append(p1.name@, o1, rest1);
    lemma_fld_append(p2.name@, o2, rest2);
    lemma_fld_split(p1.name@, p2.name@, o1 + rest1, o2 + rest2);
    lemma_fld_append(p1.opt_level@, l1, rest1);
    lemma_fld_append(p2.opt_level@, l2, rest2);
    lemma_fld_split(p1.opt_level@, p2.opt_level@, l1 + rest1, l2 + rest2);
    lemma_fld_append(lto_tag(p1.lto), d1, rest1);
    lemma_fld_append(lto_tag(p2.lto), d2, rest2);
    lemma_fld_split(lto_tag(p1.lto), lto_tag(p2.lto), d1 + rest1, d2 + rest2);
    lemma_fld_append(debuginfo_tag(p1.debuginfo), e1, rest1);
    lemma_fld_append(debuginfo_tag(p2.debuginfo), e2, rest2);
    lemma_fld_split(debuginfo_tag(p1.debuginfo), debuginfo_tag(p2.debuginfo), e1 + rest1, e2 + rest2);
    lemma_fld_append(panic_tag(p1.panic), g1, rest1);
    lemma_fld_append(panic_tag(p2.panic), g2, rest2);
    lemma_fld_split(panic_tag(p1.panic), panic_tag(p2.panic), g1 + rest1, g2 + rest2);
    reveal_strlit("1");
    reveal_strlit("0");
    let h1 = g1 + rest1;
    let h2 = g2 + rest2;
    assert(h1[0] == flag_tag(p1.debug_assertions)[0]);
    assert(h2[0] == flag_tag(p2.debug_assertions)[0]);
    assert(h1[1] == flag_tag(p1.overflow_checks)[0]);
    assert(h2[1] == flag_tag(p2.overflow_checks)[0]);
    assert(c1 + nul() + rest1 =~= h1.subrange(2, h1.len() as int));
    assert(c2 + nul() + rest2 =~= h2.subrange(2, h2.len() as int));
    match p1.codegen_units {
        Some(a) => lemma_decimal_value(a as nat),
        None => {},
    }
    match p2.codegen_units {
        Some(b) => lemma_decimal_value(b as nat),
        None => {},
    }
    lemma_nul_field(c1, c2, rest1, rest2);
}

/// Whether two units agree on what follows the features in the identity
/// text: the profile settings, the mode and the platform.
pub open spec fn same_identity_tail(u1: Unit, u2: Unit) -> bool {
    &&& u1.profile.name@ == u2.profile.name@
    &&& u1.profile.opt_level@ == u2.profile.opt_level@
    &&& u1.profile.lto == u2.profile.lto
    &&& u1.profile.debuginfo == u2.profile.debuginfo
    &&& u1.profile.panic == u2.profile.panic
    &&& u1.profile.debug_assertions == u2.profile.debug_assertions
    &&& u1.profile.overflow_checks == u2.profile.overflow_checks
    &&& u1.profile.codegen_units == u2.profile.codegen_units
    &&& u1.mode@ == u2.mode@
    &&& platform_tag(u1.platform) == platform_tag(u2.platform)
}

/// Whether the strings that enter a unit's identity are free of NUL.
pub open spec fn identity_strings_clean(u: Unit) -> bool {
    &&& no_nul(u.pkg_id@)
    &&& no_nul(u.target.name@)
    &&& forall|i: int| 0 <= i < u.target.crate_types@.len() ==> no_nul(#[trigger] u.target.crate_types.deep_view()[i])
    &&& forall|i: int| 0 <= i < u.features@.len() ==> no_nul(#[trigger] u.features.deep_view()[i])
    &&& no_nul(u.profile.name@)
    &&& no_nul(u.profile.opt_level@)
    &&& no_nul(u.mode@)
}

proof fn lemma_sorted_clean(u: Unit)
    requires
        identity_strings_clean(u),
    ensures
        forall|i: int| 0 <= i < sorted_strings(u.features.deep_view()).len() ==> no_nul(
            #[trigger] sorted_strings(u.features.deep_view())[i],
        ),
{
    broadcast use vstd::seq_lib::group_to_multiset_ensures;

    let f = u.features.deep_view();
    lemma_sorted_strings(f);
    let s = sorted_strings(f);
    assert forall|i: int| 0 <= i < s.len() implies no_nul(#[trigger] s[i]) by {
        assert(s.contains(s[i]));
        assert(s.to_multiset().count(s[i]) > 0);
        assert(f.contains(s[i]));
        let k = choose|k: int| 0 <= k < f.len() && f[k] == s[i];
    }
}

/// Units with equal identity texts (and strings free of NUL) have the same
/// package id and target name, and each of the crate types, the feature
/// set, and the rest (profile settings, mode, platform) is the same as soon
/// as the other two are. So units that differ in one of these alone get
/// different identity texts. The one pair of values that the text does not
/// tell apart is a platform of `""` against no platform.
#[verifier::rlimit(100)]
#[verifier::spinoff_prover]
pub proof fn lemma_identity_discriminates(u1: Unit, u2: Unit)
    requires
        identity_strings_clean(u1),
        identity_strings_clean(u2),
        identity_text(u1) == identity_text(u2),
    ensures
        u1.pkg_id@ == u2.pkg_id@,
        u1.target.name@ == u2.target.name@,
        u1.features.deep_view().to_multiset() == u2.features.deep_view().to_multiset()
            && same_identity_tail(u1, u2) ==> u1.target.crate_types.deep_view()
            == u2.target.crate_types.deep_view(),
        u1.target.crate_types.deep_view() == u2.target.crate_types.deep_view() && same_identity_tail(u1, u2)
            ==> u1.features.deep_view().to_multiset() == u2.features.deep_view().to_multiset(),
        u1.target.crate_types.deep_view() == u2.target.crate_types.deep_view()
            && u1.features.deep_view().to_multiset() == u2.features.deep_view().to_multiset()
            ==> same_identity_tail(u1, u2),
{
    let ct1 = u1.target.crate_types.deep_view();
    let ct2 = u2.target.crate_types.deep_view();
    let f1 = sorted_strings(u1.features.deep_view());
    let f2 = sorted_strings(u2.features.deep_view());
    let m1 = u1.mode@ + nul() + platform_tag(u1.platform) + nul();
    let m2 = u2.mode@ + nul() + platform_tag(u2.platform) + nul();
    let z1 = identity_profile(u1.profile) + m1;
    let z2 = identity_profile(u2.profile) + m2;
    let b1 = terminated(ct1) + terminated(f1) + z1;
    let b2 = terminated(ct2) + terminated(f2) + z2;
    let r1 = u1.target.name@ + nul() + b1;
    let r2 = u2.target.name@ + nul() + b2;
    assert(identity_text(u1) =~= u1.pkg_id@ + nul() + r1);
    assert(identity_text(u2) =~= u2.pkg_id@ + nul() + r2);
    lemma_nul_field(u1.pkg_id@, u2.pkg_id@, r1, r2);
    lemma_nul_field(u1.target.name@, u2.target.name@, b1, b2);
    lemma_sorted_strings(u1.features.deep_view());
    lemma_sorted_strings(u2.features.deep_view());
    lemma_sorted_clean(u1);
    lemma_sorted_clean(u2);
    assert(forall|i: int| 0 <= i < ct1.len() ==> no_nul(#[trigger] ct1[i]));
    assert(forall|i: int| 0 <= i < ct2.len() ==> no_nul(#[trigger] ct2[i]));
    if u1.features.deep_view().to_multiset() == u2.features.deep_view().to_multiset() && same_identity_tail(u1, u2) {
        lemma_sorted_features_permutation(u1.features.deep_view(), u2.features.deep_view());
        assert(z1 == z2);
        assert(b1 =~= terminated(ct1) + (terminated(f1) + z1));
        assert(b2 =~= terminated(ct2) + (terminated(f2) + z2));
        lemma_cancel_suffix(terminated(ct1), terminated(ct2), terminated(f1) + z1);
        lemma_terminated_injective(ct1, ct2);
    }
    if ct1 == ct2 && same_identity_tail(u1, u2) {
        assert(z1 == z2);
        assert(b1 =~= terminated(ct1) + (terminated(f1) + z1));
        assert(b2 =~= terminated(ct1) + (terminated(f2) + z1));
        lemma_cancel_prefix(terminated(ct1), terminated(f1) + z1, terminated(f2) + z1);
        lemma_cancel_suffix(terminated(f1), terminated(f2), z1);
        lemma_terminated_injective(f1, f2);
    }
    if ct1 == ct2 && u1.features.deep_view().to_multiset() == u2.features.deep_view().to_multiset() {
        lemma_sorted_features_permutation(u1.features.deep_view(), u2.features.deep_view());
        assert(b1 =~= (terminated(ct1) + terminated(f1)) + z1);
        assert(b2 =~= (terminated(ct1) + terminated(f1)) + z2);
        lemma_cancel_prefix(terminated(ct1) + terminated(f1), z1, z2);
        lemma_identity_profile_injective(u1.profile, u2.profile, m1, m2);
        let pt1 = platform_tag(u1.platform) + nul();
        let pt2 = platform_tag(u2.platform) + nul();
        assert(m1 =~= u1.mode@ + nul() + pt1);
        assert(m2 =~= u2.mode@ + nul() + pt2);
        lemma_nul_field(u1.mode@, u2.mode@, pt1, pt2);
        lemma_cancel_suffix(platform_tag(u1.platform), platform_tag(u2.platform), nul());
    }
}

} // verus!
