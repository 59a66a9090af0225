//! Reconstruction of the rustc argument vector of a unit.
use vstd::prelude::*;
use crate::shell::{quote_arg, quoted};
use crate::text::{chars_of, decimal, decimal_string, owned, push_char, push_str};
use crate::unit_graph::{
    is_test_spec, DebugInfo, LtoSetting, PanicStrategy, Profile, StripSetting, Target, Unit,
};

verus! {

/// `s` with every `-` turned into `_`.
pub open spec fn underscored(s: Seq<char>) -> Seq<char> {
    s.map_values(|c: char| if c == '-' { '_' } else { c })
}

/// `s` with every `-` turned into `_`.
pub fn underscore_name(s: &str) -> (r: String)
    ensures
        r@ == underscored(s@),
{
    let cs = chars_of(s);
    let mut out = String::new();
    let mut i: usize = 0;
    while i < cs.len()
        invariant
            cs@ == s@,
            i <= cs@.len(),
            out@ == underscored(cs@.subrange(0, i as int)),
        decreases cs@.len() - i,
    {
        let c = cs[i];
        push_char(&mut out, if c == '-' { '_' } else { c });
        i = i + 1;
        assert(out@ =~= underscored(cs@.subrange(0, i as int)));
    }
    assert(cs@.subrange(0, cs@.len() as int) =~= cs@);
    out
}

/// One `--crate-type T` pair per crate type, in order.
pub open spec fn crate_type_flags(ts: Seq<Seq<char>>) -> Seq<Seq<char>>
    decreases ts.len(),
{
    if ts.len() == 0 {
        seq![]
    } else {
        crate_type_flags(ts.drop_last()) + seq!["--crate-type"@, ts.last()]
    }
}

/// One `--cfg feature="NAME"` pair per feature, in order.
pub open spec fn feature_flags(fs: Seq<Seq<char>>) -> Seq<Seq<char>>
    decreases fs.len(),
{
    if fs.len() == 0 {
        seq![]
    } else {
        feature_flags(fs.drop_last()) + seq!["--cfg"@, "feature=\""@ + fs.last() + "\""@]
    }
}

/// `yes` or `no`.
pub open spec fn yes_no(b: bool) -> Seq<char> {
    if b { "yes"@ } else { "no"@ }
}

/// The value of `-C debuginfo=`.
pub open spec fn debuginfo_value(d: DebugInfo) -> Seq<char> {
    match d {
        DebugInfo::Disabled => "0"@,
        DebugInfo::LineDirectivesOnly => "line-directives-only"@,
        DebugInfo::LineTablesOnly => "line-tables-only"@,
        DebugInfo::Limited => "1"@,
        DebugInfo::Full => "2"@,
    }
}

/// The value of `-C lto=`.
pub open spec fn lto_value(l: LtoSetting) -> Seq<char> {
    match l {
        LtoSetting::Off => "off"@,
        LtoSetting::Thin => "thin"@,
        LtoSetting::Fat => "fat"@,
    }
}

/// The value of `-C panic=`.
pub open spec fn panic_value(p: PanicStrategy) -> Seq<char> {
    match p {
        PanicStrategy::Unwind => "unwind"@,
        PanicStrategy::Abort => "abort"@,
    }
}

/// The value of `-C strip=`.
pub open spec fn strip_value(x: StripSetting) -> Seq<char> {
    match x {
        StripSetting::Nothing => "none"@,
        StripSetting::Debuginfo => "debuginfo"@,
        StripSetting::Symbols => "symbols"@,
    }
}

/// The codegen flags that a profile gives, in order.
pub open spec fn profile_flags(p: Profile) -> Seq<Seq<char>> {
    seq![
        "-C"@, "opt-level="@ + p.opt_level@,
        "-C"@, "debuginfo="@ + debuginfo_value(p.debuginfo),
        "-C"@, "lto="@ + lto_value(p.lto),
    ] + match p.codegen_units {
        Some(n) => seq!["-C"@, "codegen-units="@ + decimal(n as nat)],
        None => seq![],
    } + seq![
        "-C"@, "debug-assertions="@ + yes_no(p.debug_assertions),
        "-C"@, "overflow-checks="@ + yes_no(p.overflow_checks),
        "-C"@, "panic="@ + panic_value(p.panic),
        "-C"@, "strip="@ + strip_value(p.strip),
    ] + match p.split_debuginfo {
        Some(s) => seq!["-C"@, "split-debuginfo="@ + s@],
        None => seq![],
    } + if p.rpath {
        seq!["-C"@, "rpath=yes"@]
    } else {
        seq![]
    }
}

/// The arguments that a unit's own metadata gives, in order.
pub open spec fn unit_flags(u: Unit) -> Seq<Seq<char>> {
    seq!["--crate-name"@, underscored(u.target.name@), "--edition"@, u.target.edition@]
        + crate_type_flags(u.target.crate_types.deep_view()) + profile_flags(u.profile)
        + feature_flags(u.features.deep_view()) + if is_test_spec(u) {
        seq!["--test"@]
    } else {
        seq![]
    } + seq!["-A"@, "mismatched_lifetime_syntaxes"@]
}

/// The arguments joined by spaces, each in its shell form.
pub open spec fn shell_join(args: Seq<Seq<char>>) -> Seq<char>
    decreases args.len(),
{
    if args.len() == 0 {
        seq![]
    } else if args.len() == 1 {
        quoted(args[0])
    } else {
        shell_join(args.drop_last()) + " "@ + quoted(args.last())
    }
}

/// A builder for rustc arguments.
#[derive(Debug, Clone)]
pub struct RustcFlags {
    args: Vec<String>,
}

impl View for RustcFlags {
    type V = Seq<Seq<char>>;

    closed spec fn view(&self) -> Seq<Seq<char>> {
        self.args.deep_view()
    }
}

fn concat(a: &str, b: &str) -> (r: String)
    ensures
        r@ == a@ + b@,
{
    let mut s = owned(a);
    push_str(&mut s, b);
    s
}

impl RustcFlags {
    /// An empty argument vector.
    pub fn new() -> (r: RustcFlags)
        ensures
            r@ == Seq::<Seq<char>>::empty(),
    {
        let r = RustcFlags { args: Vec::new() };
        assert(r@ =~= Seq::<Seq<char>>::empty());
        r
    }

    /// The arguments that a unit's metadata gives: crate name (with `-` as
    /// `_`), edition, crate types, profile codegen flags, feature cfgs,
    /// `--test` for test builds, and the lint allowance. `--extern` and `-L`
    /// come separately.
#[verifier::rlimit(100)]
    pub fn from_unit(unit: &Unit) -> (r: RustcFlags)
        ensures
            r@ == unit_flags(*unit),
    {
        let mut flags = RustcFlags::new();
        flags.push_arg("--crate-name");
        let name = underscore_name(unit.target.name.as_str());
        flags.push_arg(name.as_str());
        flags.add_edition(&unit.target);
        flags.add_crate_types(&unit.target);
        flags.add_profile_flags(&unit.profile);
        flags.add_features(&unit.features);
        let ghost before_test = flags@;
        if unit.is_test() {
            flags.push_arg("--test");
        }
        flags.push_arg("-A");
        flags.push_arg("mismatched_lifetime_syntaxes");
        proof {
            let t = if is_test_spec(*unit) { seq!["--test"@] } else { seq![] };
            assert(flags@ =~= before_test + t + seq!["-A"@, "mismatched_lifetime_syntaxes"@]);
        }
        assert(flags@ =~= unit_flags(*unit));
        flags
    }

    fn add_edition(&mut self, target: &Target)
        ensures
            final(self)@ == old(self)@ + seq!["--edition"@, target.edition@],
    {
        self.push_arg("--edition");
        self.push_arg(target.edition.as_str());
        assert(self@ =~= old(self)@ + seq!["--edition"@, target.edition@]);
    }

    fn add_crate_types(&mut self, target: &Target)
        ensures
            final(self)@ == old(self)@ + crate_type_flags(target.crate_types.deep_view()),
    {
        let ghost start = self@;
        let ts = &target.crate_types;
        let mut i: usize = 0;
        while i < ts.len()
            invariant
                i <= ts@.len(),
                self@ == start + crate_type_flags(ts.deep_view().subrange(0, i as int)),
            decreases ts@.len() - i,
        {
            self.push_arg("--crate-type");
            self.push_arg(ts[i].as_str());
            assert(ts.deep_view().subrange(0, i + 1).drop_last() =~= ts.deep_view().subrange(0, i as int));
            i = i + 1;
            assert(self@ =~= start + crate_type_flags(ts.deep_view().subrange(0, i as int)));
        }
        assert(ts.deep_view().subrange(0, ts@.len() as int) =~= ts.deep_view());
    }

    #[verifier::rlimit(80)]
    fn add_profile_flags(&mut self, profile: &Profile)
        ensures
            final(self)@ == old(self)@ + profile_flags(*profile),
    {
        let ghost start = self@;
        self.push_codegen_flag("opt-level=", profile.opt_level.as_str());
        self.add_debuginfo(profile.debuginfo);
        self.add_lto(&profile.lto);
        let ghost a = self@;
        match profile.codegen_units {
            Some(cgu) => {
                let v = decimal_string(cgu as u64);
                self.push_codegen_flag("codegen-units=", v.as_str());
            },
            None => {},
        }
        let ghost b = self@;
        self.push_codegen_bool("debug-assertions=", profile.debug_assertions);
        self.push_codegen_bool("overflow-checks=", profile.overflow_checks);
        self.add_panic(&profile.panic);
        self.add_strip(&profile.strip);
        let ghost c = self@;
        match &profile.split_debuginfo {
            Some(split) => {
                self.push_arg("-C");
                let v = concat("split-debuginfo=", split.as_str());
                self.push_arg(v.as_str());
            },
            None => {},
        }
        let ghost d = self@;
        if profile.rpath {
            self.push_arg("-C");
            self.push_arg("rpath=yes");
        }
        proof {
            let p = *profile;
            let cg = match p.codegen_units {
                Some(n) => seq!["-C"@, "codegen-units="@ + decimal(n as nat)],
                None => seq![],
            };
            let sp = match p.split_debuginfo {
                Some(s) => seq!["-C"@, "split-debuginfo="@ + s@],
                None => seq![],
            };
            let rp = if p.rpath { seq!["-C"@, "rpath=yes"@] } else { seq![] };
            assert(b =~= a + cg);
            assert(d =~= c + sp);
            assert(self@ =~= d + rp);
        }
        assert(self@ =~= start + profile_flags(*profile));
    }

    fn add_debuginfo(&mut self, debuginfo: DebugInfo)
        ensures
            final(self)@ == old(self)@ + seq!["-C"@, "debuginfo="@ + debuginfo_value(debuginfo)],
    {
        let value = match debuginfo {
            DebugInfo::Disabled => "0",
            DebugInfo::LineDirectivesOnly => "line-directives-only",
            DebugInfo::LineTablesOnly => "line-tables-only",
            DebugInfo::Limited => "1",
            DebugInfo::Full => "2",
        };
        self.push_codegen_flag("debuginfo=", value);
    }

    fn add_lto(&mut self, lto: &LtoSetting)
        ensures
            final(self)@ == old(self)@ + seq!["-C"@, "lto="@ + lto_value(*lto)],
    {
        let value = match lto {
            LtoSetting::Off => "off",
            LtoSetting::Thin => "thin",
            LtoSetting::Fat => "fat",
        };
        self.push_codegen_flag("lto=", value);
    }

    fn add_panic(&mut self, panic: &PanicStrategy)
        ensures
            final(self)@ == old(self)@ + seq!["-C"@, "panic="@ + panic_value(*panic)],
    {
        let value = match panic {
            PanicStrategy::Unwind => "unwind",
            PanicStrategy::Abort => "abort",
        };
        self.push_codegen_flag("panic=", value);
    }

    fn add_strip(&mut self, strip: &StripSetting)
        ensures
            final(self)@ == old(self)@ + seq!["-C"@, "strip="@ + strip_value(*strip)],
    {
        let value = match strip {
            StripSetting::Nothing => "none",
            StripSetting::Debuginfo => "debuginfo",
            StripSetting::Symbols => "symbols",
        };
        self.push_codegen_flag("strip=", value);
    }

    fn add_features(&mut self, features: &Vec<String>)
        ensures
            final(self)@ == old(self)@ + feature_flags(features.deep_view()),
    {
        let ghost start = self@;
        let mut i: usize = 0;
        while i < features.len()
            invariant
                i <= features@.len(),
                self@ == start + feature_flags(features.deep_view().subrange(0, i as int)),
            decreases features@.len() - i,
        {
            self.push_arg("--cfg");
            let mut v = owned("feature=\"");
            push_str(&mut v, features[i].as_str());
            push_str(&mut v, "\"");
            self.push_arg(v.as_str());
            assert(features.deep_view().subrange(0, i + 1).drop_last() =~= features.deep_view().subrange(0, i as int));
            i = i + 1;
            assert(self@ =~= start + feature_flags(features.deep_view().subrange(0, i as int)));
        }
        assert(features.deep_view().subrange(0, features@.len() as int) =~= features.deep_view());
    }

    /// Adds `-C metadata=HASH -C extra-filename=-HASH`.
    pub fn add_metadata(&mut self, hash: &str)
        ensures
            final(self)@ == old(self)@ + seq![
                "-C"@,
                "metadata="@ + hash@,
                "-C"@,
                "extra-filename="@ + ("-"@ + hash@),
            ],
    {
        self.push_codegen_flag("metadata=", hash);
        let v = concat("-", hash);
        self.push_codegen_flag("extra-filename=", v.as_str());
        assert(self@ =~= old(self)@ + seq![
            "-C"@,
            "metadata="@ + hash@,
            "-C"@,
            "extra-filename="@ + ("-"@ + hash@),
        ]);
    }

    /// Adds `--cap-lints warn`, as cargo does for dependencies from a
    /// registry or git.
    pub fn cap_lints_for_dependency(&mut self)
        ensures
            final(self)@ == old(self)@ + seq!["--cap-lints"@, "warn"@],
    {
        self.push_arg("--cap-lints");
        self.push_arg("warn");
        assert(self@ =~= old(self)@ + seq!["--cap-lints"@, "warn"@]);
    }

    /// Adds `--extern name=path`.
    pub fn add_extern(&mut self, name: &str, path: &str)
        ensures
            final(self)@ == old(self)@ + seq!["--extern"@, name@ + "="@ + path@],
    {
        self.push_arg("--extern");
        let mut v = concat(name, "=");
        push_str(&mut v, path);
        self.push_arg(v.as_str());
        assert(self@ =~= old(self)@ + seq!["--extern"@, name@ + "="@ + path@]);
    }

    /// Adds `--extern name` (a crate that the compiler provides).
    pub fn add_extern_nopath(&mut self, name: &str)
        ensures
            final(self)@ == old(self)@ + seq!["--extern"@, name@],
    {
        self.push_arg("--extern");
        self.push_arg(name);
        assert(self@ =~= old(self)@ + seq!["--extern"@, name@]);
    }

    /// Adds `-L dependency=path`.
    pub fn add_lib_path(&mut self, path: &str)
        ensures
            final(self)@ == old(self)@ + seq!["-L"@, "dependency="@ + path@],
    {
        self.push_arg("-L");
        let v = concat("dependency=", path);
        self.push_arg(v.as_str());
        assert(self@ =~= old(self)@ + seq!["-L"@, "dependency="@ + path@]);
    }

    /// Adds the source file.
    pub fn add_source(&mut self, path: &str)
        ensures
            final(self)@ == old(self)@.push(path@),
    {
        self.push_arg(path);
    }

    /// Adds `-o path`.
    pub fn add_output(&mut self, path: &str)
        ensures
            final(self)@ == old(self)@ + seq!["-o"@, path@],
    {
        self.push_arg("-o");
        self.push_arg(path);
        assert(self@ =~= old(self)@ + seq!["-o"@, path@]);
    }

    /// Adds `--out-dir path`.
    pub fn add_out_dir(&mut self, path: &str)
        ensures
            final(self)@ == old(self)@ + seq!["--out-dir"@, path@],
    {
        self.push_arg("--out-dir");
        self.push_arg(path);
        assert(self@ =~= old(self)@ + seq!["--out-dir"@, path@]);
    }

    /// Adds one argument.
    pub fn push_arg(&mut self, arg: &str)
        ensures
            final(self)@ == old(self)@.push(arg@),
    {
        self.args.push(owned(arg));
        assert(self@ =~= old(self)@.push(arg@));
    }

    /// Adds `-C` and `key=value`, where `key_eq` is `key=`.
    fn push_codegen_flag(&mut self, key_eq: &str, value: &str)
        ensures
            final(self)@ == old(self)@ + seq!["-C"@, key_eq@ + value@],
    {
        self.push_arg("-C");
        let v = concat(key_eq, value);
        self.push_arg(v.as_str());
        assert(self@ =~= old(self)@ + seq!["-C"@, key_eq@ + value@]);
    }

    fn push_codegen_bool(&mut self, key_eq: &str, value: bool)
        ensures
            final(self)@ == old(self)@ + seq!["-C"@, key_eq@ + yes_no(value)],
    {
        self.push_codegen_flag(key_eq, if value { "yes" } else { "no" });
    }

    /// The arguments, in order.
    pub fn into_args(self) -> (r: Vec<String>)
        ensures
            r.deep_view() == self@,
    {
        self.args
    }

    /// The arguments, in order.
    pub fn args(&self) -> (r: &Vec<String>)
        ensures
            r.deep_view() == self@,
    {
        &self.args
    }

    /// The arguments as one shell command line: each in its shell form,
    /// separated by spaces.
    pub fn to_shell_string(&self) -> (r: String)
        ensures
            r@ == shell_join(self@),
    {
        let mut out = String::new();
        let mut i: usize = 0;
        while i < self.args.len()
            invariant
                i <= self.args@.len(),
                out@ == shell_join(self@.subrange(0, i as int)),
            decreases self.args@.len() - i,
        {
            if i > 0 {
                push_str(&mut out, " ");
            }
            let q = quote_arg(self.args[i].as_str());
            push_str(&mut out, q.as_str());
            assert(self@.subrange(0, i + 1).drop_last() =~= self@.subrange(0, i as int));
            i = i + 1;
            assert(out@ =~= shell_join(self@.subrange(0, i as int)));
        }
        assert(self@.subrange(0, self.args@.len() as int) =~= self@);
        out
    }
}

} // verus!
