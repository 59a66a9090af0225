//! Build scripts: a build script is compiled like any binary, then run by a
//! derivation of its own that sets up the environment a build script
//! expects and sorts the `cargo:` directives it prints into one file per kind.
use vstd::prelude::*;
use crate::nix_gen::{
    ca_attrs, escape_nix_multiline, feature_exports, multiline_escaped, nix_escaped,
    push_feature_exports, render_model, NixAttrSet,
};
use crate::rustc_flags::RustcFlags;
use crate::shell::{quote_arg, quoted};
use crate::source_filter::{manifest_dir_model, remap_manifest_dir, remap_source_model, remap_source_path};
use crate::text::{clone_strings, owned, push_str, str_eq, contains_str};
use crate::unit_graph::{
    has_kind, identity_hash_spec, is_build_script_spec, is_run_spec, package_name_spec,
    version_or_default, Unit,
};

verus! {

/// What a build-script unit needs for its two derivations.
#[derive(Debug, Clone)]
pub struct BuildScriptInfo {
    /// The package that owns the build script.
    pub package_name: String,
    /// The package version.
    pub version: String,
    /// The build script's source, inside the sandbox.
    pub src_path: String,
    /// The package's manifest directory, inside the sandbox.
    pub manifest_dir: String,
    /// Name of the derivation that compiles the script.
    pub compile_drv_name: String,
    /// Name of the derivation that runs it.
    pub run_drv_name: String,
    /// Rustc arguments for compiling the script.
    pub rustc_flags: RustcFlags,
    /// Features enabled for the package.
    pub features: Vec<String>,
    /// Whether the derivations are content-addressed.
    pub content_addressed: bool,
}

/// What a run derivation is made from, as plain values.
pub struct BsView {
    pub package_name: Seq<char>,
    pub version: Seq<char>,
    pub manifest_dir: Seq<char>,
    pub features: Seq<Seq<char>>,
    pub content_addressed: bool,
}

impl View for BuildScriptInfo {
    type V = BsView;

    open spec fn view(&self) -> BsView {
        BsView {
            package_name: self.package_name@,
            version: self.version@,
            manifest_dir: self.manifest_dir@,
            features: self.features.deep_view(),
            content_addressed: self.content_addressed,
        }
    }
}

/// The run-derivation facts of a build-script unit.
pub open spec fn bs_view_of(u: Unit, workspace_root: Seq<char>, content_addressed: bool) -> BsView {
    BsView {
        package_name: package_name_spec(u.pkg_id@),
        version: version_or_default(u.pkg_id@),
        manifest_dir: manifest_dir_model(u.pkg_id@, u.target.src_path@, workspace_root, "src"@, "vendorDir"@),
        features: u.features.deep_view(),
        content_addressed,
    }
}

/// One line per argument of a rustc invocation: indented, in shell form,
/// continued with a backslash.
pub open spec fn arg_lines(args: Seq<Seq<char>>) -> Seq<char>
    decreases args.len(),
{
    if args.len() == 0 {
        seq![]
    } else {
        arg_lines(args.drop_last()) + "  "@ + quoted(args.last()) + " \\\n"@
    }
}

/// Appends one continued line per argument.
pub(crate) fn push_arg_lines(out: &mut String, args: &Vec<String>)
    ensures
        final(out)@ == old(out)@ + arg_lines(args.deep_view()),
{
    let ghost start = out@;
    let mut i: usize = 0;
    while i < args.len()
        invariant
            i <= args@.len(),
            out@ == start + arg_lines(args.deep_view().subrange(0, i as int)),
        decreases args@.len() - i,
    {
        push_str(out, "  ");
        let q = quote_arg(args[i].as_str());
        push_str(out, q.as_str());
        push_str(out, " \\\n");
        assert(args.deep_view().subrange(0, i + 1).drop_last() =~= args.deep_view().subrange(0, i as int));
        i = i + 1;
        assert(out@ =~= start + arg_lines(args.deep_view().subrange(0, i as int)));
    }
    assert(args.deep_view().subrange(0, args@.len() as int) =~= args.deep_view());
}

/// The shell that sorts a build script's output lines by directive.
pub open spec fn directive_parser() -> Seq<char> {
    "  case \"$line\" in\n    cargo:rustc-cfg=*)\n      echo \"${line#cargo:rustc-cfg=}\" >> $out/rustc-cfg\n      ;;\n    cargo:rustc-link-lib=*)\n      echo \"${line#cargo:rustc-link-lib=}\" >> $out/rustc-link-lib\n      ;;\n    cargo:rustc-link-search=*)\n      echo \"${line#cargo:rustc-link-search=}\" >> $out/rustc-link-search\n      ;;\n    cargo:rustc-env=*)\n      echo \"${line#cargo:rustc-env=}\" >> $out/rustc-env\n      ;;\n    cargo:rustc-cdylib-link-arg=*)\n      echo \"${line#cargo:rustc-cdylib-link-arg=}\" >> $out/rustc-cdylib-link-arg\n      ;;\n    cargo:warning=*)\n      echo \"Build script warning: ${line#cargo:warning=}\" >&2\n      ;;\n    cargo:rerun-if-changed=*|cargo:rerun-if-env-changed=*)\n      ;;\n    cargo:*)\n      echo \"Unknown cargo directive: $line\" >&2\n      ;;\n  esac\ndone\n\n# Create empty files if they don't exist (for consistent interface)\ntouch $out/rustc-cfg $out/rustc-link-lib $out/rustc-link-search $out/rustc-env $out/rustc-cdylib-link-arg\n"@
}

/// The script that compiles a build script.
pub open spec fn compile_phase_model(args: Seq<Seq<char>>, src_path: Seq<char>) -> Seq<char> {
    "mkdir -p $out/bin\nrustc \\\n"@ + arg_lines(args) + "  "@ + src_path + " \\\n"@
        + "  -o $out/bin/build-script"@
}

/// The shell environment of a build script run, before Nix escaping.
pub open spec fn run_env_model(name: Seq<char>, version: Seq<char>, features: Seq<Seq<char>>) -> Seq<char> {
    "export CARGO_PKG_NAME=\""@ + name + "\"\n"@ + "export CARGO_PKG_VERSION=\""@ + version
        + "\"\n"@ + feature_exports(features)
        + "export TARGET=\"$system\"\nexport HOST=\"$system\"\nexport PROFILE=\"release\"\n"@
}

/// The body (Nix multiline syntax) of the script that runs a build script.
pub open spec fn run_phase_model(
    manifest_dir: Seq<char>,
    name: Seq<char>,
    version: Seq<char>,
    features: Seq<Seq<char>>,
    compile_var: Seq<char>,
) -> Seq<char> {
    "mkdir -p $out/out-dir\nexport OUT_DIR=$out/out-dir\nexport CARGO_MANIFEST_DIR="@ + manifest_dir
        + "\n"@ + multiline_escaped(run_env_model(name, version, features))
        + "\n# Run build script and parse output\n${"@ + compile_var
        + "}/bin/build-script 2>&1 | while IFS= read -r line; do\n"@ + multiline_escaped(
        directive_parser(),
    )
}

/// The attributes of the derivation that compiles a build script.
pub open spec fn compile_attrs_model(i: BuildScriptInfo) -> Seq<(Seq<char>, Seq<char>)> {
    seq![
        ("pname"@, "\""@ + nix_escaped(i.package_name@ + "-build-script"@) + "\""@),
        ("version"@, "\""@ + nix_escaped(i.version@) + "\""@),
        ("buildInputs"@, "[]"@),
        ("nativeBuildInputs"@, "[ rustToolchain ]"@),
    ] + (if i.content_addressed { ca_attrs() } else { seq![] }) + seq![
        ("buildPhase"@, "''\n"@ + multiline_escaped(compile_phase_model(i.rustc_flags@, i.src_path@)) + "\n''"@),
        ("installPhase"@, "''\n"@ + multiline_escaped("mkdir -p $out"@) + "\n''"@),
    ]
}

/// The build inputs of a run derivation: the compiled script, then the
/// outputs of the build scripts it depends on.
pub open spec fn run_inputs_model(compile_var: Seq<char>, deps: Seq<Seq<char>>) -> Seq<char> {
    "[ "@ + compile_var + dep_items(deps) + " ]"@
}

/// Each dependency output, preceded by a space.
pub open spec fn dep_items(deps: Seq<Seq<char>>) -> Seq<char>
    decreases deps.len(),
{
    if deps.len() == 0 {
        seq![]
    } else {
        dep_items(deps.drop_last()) + " "@ + deps.last()
    }
}

/// The attributes of the derivation that runs a build script.
pub open spec fn run_attrs_model(i: BsView, compile_var: Seq<char>, deps: Seq<Seq<char>>) -> Seq<(Seq<char>, Seq<char>)> {
    seq![
        ("pname"@, "\""@ + nix_escaped(i.package_name + "-build-script-output"@) + "\""@),
        ("version"@, "\""@ + nix_escaped(i.version) + "\""@),
        ("buildInputs"@, run_inputs_model(compile_var, deps)),
        ("nativeBuildInputs"@, "[]"@),
    ] + (if i.content_addressed { ca_attrs() } else { seq![] }) + seq![
        ("buildPhase"@, "''\n"@ + run_phase_model(i.manifest_dir, i.package_name, i.version, i.features, compile_var) + "\n''"@),
        ("installPhase"@, "''\n"@ + multiline_escaped("mkdir -p $out"@) + "\n''"@),
    ]
}

impl BuildScriptInfo {
    /// The build-script facts of a unit, or `None` when it is no build script.
#[verifier::rlimit(100)]
    pub fn from_unit(unit: &Unit, workspace_root: &str, content_addressed: bool) -> (r: Option<BuildScriptInfo>)
        ensures
            r.is_some() == is_build_script_spec(*unit),
            r.is_some() ==> {
                let i = r.unwrap();
                let n = package_name_spec(unit.pkg_id@);
                let v = version_or_default(unit.pkg_id@);
                &&& i.package_name@ == n
                &&& i.version@ == v
                &&& i.src_path@ == remap_source_model(unit.target.src_path@, workspace_root@, "src"@)
                &&& i.manifest_dir@ == manifest_dir_model(unit.pkg_id@, unit.target.src_path@, workspace_root@, "src"@, "vendorDir"@)
                &&& i.compile_drv_name@ == n + "-build-script-"@ + v + "-"@ + identity_hash_spec(*unit)
                &&& i.run_drv_name@ == n + "-build-script-run-"@ + v + "-"@ + identity_hash_spec(*unit)
                &&& i.rustc_flags@ == crate::rustc_flags::unit_flags(*unit)
                &&& i.features.deep_view() == unit.features.deep_view()
                &&& i.content_addressed == content_addressed
                &&& i@ == bs_view_of(*unit, workspace_root@, content_addressed)
            },
    {
        if !unit.is_build_script() {
            return None;
        }
        let package_name = unit.package_name();
        let version = match unit.package_version() {
            Some(v) => v,
            None => owned("0.0.0"),
        };
        let src_path = remap_source_path(unit.target.src_path.as_str(), workspace_root, "src");
        let manifest_dir = remap_manifest_dir(unit, workspace_root, "src", "vendorDir");
        let base_hash = unit.identity_hash();
        let mut compile_drv_name = owned(package_name.as_str());
        push_str(&mut compile_drv_name, "-build-script-");
        push_str(&mut compile_drv_name, version.as_str());
        push_str(&mut compile_drv_name, "-");
        push_str(&mut compile_drv_name, base_hash.as_str());
        let mut run_drv_name = owned(package_name.as_str());
        push_str(&mut run_drv_name, "-build-script-run-");
        push_str(&mut run_drv_name, version.as_str());
        push_str(&mut run_drv_name, "-");
        push_str(&mut run_drv_name, base_hash.as_str());
        let rustc_flags = RustcFlags::from_unit(unit);
        Some(BuildScriptInfo {
            package_name,
            version,
            src_path,
            manifest_dir,
            compile_drv_name,
            run_drv_name,
            rustc_flags,
            features: clone_strings(&unit.features),
            content_addressed,
        })
    }

    /// The derivation that compiles the build script into `$out/bin/build-script`.
#[verifier::rlimit(100)]
    pub fn compile_derivation(&self) -> (r: String)
        ensures
            r@ == render_model(compile_attrs_model(*self), 2),
    {
        let mut attrs = NixAttrSet::new();
        let mut pname = owned(self.package_name.as_str());
        push_str(&mut pname, "-build-script");
        attrs.string("pname", pname.as_str());
        attrs.string("version", self.version.as_str());
        attrs.expr("buildInputs", "[]");
        attrs.expr("nativeBuildInputs", "[ rustToolchain ]");
        let ghost before = attrs@;
        if self.content_addressed {
            attrs.add_ca_attrs();
        }
        assert(attrs@ == before + (if self.content_addressed { ca_attrs() } else { seq![] })) by {
            if !self.content_addressed {
                assert(before + seq![] =~= before);
            }
        }
        let build_phase = self.generate_compile_phase();
        attrs.multiline("buildPhase", build_phase.as_str());
        attrs.multiline("installPhase", "mkdir -p $out");
        assert(attrs@ =~= compile_attrs_model(*self));
        attrs.render(2)
    }

    /// The script that compiles the build script.
    fn generate_compile_phase(&self) -> (r: String)
        ensures
            r@ == compile_phase_model(self.rustc_flags@, self.src_path@),
    {
        let mut script = owned("mkdir -p $out/bin\nrustc \\\n");
        push_arg_lines(&mut script, self.rustc_flags.args());
        push_str(&mut script, "  ");
        push_str(&mut script, self.src_path.as_str());
        push_str(&mut script, " \\\n");
        push_str(&mut script, "  -o $out/bin/build-script");
        script
    }

    /// The derivation that runs the build script compiled by `compile_drv_var`.
    pub fn run_derivation(&self, compile_drv_var: &str) -> (r: String)
        ensures
            r@ == render_model(run_attrs_model(self@, compile_drv_var@, seq![]), 2),
    {
        let none: Vec<String> = Vec::new();
        assert(none.deep_view() =~= Seq::<Seq<char>>::empty());
        self.run_derivation_with_deps(compile_drv_var, &none)
    }

    /// The derivation that runs the build script, with the outputs of the
    /// build scripts of its package's dependencies among its inputs.
#[verifier::rlimit(100)]
    pub fn run_derivation_with_deps(&self, compile_drv_var: &str, dep_outputs: &Vec<String>) -> (r: String)
        ensures
            r@ == render_model(run_attrs_model(self@, compile_drv_var@, dep_outputs.deep_view()), 2),
    {
        let mut attrs = NixAttrSet::new();
        let mut pname = owned(self.package_name.as_str());
        push_str(&mut pname, "-build-script-output");
        attrs.string("pname", pname.as_str());
        attrs.string("version", self.version.as_str());
        let mut inputs = owned("[ ");
        push_str(&mut inputs, compile_drv_var);
        let mut i: usize = 0;
        let ghost head = inputs@;
        while i < dep_outputs.len()
            invariant
                i <= dep_outputs@.len(),
                inputs@ == head + dep_items(dep_outputs.deep_view().subrange(0, i as int)),
            decreases dep_outputs@.len() - i,
        {
            push_str(&mut inputs, " ");
            push_str(&mut inputs, dep_outputs[i].as_str());
            assert(dep_outputs.deep_view().subrange(0, i + 1).drop_last() =~= dep_outputs.deep_view().subrange(0, i as int));
            i = i + 1;
            assert(inputs@ =~= head + dep_items(dep_outputs.deep_view().subrange(0, i as int)));
        }
        assert(dep_outputs.deep_view().subrange(0, dep_outputs@.len() as int) =~= dep_outputs.deep_view());
        push_str(&mut inputs, " ]");
        assert(inputs@ =~= run_inputs_model(compile_drv_var@, dep_outputs.deep_view()));
        attrs.expr("buildInputs", inputs.as_str());
        attrs.expr("nativeBuildInputs", "[]");
        let ghost before = attrs@;
        if self.content_addressed {
            attrs.add_ca_attrs();
        }
        assert(attrs@ == before + (if self.content_addressed { ca_attrs() } else { seq![] })) by {
            if !self.content_addressed {
                assert(before + seq![] =~= before);
            }
        }
        let build_phase = self.generate_run_phase(compile_drv_var);
        attrs.multiline_interpolated("buildPhase", build_phase.as_str());
        attrs.multiline("installPhase", "mkdir -p $out");
        assert(attrs@ =~= run_attrs_model(self@, compile_drv_var@, dep_outputs.deep_view()));
        attrs.render(2)
    }

    /// The script that runs the build script and files its directives.
    fn generate_run_phase(&self, compile_drv_var: &str) -> (r: String)
        ensures
            r@ == run_phase_model(
                self.manifest_dir@,
                self.package_name@,
                self.version@,
                self.features.deep_view(),
                compile_drv_var@,
            ),
    {
        let mut script = owned("mkdir -p $out/out-dir\nexport OUT_DIR=$out/out-dir\nexport CARGO_MANIFEST_DIR=");
        push_str(&mut script, self.manifest_dir.as_str());
        push_str(&mut script, "\n");
        let mut env = owned("export CARGO_PKG_NAME=\"");
        push_str(&mut env, self.package_name.as_str());
        push_str(&mut env, "\"\n");
        push_str(&mut env, "export CARGO_PKG_VERSION=\"");
        push_str(&mut env, self.version.as_str());
        push_str(&mut env, "\"\n");
        push_feature_exports(&mut env, &self.features);
        push_str(&mut env, "export TARGET=\"$system\"\nexport HOST=\"$system\"\nexport PROFILE=\"release\"\n");
        assert(env@ =~= run_env_model(self.package_name@, self.version@, self.features.deep_view()));
        let env_escaped = escape_nix_multiline(env.as_str());
        push_str(&mut script, env_escaped.as_str());
        push_str(&mut script, "\n# Run build script and parse output\n${");
        push_str(&mut script, compile_drv_var);
        push_str(&mut script, "}/bin/build-script 2>&1 | while IFS= read -r line; do\n");
        let parser = escape_nix_multiline("  case \"$line\" in\n    cargo:rustc-cfg=*)\n      echo \"${line#cargo:rustc-cfg=}\" >> $out/rustc-cfg\n      ;;\n    cargo:rustc-link-lib=*)\n      echo \"${line#cargo:rustc-link-lib=}\" >> $out/rustc-link-lib\n      ;;\n    cargo:rustc-link-search=*)\n      echo \"${line#cargo:rustc-link-search=}\" >> $out/rustc-link-search\n      ;;\n    cargo:rustc-env=*)\n      echo \"${line#cargo:rustc-env=}\" >> $out/rustc-env\n      ;;\n    cargo:rustc-cdylib-link-arg=*)\n      echo \"${line#cargo:rustc-cdylib-link-arg=}\" >> $out/rustc-cdylib-link-arg\n      ;;\n    cargo:warning=*)\n      echo \"Build script warning: ${line#cargo:warning=}\" >&2\n      ;;\n    cargo:rerun-if-changed=*|cargo:rerun-if-env-changed=*)\n      ;;\n    cargo:*)\n      echo \"Unknown cargo directive: $line\" >&2\n      ;;\n  esac\ndone\n\n# Create empty files if they don't exist (for consistent interface)\ntouch $out/rustc-cfg $out/rustc-link-lib $out/rustc-link-search $out/rustc-env $out/rustc-cdylib-link-arg\n");
        push_str(&mut script, parser.as_str());
        script
    }
}

/// Whether a unit is a build script, compiled or run.
pub fn is_build_script_unit(unit: &Unit) -> (r: bool)
    ensures
        r == is_build_script_spec(*unit),
{
    unit.is_build_script()
}

/// Whether a unit runs a build script (`run-custom-build`).
pub fn is_build_script_run(unit: &Unit) -> (r: bool)
    ensures
        r == is_run_spec(*unit),
{
    str_eq(unit.mode.as_str(), "run-custom-build")
}

/// Whether a unit's target is a build script (`custom-build`).
pub fn is_build_script_compile(unit: &Unit) -> (r: bool)
    ensures
        r == has_kind(*unit, "custom-build"@),
{
    contains_str(&unit.target.kind, "custom-build")
}

} // verus!
