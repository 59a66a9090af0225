//! Proc-macro units and toolchain selection: which toolchain a unit needs
//! and which file extension a host library takes.
use vstd::prelude::*;
use crate::rustc_flags::{underscore_name, underscored};
use crate::source_filter::from;
use crate::text::{chars_of, find_sub, occurs, owned, push_str, str_eq};
use crate::unit_graph::{
    is_build_script_spec, is_proc_macro_spec, package_name_spec, version_or_default, Unit,
};

verus! {

/// What a proc-macro unit is built as.
#[derive(Debug, Clone)]
pub struct ProcMacroInfo {
    /// The package name.
    pub package_name: String,
    /// The crate name, which names the library file.
    pub crate_name: String,
    /// The package version.
    pub version: String,
    /// The host platform the macro is compiled for.
    pub host_platform: String,
    /// Whether the host differs from the target platform.
    pub is_cross_compile: bool,
}

/// The library extension that a platform triple selects.
pub open spec fn library_extension_model(platform: Seq<char>) -> Seq<char> {
    if occurs(platform, "darwin"@) || occurs(platform, "apple"@) {
        "dylib"@
    } else if occurs(platform, "windows"@) {
        "dll"@
    } else {
        "so"@
    }
}

/// The host platform of a proc-macro unit.
pub open spec fn host_platform_model(u: Unit) -> Seq<char> {
    match u.platform {
        Some(p) => p@,
        None => "unknown"@,
    }
}

/// Whether `s` occurs in `t`, by search.
fn occurs_in(t: &str, s: &str) -> (r: bool)
    ensures
        r == occurs(t@, s@),
{
    let tc = chars_of(t);
    let sc = chars_of(s);
    find_sub(tc.as_slice(), sc.as_slice()).is_some()
}

impl ProcMacroInfo {
    /// The proc-macro facts of a unit, or `None` when it is no proc-macro.
    /// A unit without a platform is taken to build for an `unknown` host.
    pub fn from_unit(unit: &Unit, target_platform: Option<&str>) -> (r: Option<ProcMacroInfo>)
        ensures
            r.is_some() == is_proc_macro_spec(*unit),
            r.is_some() ==> {
                let i = r.unwrap();
                &&& i.package_name@ == package_name_spec(unit.pkg_id@)
                &&& i.crate_name@ == unit.target.name@
                &&& i.version@ == version_or_default(unit.pkg_id@)
                &&& i.host_platform@ == host_platform_model(*unit)
                &&& i.is_cross_compile == match target_platform {
                    Some(t) => t@ != host_platform_model(*unit),
                    None => false,
                }
            },
    {
        if !unit.is_proc_macro() {
            return None;
        }
        let package_name = unit.package_name();
        let crate_name = owned(unit.target.name.as_str());
        let version = match unit.package_version() {
            Some(v) => v,
            None => owned("0.0.0"),
        };
        let host_platform = match &unit.platform {
            Some(p) => owned(p.as_str()),
            None => owned("unknown"),
        };
        let is_cross_compile = match target_platform {
            Some(t) => !str_eq(t, host_platform.as_str()),
            None => false,
        };
        Some(ProcMacroInfo { package_name, crate_name, version, host_platform, is_cross_compile })
    }

    /// The library extension for the host platform.
    pub fn library_extension(&self) -> (r: &'static str)
        ensures
            r@ == library_extension_model(self.host_platform@),
    {
        platform_library_extension(self.host_platform.as_str())
    }

    /// The library file name, `lib{crate name with _}.{ext}`.
    pub fn library_filename(&self) -> (r: String)
        ensures
            r@ == "lib"@ + underscored(self.crate_name@) + "."@ + library_extension_model(
                self.host_platform@,
            ),
    {
        let mut out = owned("lib");
        let n = underscore_name(self.crate_name.as_str());
        push_str(&mut out, n.as_str());
        push_str(&mut out, ".");
        push_str(&mut out, self.library_extension());
        out
    }
}

/// The dynamic library extension for a platform triple: `dylib` for
/// darwin or apple, `dll` for windows, `so` otherwise.
pub fn platform_library_extension(platform: &str) -> (r: &'static str)
    ensures
        r@ == library_extension_model(platform@),
{
    if occurs_in(platform, "darwin") || occurs_in(platform, "apple") {
        "dylib"
    } else if occurs_in(platform, "windows") {
        "dll"
    } else {
        "so"
    }
}

/// Whether a unit is a proc-macro.
pub fn is_proc_macro_unit(unit: &Unit) -> (r: bool)
    ensures
        r == is_proc_macro_spec(*unit),
{
    unit.is_proc_macro()
}

/// Whether a unit compiles for the host: proc-macros and build scripts.
pub open spec fn requires_host_toolchain_spec(u: Unit) -> bool {
    is_proc_macro_spec(u) || is_build_script_spec(u)
}

/// Whether a unit compiles for the host: proc-macros and build scripts.
pub fn requires_host_toolchain(unit: &Unit) -> (r: bool)
    ensures
        r == requires_host_toolchain_spec(*unit),
{
    unit.is_proc_macro() || unit.is_build_script()
}

/// Whether a dependency is a proc-macro, which is wired as a dynamic library.
pub fn is_proc_macro_dependency(unit: &Unit) -> (r: bool)
    ensures
        r == is_proc_macro_spec(*unit),
{
    unit.is_proc_macro()
}

/// A shell expression that finds a proc-macro library in a derivation,
/// whatever its extension.
pub fn proc_macro_extern_expr(dep_var: &str, extern_crate_name: &str) -> (r: String)
    ensures
        r@ == "\"$(find "@ + dep_var@ + "/lib -name 'lib"@ + underscored(extern_crate_name@)
            + ".*' -type f | head -1)\""@,
{
    let mut out = owned("\"$(find ");
    push_str(&mut out, dep_var);
    push_str(&mut out, "/lib -name 'lib");
    let n = underscore_name(extern_crate_name);
    push_str(&mut out, n.as_str());
    push_str(&mut out, ".*' -type f | head -1)\"");
    out
}

/// Which toolchain the proc-macro units of a build use.
#[derive(Debug, Clone)]
pub struct ProcMacroConfig {
    /// Whether the build cross-compiles.
    pub cross_compiling: bool,
    /// The target platform triple.
    pub target_platform: Option<String>,
    /// The host platform triple.
    pub host_platform: Option<String>,
}

/// The toolchain variable for a unit.
pub open spec fn toolchain_var_model(cross_compiling: bool, is_host_unit: bool) -> Seq<char> {
    if cross_compiling && is_host_unit {
        "hostRustToolchain"@
    } else {
        "rustToolchain"@
    }
}

impl ProcMacroConfig {
    /// A native build.
    pub fn native() -> (r: ProcMacroConfig)
        ensures
            !r.cross_compiling,
            r.target_platform.is_none(),
            r.host_platform.is_none(),
    {
        ProcMacroConfig { cross_compiling: false, target_platform: None, host_platform: None }
    }

    /// A cross build from `host` to `target`.
    pub fn cross(host: &str, target: &str) -> (r: ProcMacroConfig)
        ensures
            r.cross_compiling,
            r.target_platform.deep_view() == Some(target@),
            r.host_platform.deep_view() == Some(host@),
    {
        ProcMacroConfig {
            cross_compiling: true,
            target_platform: Some(owned(target)),
            host_platform: Some(owned(host)),
        }
    }

    /// `hostRustToolchain` for host units of a cross build, else `rustToolchain`.
    pub fn toolchain_var(&self, is_host_unit: bool) -> (r: &'static str)
        ensures
            r@ == toolchain_var_model(self.cross_compiling, is_host_unit),
    {
        if self.cross_compiling && is_host_unit {
            "hostRustToolchain"
        } else {
            "rustToolchain"
        }
    }
}

} // verus!
