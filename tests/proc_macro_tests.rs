#![allow(dead_code, unused_imports)]

use nix_cargo_unit::proc_macro::{
    is_proc_macro_unit, platform_library_extension, proc_macro_extern_expr, requires_host_toolchain,
    ProcMacroConfig, ProcMacroInfo,
};
use nix_cargo_unit::unit_graph::{
    DebugInfo, Dependency, LtoSetting, PanicStrategy, Profile, StripInput, StripSetting, Target, Unit,
    UnitGraph,
};

fn json_strings(v: Option<&serde_json::Value>) -> Vec<String> {
    match v.and_then(|x| x.as_array()) {
        Some(items) => items.iter().map(|s| s.as_str().expect("string").to_string()).collect(),
        None => Vec::new(),
    }
}

fn json_bool(v: Option<&serde_json::Value>, default: bool) -> bool {
    v.and_then(|x| x.as_bool()).unwrap_or(default)
}

fn json_opt_string(v: Option<&serde_json::Value>) -> Option<String> {
    v.and_then(|x| x.as_str()).map(|s| s.to_string())
}

fn lto_from(v: Option<&serde_json::Value>) -> LtoSetting {
    match v {
        None | Some(serde_json::Value::Null) => LtoSetting::Off,
        Some(serde_json::Value::Bool(b)) => LtoSetting::from_json_bool(*b),
        Some(serde_json::Value::String(s)) => LtoSetting::from_json_str(s).expect("lto"),
        Some(other) => panic!("bad lto: {other}"),
    }
}

fn debuginfo_from(v: Option<&serde_json::Value>) -> DebugInfo {
    match v {
        None | Some(serde_json::Value::Null) => DebugInfo::Disabled,
        Some(serde_json::Value::Bool(b)) => DebugInfo::from_json_bool(*b),
        Some(serde_json::Value::Number(n)) => match n.as_u64() {
            Some(u) => DebugInfo::from_json_uint(u),
            None => DebugInfo::from_json_int(n.as_i64().expect("integer")),
        },
        Some(serde_json::Value::String(s)) => DebugInfo::from_json_str(s).expect("debuginfo"),
        Some(other) => panic!("bad debuginfo: {other}"),
    }
}

fn strip_from(v: Option<&serde_json::Value>) -> StripSetting {
    let input = match v {
        None => return StripSetting::Nothing,
        Some(serde_json::Value::Null) => StripInput::Absent,
        Some(serde_json::Value::Bool(b)) => StripInput::Bool(*b),
        Some(serde_json::Value::String(s)) => StripInput::Text(s.clone()),
        Some(serde_json::Value::Object(o)) => match o.get("resolved") {
            Some(serde_json::Value::String(s)) => StripInput::Resolved(s.clone()),
            Some(serde_json::Value::Object(inner)) => match inner.get("Named") {
                Some(serde_json::Value::String(s)) => StripInput::ResolvedNamed(s.clone()),
                _ => StripInput::Other,
            },
            _ => StripInput::Other,
        },
        Some(_) => StripInput::Other,
    };
    StripSetting::from_json(&input).expect("strip")
}

fn profile_from(p: &serde_json::Value) -> Profile {
    Profile {
        name: p["name"].as_str().expect("name").to_string(),
        opt_level: p["opt_level"].as_str().expect("opt_level").to_string(),
        lto: lto_from(p.get("lto")),
        codegen_units: p.get("codegen_units").and_then(|x| x.as_u64()).map(|x| x as u32),
        debuginfo: debuginfo_from(p.get("debuginfo")),
        debug_assertions: json_bool(p.get("debug_assertions"), false),
        overflow_checks: json_bool(p.get("overflow_checks"), false),
        rpath: json_bool(p.get("rpath"), false),
        incremental: json_bool(p.get("incremental"), false),
        panic: match p.get("panic").and_then(|x| x.as_str()) {
            Some(s) => PanicStrategy::from_json_str(s).expect("panic"),
            None => PanicStrategy::Unwind,
        },
        strip: strip_from(p.get("strip")),
        split_debuginfo: json_opt_string(p.get("split_debuginfo")),
    }
}

fn dependency_from(d: &serde_json::Value) -> Dependency {
    Dependency {
        index: d["index"].as_u64().expect("index") as usize,
        extern_crate_name: d["extern_crate_name"].as_str().expect("extern_crate_name").to_string(),
        public: json_bool(d.get("public"), false),
        noprelude: json_bool(d.get("noprelude"), false),
    }
}

fn unit_from(u: &serde_json::Value) -> Unit {
    let t = &u["target"];
    Unit {
        pkg_id: u["pkg_id"].as_str().expect("pkg_id").to_string(),
        target: Target {
            kind: json_strings(t.get("kind")),
            crate_types: json_strings(t.get("crate_types")),
            name: t["name"].as_str().expect("name").to_string(),
            src_path: t["src_path"].as_str().expect("src_path").to_string(),
            edition: t["edition"].as_str().expect("edition").to_string(),
            test: json_bool(t.get("test"), true),
            doctest: json_bool(t.get("doctest"), true),
            doc: json_bool(t.get("doc"), true),
        },
        profile: profile_from(&u["profile"]),
        features: json_strings(u.get("features")),
        mode: u["mode"].as_str().expect("mode").to_string(),
        dependencies: match u.get("dependencies").and_then(|x| x.as_array()) {
            Some(ds) => ds.iter().map(dependency_from).collect(),
            None => Vec::new(),
        },
        platform: json_opt_string(u.get("platform")),
        is_std: json_bool(u.get("is_std"), false),
    }
}

fn parse_test_unit_graph(json: &str) -> UnitGraph {
    let v: serde_json::Value = serde_json::from_str(json).expect("failed to parse");
    UnitGraph {
        version: v["version"].as_u64().expect("version") as u32,
        units: v["units"].as_array().expect("units").iter().map(unit_from).collect(),
        roots: v["roots"].as_array().expect("roots").iter().map(|r| r.as_u64().expect("root") as usize).collect(),
    }
}

fn parse_test_profile(json: &str) -> Profile {
    let v: serde_json::Value = serde_json::from_str(json).expect("failed to parse");
    profile_from(&v)
}

fn parse_test_dependency(json: &str) -> Dependency {
    let v: serde_json::Value = serde_json::from_str(json).expect("failed to parse");
    dependency_from(&v)
}

#[test]
fn proc_macro_test_proc_macro_detection() {
    let json = r#"{
        "version": 1,
        "units": [
            {
                "pkg_id": "my-macro 0.1.0 (path+file:///workspace)",
                "target": {
                    "kind": ["proc-macro"],
                    "crate_types": ["proc-macro"],
                    "name": "my_macro",
                    "src_path": "/workspace/src/lib.rs",
                    "edition": "2021"
                },
                "profile": {"name": "dev", "opt_level": "0"},
                "features": [],
                "mode": "build",
                "dependencies": [],
                "platform": "x86_64-unknown-linux-gnu"
            }
        ],
        "roots": [0]
    }"#;

    let graph = parse_test_unit_graph(json);
    let unit = &graph.units[0];

    assert!(is_proc_macro_unit(unit));
    assert!(requires_host_toolchain(unit));

    let info = ProcMacroInfo::from_unit(unit, None);
    assert!(info.is_some());

    let info = info.unwrap();
    assert_eq!(info.package_name, "my-macro");
    assert_eq!(info.crate_name, "my_macro");
    assert_eq!(info.version, "0.1.0");
    assert_eq!(info.host_platform, "x86_64-unknown-linux-gnu");
    assert!(!info.is_cross_compile);
}

#[test]
fn test_non_proc_macro_returns_none() {
    let json = r#"{
        "version": 1,
        "units": [
            {
                "pkg_id": "my-crate 0.1.0 (path+file:///workspace)",
                "target": {
                    "kind": ["lib"],
                    "crate_types": ["lib"],
                    "name": "my_crate",
                    "src_path": "/workspace/src/lib.rs",
                    "edition": "2021"
                },
                "profile": {"name": "dev", "opt_level": "0"},
                "features": [],
                "mode": "build",
                "dependencies": []
            }
        ],
        "roots": [0]
    }"#;

    let graph = parse_test_unit_graph(json);
    let unit = &graph.units[0];

    assert!(!is_proc_macro_unit(unit));
    assert!(!requires_host_toolchain(unit));

    let info = ProcMacroInfo::from_unit(unit, None);
    assert!(info.is_none());
}

#[test]
fn test_cross_compile_detection() {
    let json = r#"{
        "version": 1,
        "units": [
            {
                "pkg_id": "my-macro 0.1.0 (path+file:///workspace)",
                "target": {
                    "kind": ["proc-macro"],
                    "crate_types": ["proc-macro"],
                    "name": "my_macro",
                    "src_path": "/workspace/src/lib.rs",
                    "edition": "2021"
                },
                "profile": {"name": "dev", "opt_level": "0"},
                "features": [],
                "mode": "build",
                "dependencies": [],
                "platform": "aarch64-apple-darwin"
            }
        ],
        "roots": [0]
    }"#;

    let graph = parse_test_unit_graph(json);
    let unit = &graph.units[0];

    // Not cross-compiling when target matches host
    let info_same = ProcMacroInfo::from_unit(unit, Some("aarch64-apple-darwin"));
    assert!(!info_same.unwrap().is_cross_compile);

    // Cross-compiling when target differs from host
    let info_cross = ProcMacroInfo::from_unit(unit, Some("x86_64-unknown-linux-gnu"));
    assert!(info_cross.unwrap().is_cross_compile);
}

#[test]
fn test_platform_library_extension() {
    assert_eq!(platform_library_extension("x86_64-unknown-linux-gnu"), "so");
    assert_eq!(platform_library_extension("aarch64-apple-darwin"), "dylib");
    assert_eq!(platform_library_extension("x86_64-pc-windows-msvc"), "dll");
    assert_eq!(platform_library_extension("x86_64-unknown-freebsd"), "so");
}

#[test]
fn test_library_filename() {
    let json = r#"{
        "version": 1,
        "units": [
            {
                "pkg_id": "my-macro 0.1.0 (path+file:///workspace)",
                "target": {
                    "kind": ["proc-macro"],
                    "crate_types": ["proc-macro"],
                    "name": "my_macro",
                    "src_path": "/workspace/src/lib.rs",
                    "edition": "2021"
                },
                "profile": {"name": "dev", "opt_level": "0"},
                "features": [],
                "mode": "build",
                "dependencies": [],
                "platform": "x86_64-unknown-linux-gnu"
            }
        ],
        "roots": [0]
    }"#;

    let graph = parse_test_unit_graph(json);
    let unit = &graph.units[0];
    let info = ProcMacroInfo::from_unit(unit, None).unwrap();

    assert_eq!(info.library_filename(), "libmy_macro.so");
}

#[test]
fn test_library_filename_with_hyphen() {
    let json = r#"{
        "version": 1,
        "units": [
            {
                "pkg_id": "my-derive-macro 0.1.0 (path+file:///workspace)",
                "target": {
                    "kind": ["proc-macro"],
                    "crate_types": ["proc-macro"],
                    "name": "my-derive-macro",
                    "src_path": "/workspace/src/lib.rs",
                    "edition": "2021"
                },
                "profile": {"name": "dev", "opt_level": "0"},
                "features": [],
                "mode": "build",
                "dependencies": [],
                "platform": "aarch64-apple-darwin"
            }
        ],
        "roots": [0]
    }"#;

    let graph = parse_test_unit_graph(json);
    let unit = &graph.units[0];
    let info = ProcMacroInfo::from_unit(unit, None).unwrap();

    // Hyphens should be converted to underscores
    assert_eq!(info.library_filename(), "libmy_derive_macro.dylib");
}

#[test]
fn test_proc_macro_extern_expr() {
    let expr = proc_macro_extern_expr("units.\"serde_derive-1.0.0-abc\"", "serde_derive");
    assert!(expr.contains("find"));
    assert!(expr.contains("units.\"serde_derive-1.0.0-abc\""));
    assert!(expr.contains("libserde_derive.*"));
}

#[test]
fn test_proc_macro_config_native() {
    let config = ProcMacroConfig::native();
    assert!(!config.cross_compiling);
    assert_eq!(config.toolchain_var(true), "rustToolchain");
    assert_eq!(config.toolchain_var(false), "rustToolchain");
}

#[test]
fn test_proc_macro_config_cross() {
    let config = ProcMacroConfig::cross("aarch64-apple-darwin", "x86_64-unknown-linux-gnu");
    assert!(config.cross_compiling);
    assert_eq!(
        config.host_platform,
        Some("aarch64-apple-darwin".to_string())
    );
    assert_eq!(
        config.target_platform,
        Some("x86_64-unknown-linux-gnu".to_string())
    );

    // Host units (proc-macros, build scripts) use host toolchain
    assert_eq!(config.toolchain_var(true), "hostRustToolchain");
    // Target units use regular toolchain
    assert_eq!(config.toolchain_var(false), "rustToolchain");
}

#[test]
fn test_build_script_requires_host_toolchain() {
    let json = r#"{
        "version": 1,
        "units": [
            {
                "pkg_id": "my-crate 0.1.0 (path+file:///workspace)",
                "target": {
                    "kind": ["custom-build"],
                    "crate_types": ["bin"],
                    "name": "build-script-build",
                    "src_path": "/workspace/build.rs",
                    "edition": "2021"
                },
                "profile": {"name": "dev", "opt_level": "0"},
                "features": [],
                "mode": "run-custom-build",
                "dependencies": []
            }
        ],
        "roots": [0]
    }"#;

    let graph = parse_test_unit_graph(json);
    let unit = &graph.units[0];

    // Build scripts also require host toolchain
    assert!(requires_host_toolchain(unit));
    assert!(!is_proc_macro_unit(unit));
}
