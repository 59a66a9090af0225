#![allow(dead_code, unused_imports)]

use nix_cargo_unit::rustc_flags::RustcFlags;
use nix_cargo_unit::unit_graph::{
    DebugInfo, Dependency, LtoSetting, PanicStrategy, Profile, StripInput, StripSetting, Target, Unit,
    UnitGraph,
};

fn json_strings(v: Option<&serde_json::Value>) -> Vec<String> {
    match v.and_then(|x| x.as_array()) {
        Some(items) => items.iter().map(|s| s.as_str().expect("string").to_string()).collect(),
        None => Vec::new(),
    }
}

fn json_bool(v: Option<&serde_json::Value>, default: bool) -> bool {
    v.and_then(|x| x.as_bool()).unwrap_or(default)
}

fn json_opt_string(v: Option<&serde_json::Value>) -> Option<String> {
    v.and_then(|x| x.as_str()).map(|s| s.to_string())
}

fn lto_from(v: Option<&serde_json::Value>) -> LtoSetting {
    match v {
        None | Some(serde_json::Value::Null) => LtoSetting::Off,
        Some(serde_json::Value::Bool(b)) => LtoSetting::from_json_bool(*b),
        Some(serde_json::Value::String(s)) => LtoSetting::from_json_str(s).expect("lto"),
        Some(other) => panic!("bad lto: {other}"),
    }
}

fn debuginfo_from(v: Option<&serde_json::Value>) -> DebugInfo {
    match v {
        None | Some(serde_json::Value::Null) => DebugInfo::Disabled,
        Some(serde_json::Value::Bool(b)) => DebugInfo::from_json_bool(*b),
        Some(serde_json::Value::Number(n)) => match n.as_u64() {
            Some(u) => DebugInfo::from_json_uint(u),
            None => DebugInfo::from_json_int(n.as_i64().expect("integer")),
        },
        Some(serde_json::Value::String(s)) => DebugInfo::from_json_str(s).expect("debuginfo"),
        Some(other) => panic!("bad debuginfo: {other}"),
    }
}

fn strip_from(v: Option<&serde_json::Value>) -> StripSetting {
    let input = match v {
        None => return StripSetting::Nothing,
        Some(serde_json::Value::Null) => StripInput::Absent,
        Some(serde_json::Value::Bool(b)) => StripInput::Bool(*b),
        Some(serde_json::Value::String(s)) => StripInput::Text(s.clone()),
        Some(serde_json::Value::Object(o)) => match o.get("resolved") {
            Some(serde_json::Value::String(s)) => StripInput::Resolved(s.clone()),
            Some(serde_json::Value::Object(inner)) => match inner.get("Named") {
                Some(serde_json::Value::String(s)) => StripInput::ResolvedNamed(s.clone()),
                _ => StripInput::Other,
            },
            _ => StripInput::Other,
        },
        Some(_) => StripInput::Other,
    };
    StripSetting::from_json(&input).expect("strip")
}

fn profile_from(p: &serde_json::Value) -> Profile {
    Profile {
        name: p["name"].as_str().expect("name").to_string(),
        opt_level: p["opt_level"].as_str().expect("opt_level").to_string(),
        lto: lto_from(p.get("lto")),
        codegen_units: p.get("codegen_units").and_then(|x| x.as_u64()).map(|x| x as u32),
        debuginfo: debuginfo_from(p.get("debuginfo")),
        debug_assertions: json_bool(p.get("debug_assertions"), false),
        overflow_checks: json_bool(p.get("overflow_checks"), false),
        rpath: json_bool(p.get("rpath"), false),
        incremental: json_bool(p.get("incremental"), false),
        panic: match p.get("panic").and_then(|x| x.as_str()) {
            Some(s) => PanicStrategy::from_json_str(s).expect("panic"),
            None => PanicStrategy::Unwind,
        },
        strip: strip_from(p.get("strip")),
        split_debuginfo: json_opt_string(p.get("split_debuginfo")),
    }
}

fn dependency_from(d: &serde_json::Value) -> Dependency {
    Dependency {
        index: d["index"].as_u64().expect("index") as usize,
        extern_crate_name: d["extern_crate_name"].as_str().expect("extern_crate_name").to_string(),
        public: json_bool(d.get("public"), false),
        noprelude: json_bool(d.get("noprelude"), false),
    }
}

fn unit_from(u: &serde_json::Value) -> Unit {
    let t = &u["target"];
    Unit {
        pkg_id: u["pkg_id"].as_str().expect("pkg_id").to_string(),
        target: Target {
            kind: json_strings(t.get("kind")),
            crate_types: json_strings(t.get("crate_types")),
            name: t["name"].as_str().expect("name").to_string(),
            src_path: t["src_path"].as_str().expect("src_path").to_string(),
            edition: t["edition"].as_str().expect("edition").to_string(),
            test: json_bool(t.get("test"), true),
            doctest: json_bool(t.get("doctest"), true),
            doc: json_bool(t.get("doc"), true),
        },
        profile: profile_from(&u["profile"]),
        features: json_strings(u.get("features")),
        mode: u["mode"].as_str().expect("mode").to_string(),
        dependencies: match u.get("dependencies").and_then(|x| x.as_array()) {
            Some(ds) => ds.iter().map(dependency_from).collect(),
            None => Vec::new(),
        },
        platform: json_opt_string(u.get("platform")),
        is_std: json_bool(u.get("is_std"), false),
    }
}

fn parse_test_unit_graph(json: &str) -> UnitGraph {
    let v: serde_json::Value = serde_json::from_str(json).expect("failed to parse");
    UnitGraph {
        version: v["version"].as_u64().expect("version") as u32,
        units: v["units"].as_array().expect("units").iter().map(unit_from).collect(),
        roots: v["roots"].as_array().expect("roots").iter().map(|r| r.as_u64().expect("root") as usize).collect(),
    }
}

fn parse_test_profile(json: &str) -> Profile {
    let v: serde_json::Value = serde_json::from_str(json).expect("failed to parse");
    profile_from(&v)
}

fn parse_test_dependency(json: &str) -> Dependency {
    let v: serde_json::Value = serde_json::from_str(json).expect("failed to parse");
    dependency_from(&v)
}

#[test]
fn test_basic_lib_flags() {
    let json = r#"{
        "version": 1,
        "units": [{
            "pkg_id": "my-crate 0.1.0 (path+file:///test)",
            "target": {
                "kind": ["lib"],
                "crate_types": ["lib"],
                "name": "my_crate",
                "src_path": "/test/src/lib.rs",
                "edition": "2021"
            },
            "profile": {
                "name": "dev",
                "opt_level": "0"
            },
            "features": ["std", "alloc"],
            "mode": "build",
            "dependencies": []
        }],
        "roots": [0]
    }"#;

    let graph = parse_test_unit_graph(json);
    let unit = &graph.units[0];
    let flags = RustcFlags::from_unit(unit);
    let args = flags.args();

    // Check crate name
    assert!(args.contains(&"--crate-name".to_string()));
    let name_idx = args.iter().position(|a| a == "--crate-name").unwrap();
    assert_eq!(args[name_idx + 1], "my_crate");

    // Check edition
    assert!(args.contains(&"--edition".to_string()));
    let ed_idx = args.iter().position(|a| a == "--edition").unwrap();
    assert_eq!(args[ed_idx + 1], "2021");

    // Check crate type
    assert!(args.contains(&"--crate-type".to_string()));
    let ct_idx = args.iter().position(|a| a == "--crate-type").unwrap();
    assert_eq!(args[ct_idx + 1], "lib");

    // Check features
    assert!(args.contains(&"--cfg".to_string()));
    assert!(args.contains(&"feature=\"std\"".to_string()));
    assert!(args.contains(&"feature=\"alloc\"".to_string()));

    // Check opt-level
    assert!(args.contains(&"opt-level=0".to_string()));
}

#[test]
fn test_release_profile_flags() {
    let json = r#"{
        "version": 1,
        "units": [{
            "pkg_id": "test 0.1.0 (path+file:///test)",
            "target": {
                "kind": ["lib"],
                "crate_types": ["lib"],
                "name": "test",
                "src_path": "/test/src/lib.rs",
                "edition": "2021"
            },
            "profile": {
                "name": "release",
                "opt_level": "3",
                "lto": "thin",
                "debuginfo": 0,
                "debug_assertions": false,
                "overflow_checks": false,
                "panic": "abort",
                "strip": "symbols",
                "codegen_units": 16
            },
            "features": [],
            "mode": "build",
            "dependencies": []
        }],
        "roots": [0]
    }"#;

    let graph = parse_test_unit_graph(json);
    let unit = &graph.units[0];
    let flags = RustcFlags::from_unit(unit);
    let args = flags.args();

    assert!(args.contains(&"opt-level=3".to_string()));
    assert!(args.contains(&"lto=thin".to_string()));
    assert!(args.contains(&"debuginfo=0".to_string()));
    assert!(args.contains(&"debug-assertions=no".to_string()));
    assert!(args.contains(&"overflow-checks=no".to_string()));
    assert!(args.contains(&"panic=abort".to_string()));
    assert!(args.contains(&"strip=symbols".to_string()));
    assert!(args.contains(&"codegen-units=16".to_string()));
}

#[test]
fn test_multiple_crate_types() {
    let json = r#"{
        "version": 1,
        "units": [{
            "pkg_id": "test 0.1.0 (path+file:///test)",
            "target": {
                "kind": ["lib"],
                "crate_types": ["lib", "cdylib"],
                "name": "test",
                "src_path": "/test/src/lib.rs",
                "edition": "2021"
            },
            "profile": {"name": "dev", "opt_level": "0"},
            "features": [],
            "mode": "build",
            "dependencies": []
        }],
        "roots": [0]
    }"#;

    let graph = parse_test_unit_graph(json);
    let unit = &graph.units[0];
    let flags = RustcFlags::from_unit(unit);
    let shell = flags.to_shell_string();

    // Should have both crate types
    assert!(shell.contains("--crate-type lib"));
    assert!(shell.contains("--crate-type cdylib"));
}

#[test]
fn test_test_mode() {
    let json = r#"{
        "version": 1,
        "units": [{
            "pkg_id": "test 0.1.0 (path+file:///test)",
            "target": {
                "kind": ["lib"],
                "crate_types": ["lib"],
                "name": "test",
                "src_path": "/test/src/lib.rs",
                "edition": "2021"
            },
            "profile": {"name": "dev", "opt_level": "0"},
            "features": [],
            "mode": "test",
            "dependencies": []
        }],
        "roots": [0]
    }"#;

    let graph = parse_test_unit_graph(json);
    let unit = &graph.units[0];
    let flags = RustcFlags::from_unit(unit);
    let args = flags.args();

    assert!(args.contains(&"--test".to_string()));
}

#[test]
fn test_extern_and_lib_path() {
    let mut flags = RustcFlags::new();
    flags.add_extern("serde", "/nix/store/abc123/lib/libserde.rlib");
    flags.add_lib_path("/nix/store/abc123/lib");

    let args = flags.args();
    assert!(args.contains(&"--extern".to_string()));
    assert!(args.contains(&"serde=/nix/store/abc123/lib/libserde.rlib".to_string()));
    assert!(args.contains(&"-L".to_string()));
    assert!(args.contains(&"dependency=/nix/store/abc123/lib".to_string()));
}

#[test]
fn test_shell_string_escaping() {
    let mut flags = RustcFlags::new();
    flags.push_arg("--cfg");
    flags.push_arg("feature=\"with spaces\"");

    let shell = flags.to_shell_string();
    // Should be quoted due to spaces
    assert!(shell.contains("'feature=\"with spaces\"'"));
}

#[test]
fn test_to_shell_string() {
    let json = r#"{
        "version": 1,
        "units": [{
            "pkg_id": "test 0.1.0 (path+file:///test)",
            "target": {
                "kind": ["bin"],
                "crate_types": ["bin"],
                "name": "test",
                "src_path": "/test/src/main.rs",
                "edition": "2024"
            },
            "profile": {"name": "dev", "opt_level": "0"},
            "features": ["default"],
            "mode": "build",
            "dependencies": []
        }],
        "roots": [0]
    }"#;

    let graph = parse_test_unit_graph(json);
    let unit = &graph.units[0];
    let flags = RustcFlags::from_unit(unit);
    let shell = flags.to_shell_string();

    assert!(shell.contains("--crate-name test"));
    assert!(shell.contains("--edition 2024"));
    assert!(shell.contains("--crate-type bin"));
    assert!(shell.contains("--cfg 'feature=\"default\"'"));
}

#[test]
fn test_proc_macro_crate_type() {
    let json = r#"{
        "version": 1,
        "units": [{
            "pkg_id": "my-macro 0.1.0 (path+file:///test)",
            "target": {
                "kind": ["proc-macro"],
                "crate_types": ["proc-macro"],
                "name": "my_macro",
                "src_path": "/test/src/lib.rs",
                "edition": "2021"
            },
            "profile": {"name": "dev", "opt_level": "0"},
            "features": [],
            "mode": "build",
            "dependencies": [],
            "platform": "aarch64-apple-darwin"
        }],
        "roots": [0]
    }"#;

    let graph = parse_test_unit_graph(json);
    let unit = &graph.units[0];
    let flags = RustcFlags::from_unit(unit);
    let args = flags.args();

    // Check proc-macro crate type
    let ct_idx = args.iter().position(|a| a == "--crate-type").unwrap();
    assert_eq!(args[ct_idx + 1], "proc-macro");
}
