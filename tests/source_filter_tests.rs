#![allow(dead_code, unused_imports)]

use nix_cargo_unit::source_filter::{
    make_relative, parse_pkg_id, remap_source_path, SourceLocation, SourceType,
};
use nix_cargo_unit::unit_graph::{
    DebugInfo, Dependency, LtoSetting, PanicStrategy, Profile, StripInput, StripSetting, Target, Unit,
    UnitGraph,
};

fn json_strings(v: Option<&serde_json::Value>) -> Vec<String> {
    match v.and_then(|x| x.as_array()) {
        Some(items) => items.iter().map(|s| s.as_str().expect("string").to_string()).collect(),
        None => Vec::new(),
    }
}

fn json_bool(v: Option<&serde_json::Value>, default: bool) -> bool {
    v.and_then(|x| x.as_bool()).unwrap_or(default)
}

fn json_opt_string(v: Option<&serde_json::Value>) -> Option<String> {
    v.and_then(|x| x.as_str()).map(|s| s.to_string())
}

fn lto_from(v: Option<&serde_json::Value>) -> LtoSetting {
    match v {
        None | Some(serde_json::Value::Null) => LtoSetting::Off,
        Some(serde_json::Value::Bool(b)) => LtoSetting::from_json_bool(*b),
        Some(serde_json::Value::String(s)) => LtoSetting::from_json_str(s).expect("lto"),
        Some(other) => panic!("bad lto: {other}"),
    }
}

fn debuginfo_from(v: Option<&serde_json::Value>) -> DebugInfo {
    match v {
        None | Some(serde_json::Value::Null) => DebugInfo::Disabled,
        Some(serde_json::Value::Bool(b)) => DebugInfo::from_json_bool(*b),
        Some(serde_json::Value::Number(n)) => match n.as_u64() {
            Some(u) => DebugInfo::from_json_uint(u),
            None => DebugInfo::from_json_int(n.as_i64().expect("integer")),
        },
        Some(serde_json::Value::String(s)) => DebugInfo::from_json_str(s).expect("debuginfo"),
        Some(other) => panic!("bad debuginfo: {other}"),
    }
}

fn strip_from(v: Option<&serde_json::Value>) -> StripSetting {
    let input = match v {
        None => return StripSetting::Nothing,
        Some(serde_json::Value::Null) => StripInput::Absent,
        Some(serde_json::Value::Bool(b)) => StripInput::Bool(*b),
        Some(serde_json::Value::String(s)) => StripInput::Text(s.clone()),
        Some(serde_json::Value::Object(o)) => match o.get("resolved") {
            Some(serde_json::Value::String(s)) => StripInput::Resolved(s.clone()),
            Some(serde_json::Value::Object(inner)) => match inner.get("Named") {
                Some(serde_json::Value::String(s)) => StripInput::ResolvedNamed(s.clone()),
                _ => StripInput::Other,
            },
            _ => StripInput::Other,
        },
        Some(_) => StripInput::Other,
    };
    StripSetting::from_json(&input).expect("strip")
}

fn profile_from(p: &serde_json::Value) -> Profile {
    Profile {
        name: p["name"].as_str().expect("name").to_string(),
        opt_level: p["opt_level"].as_str().expect("opt_level").to_string(),
        lto: lto_from(p.get("lto")),
        codegen_units: p.get("codegen_units").and_then(|x| x.as_u64()).map(|x| x as u32),
        debuginfo: debuginfo_from(p.get("debuginfo")),
        debug_assertions: json_bool(p.get("debug_assertions"), false),
        overflow_checks: json_bool(p.get("overflow_checks"), false),
        rpath: json_bool(p.get("rpath"), false),
        incremental: json_bool(p.get("incremental"), false),
        panic: match p.get("panic").and_then(|x| x.as_str()) {
            Some(s) => PanicStrategy::from_json_str(s).expect("panic"),
            None => PanicStrategy::Unwind,
        },
        strip: strip_from(p.get("strip")),
        split_debuginfo: json_opt_string(p.get("split_debuginfo")),
    }
}

fn dependency_from(d: &serde_json::Value) -> Dependency {
    Dependency {
        index: d["index"].as_u64().expect("index") as usize,
        extern_crate_name: d["extern_crate_name"].as_str().expect("extern_crate_name").to_string(),
        public: json_bool(d.get("public"), false),
        noprelude: json_bool(d.get("noprelude"), false),
    }
}

fn unit_from(u: &serde_json::Value) -> Unit {
    let t = &u["target"];
    Unit {
        pkg_id: u["pkg_id"].as_str().expect("pkg_id").to_string(),
        target: Target {
            kind: json_strings(t.get("kind")),
            crate_types: json_strings(t.get("crate_types")),
            name: t["name"].as_str().expect("name").to_string(),
            src_path: t["src_path"].as_str().expect("src_path").to_string(),
            edition: t["edition"].as_str().expect("edition").to_string(),
            test: json_bool(t.get("test"), true),
            doctest: json_bool(t.get("doctest"), true),
            doc: json_bool(t.get("doc"), true),
        },
        profile: profile_from(&u["profile"]),
        features: json_strings(u.get("features")),
        mode: u["mode"].as_str().expect("mode").to_string(),
        dependencies: match u.get("dependencies").and_then(|x| x.as_array()) {
            Some(ds) => ds.iter().map(dependency_from).collect(),
            None => Vec::new(),
        },
        platform: json_opt_string(u.get("platform")),
        is_std: json_bool(u.get("is_std"), false),
    }
}

fn parse_test_unit_graph(json: &str) -> UnitGraph {
    let v: serde_json::Value = serde_json::from_str(json).expect("failed to parse");
    UnitGraph {
        version: v["version"].as_u64().expect("version") as u32,
        units: v["units"].as_array().expect("units").iter().map(unit_from).collect(),
        roots: v["roots"].as_array().expect("roots").iter().map(|r| r.as_u64().expect("root") as usize).collect(),
    }
}

fn parse_test_profile(json: &str) -> Profile {
    let v: serde_json::Value = serde_json::from_str(json).expect("failed to parse");
    profile_from(&v)
}

fn parse_test_dependency(json: &str) -> Dependency {
    let v: serde_json::Value = serde_json::from_str(json).expect("failed to parse");
    dependency_from(&v)
}

#[test]
fn test_parse_path_pkg_id() {
    let (name, version, source) =
        parse_pkg_id("my-crate 0.1.0 (path+file:///home/user/project)").unwrap();

    assert_eq!(name, "my-crate");
    assert_eq!(version, "0.1.0");
    assert!(matches!(source, SourceType::Path { path } if path == "/home/user/project"));
}

#[test]
fn test_parse_registry_pkg_id() {
    let (name, version, source) =
        parse_pkg_id("serde 1.0.219 (registry+https://github.com/rust-lang/crates.io-index)")
            .unwrap();

    assert_eq!(name, "serde");
    assert_eq!(version, "1.0.219");
    assert!(matches!(
        source,
        SourceType::Registry { url } if url == "https://github.com/rust-lang/crates.io-index"
    ));
}

#[test]
fn test_parse_registry_pkg_id_new_format() {
    // New cargo format: "source#name@version"
    let (name, version, source) =
        parse_pkg_id("registry+https://github.com/rust-lang/crates.io-index#httparse@1.10.1")
            .unwrap();

    assert_eq!(name, "httparse");
    assert_eq!(version, "1.10.1");
    assert!(matches!(
        source,
        SourceType::Registry { url } if url == "https://github.com/rust-lang/crates.io-index"
    ));
}

#[test]
fn test_parse_path_pkg_id_new_format() {
    // New cargo format for path sources
    let (name, version, source) =
        parse_pkg_id("path+file:///home/user/project#my-crate@0.1.0").unwrap();

    assert_eq!(name, "my-crate");
    assert_eq!(version, "0.1.0");
    assert!(matches!(source, SourceType::Path { path } if path == "/home/user/project"));
}

#[test]
fn test_parse_git_pkg_id() {
    let (name, version, source) =
        parse_pkg_id("dep 0.1.0 (git+https://github.com/user/repo?rev=abc123#abc123def)")
            .unwrap();

    assert_eq!(name, "dep");
    assert_eq!(version, "0.1.0");
    match source {
        SourceType::Git {
            url,
            reference,
            commit,
        } => {
            assert_eq!(url, "https://github.com/user/repo");
            assert_eq!(reference, Some("abc123".to_string()));
            assert_eq!(commit, Some("abc123def".to_string()));
        }
        _ => panic!("expected Git source type"),
    }
}

#[test]
fn test_source_location_from_unit() {
    let json = r#"{
        "version": 1,
        "units": [{
            "pkg_id": "my-crate 0.1.0 (path+file:///home/user/project)",
            "target": {
                "kind": ["lib"],
                "crate_types": ["lib"],
                "name": "my_crate",
                "src_path": "/home/user/project/src/lib.rs",
                "edition": "2021"
            },
            "profile": {"name": "dev", "opt_level": "0"},
            "features": [],
            "mode": "build",
            "dependencies": []
        }],
        "roots": [0]
    }"#;

    let graph = parse_test_unit_graph(json);
    let unit = &graph.units[0];
    let loc = SourceLocation::from_unit(unit).unwrap();

    assert_eq!(loc.name, "my-crate");
    assert_eq!(loc.version, "0.1.0");
    assert_eq!(loc.crate_root, "/home/user/project");
    assert_eq!(loc.entry_point, "src/lib.rs");
    assert!(loc.is_path());
}

#[test]
fn test_source_location_workspace_crate() {
    let json = r#"{
        "version": 1,
        "units": [{
            "pkg_id": "core 0.1.0 (path+file:///workspace/crates/core)",
            "target": {
                "kind": ["lib"],
                "crate_types": ["lib"],
                "name": "core",
                "src_path": "/workspace/crates/core/src/lib.rs",
                "edition": "2024"
            },
            "profile": {"name": "dev", "opt_level": "0"},
            "features": [],
            "mode": "build",
            "dependencies": []
        }],
        "roots": [0]
    }"#;

    let graph = parse_test_unit_graph(json);
    let unit = &graph.units[0];
    let loc = SourceLocation::from_unit(unit).unwrap();

    assert_eq!(loc.crate_root, "/workspace/crates/core");
    assert_eq!(loc.entry_point, "src/lib.rs");
}

#[test]
fn test_source_location_bin() {
    let json = r#"{
        "version": 1,
        "units": [{
            "pkg_id": "my-app 0.1.0 (path+file:///home/user/project)",
            "target": {
                "kind": ["bin"],
                "crate_types": ["bin"],
                "name": "my-app",
                "src_path": "/home/user/project/src/main.rs",
                "edition": "2021"
            },
            "profile": {"name": "release", "opt_level": "3"},
            "features": ["default"],
            "mode": "build",
            "dependencies": []
        }],
        "roots": [0]
    }"#;

    let graph = parse_test_unit_graph(json);
    let unit = &graph.units[0];
    let loc = SourceLocation::from_unit(unit).unwrap();

    assert_eq!(loc.entry_point, "src/main.rs");
}

#[test]
fn test_make_relative() {
    assert_eq!(
        make_relative("/workspace", "/workspace/crates/foo/src/lib.rs"),
        Some("crates/foo/src/lib.rs".to_string())
    );

    assert_eq!(
        make_relative("/workspace", "/other/path/file.rs"),
        None // Not within workspace
    );
}

#[test]
fn test_remap_source_path() {
    let remapped = remap_source_path("/workspace/crates/foo/src/lib.rs", "/workspace", "src");

    assert_eq!(remapped, "${src}/crates/foo/src/lib.rs");
}

#[test]
fn test_nix_fileset_generation() {
    let json = r#"{
        "version": 1,
        "units": [{
            "pkg_id": "my-crate 0.1.0 (path+file:///home/user/project)",
            "target": {
                "kind": ["lib"],
                "crate_types": ["lib"],
                "name": "my_crate",
                "src_path": "/home/user/project/src/lib.rs",
                "edition": "2021"
            },
            "profile": {"name": "dev", "opt_level": "0"},
            "features": [],
            "mode": "build",
            "dependencies": []
        }],
        "roots": [0]
    }"#;

    let graph = parse_test_unit_graph(json);
    let unit = &graph.units[0];
    let loc = SourceLocation::from_unit(unit).unwrap();

    let fileset = loc.to_nix_fileset("src", true);
    assert!(fileset.contains("lib.fileset.toSource"));
    assert!(fileset.contains("lib.fileset.unions"));
}

#[test]
fn test_registry_source_detection() {
    let json = r#"{
        "version": 1,
        "units": [{
            "pkg_id": "serde 1.0.219 (registry+https://github.com/rust-lang/crates.io-index)",
            "target": {
                "kind": ["lib"],
                "crate_types": ["lib"],
                "name": "serde",
                "src_path": "/home/user/.cargo/registry/src/index.crates.io-1234/serde-1.0.219/src/lib.rs",
                "edition": "2021"
            },
            "profile": {"name": "dev", "opt_level": "0"},
            "features": ["default", "std"],
            "mode": "build",
            "dependencies": []
        }],
        "roots": [0]
    }"#;

    let graph = parse_test_unit_graph(json);
    let unit = &graph.units[0];
    let loc = SourceLocation::from_unit(unit).unwrap();

    assert!(loc.is_registry());
    assert!(!loc.is_path());
    assert_eq!(loc.entry_point, "src/lib.rs");
    assert!(loc.crate_root.ends_with("serde-1.0.219"));
}

#[test]
fn test_source_type_predicates() {
    let path_loc = SourceLocation {
        name: "test".to_string(),
        version: "0.1.0".to_string(),
        source: SourceType::Path {
            path: "/test".to_string(),
        },
        entry_point: "src/lib.rs".to_string(),
        crate_root: "/test".to_string(),
    };

    assert!(path_loc.is_path());
    assert!(!path_loc.is_registry());
    assert!(!path_loc.is_git());

    let registry_loc = SourceLocation {
        name: "test".to_string(),
        version: "0.1.0".to_string(),
        source: SourceType::Registry {
            url: "https://crates.io".to_string(),
        },
        entry_point: "src/lib.rs".to_string(),
        crate_root: "/test".to_string(),
    };

    assert!(!registry_loc.is_path());
    assert!(registry_loc.is_registry());
    assert!(!registry_loc.is_git());

    let git_loc = SourceLocation {
        name: "test".to_string(),
        version: "0.1.0".to_string(),
        source: SourceType::Git {
            url: "https://github.com/test/repo".to_string(),
            reference: None,
            commit: Some("abc123".to_string()),
        },
        entry_point: "src/lib.rs".to_string(),
        crate_root: "/test".to_string(),
    };

    assert!(!git_loc.is_path());
    assert!(!git_loc.is_registry());
    assert!(git_loc.is_git());
}
