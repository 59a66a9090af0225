#![allow(dead_code, unused_imports)]

use nix_cargo_unit::nix_gen::{
    escape_nix_multiline, escape_nix_string, BuildScriptRef, DepRef, NixAttrSet, NixGenConfig,
    NixGenerator, NixString, UnitDerivation,
};
use nix_cargo_unit::rustc_flags::RustcFlags;
use nix_cargo_unit::unit_graph::{
    DebugInfo, Dependency, LtoSetting, PanicStrategy, Profile, StripInput, StripSetting, Target, Unit,
    UnitGraph,
};

fn json_strings(v: Option<&serde_json::Value>) -> Vec<String> {
    match v.and_then(|x| x.as_array()) {
        Some(items) => items.iter().map(|s| s.as_str().expect("string").to_string()).collect(),
        None => Vec::new(),
    }
}

fn json_bool(v: Option<&serde_json::Value>, default: bool) -> bool {
    v.and_then(|x| x.as_bool()).unwrap_or(default)
}

fn json_opt_string(v: Option<&serde_json::Value>) -> Option<String> {
    v.and_then(|x| x.as_str()).map(|s| s.to_string())
}

fn lto_from(v: Option<&serde_json::Value>) -> LtoSetting {
    match v {
        None | Some(serde_json::Value::Null) => LtoSetting::Off,
        Some(serde_json::Value::Bool(b)) => LtoSetting::from_json_bool(*b),
        Some(serde_json::Value::String(s)) => LtoSetting::from_json_str(s).expect("lto"),
        Some(other) => panic!("bad lto: {other}"),
    }
}

fn debuginfo_from(v: Option<&serde_json::Value>) -> DebugInfo {
    match v {
        None | Some(serde_json::Value::Null) => DebugInfo::Disabled,
        Some(serde_json::Value::Bool(b)) => DebugInfo::from_json_bool(*b),
        Some(serde_json::Value::Number(n)) => match n.as_u64() {
            Some(u) => DebugInfo::from_json_uint(u),
            None => DebugInfo::from_json_int(n.as_i64().expect("integer")),
        },
        Some(serde_json::Value::String(s)) => DebugInfo::from_json_str(s).expect("debuginfo"),
        Some(other) => panic!("bad debuginfo: {other}"),
    }
}

fn strip_from(v: Option<&serde_json::Value>) -> StripSetting {
    let input = match v {
        None => return StripSetting::Nothing,
        Some(serde_json::Value::Null) => StripInput::Absent,
        Some(serde_json::Value::Bool(b)) => StripInput::Bool(*b),
        Some(serde_json::Value::String(s)) => StripInput::Text(s.clone()),
        Some(serde_json::Value::Object(o)) => match o.get("resolved") {
            Some(serde_json::Value::String(s)) => StripInput::Resolved(s.clone()),
            Some(serde_json::Value::Object(inner)) => match inner.get("Named") {
                Some(serde_json::Value::String(s)) => StripInput::ResolvedNamed(s.clone()),
                _ => StripInput::Other,
            },
            _ => StripInput::Other,
        },
        Some(_) => StripInput::Other,
    };
    StripSetting::from_json(&input).expect("strip")
}

fn profile_from(p: &serde_json::Value) -> Profile {
    Profile {
        name: p["name"].as_str().expect("name").to_string(),
        opt_level: p["opt_level"].as_str().expect("opt_level").to_string(),
        lto: lto_from(p.get("lto")),
        codegen_units: p.get("codegen_units").and_then(|x| x.as_u64()).map(|x| x as u32),
        debuginfo: debuginfo_from(p.get("debuginfo")),
        debug_assertions: json_bool(p.get("debug_assertions"), false),
        overflow_checks: json_bool(p.get("overflow_checks"), false),
        rpath: json_bool(p.get("rpath"), false),
        incremental: json_bool(p.get("incremental"), false),
        panic: match p.get("panic").and_then(|x| x.as_str()) {
            Some(s) => PanicStrategy::from_json_str(s).expect("panic"),
            None => PanicStrategy::Unwind,
        },
        strip: strip_from(p.get("strip")),
        split_debuginfo: json_opt_string(p.get("split_debuginfo")),
    }
}

fn dependency_from(d: &serde_json::Value) -> Dependency {
    Dependency {
        index: d["index"].as_u64().expect("index") as usize,
        extern_crate_name: d["extern_crate_name"].as_str().expect("extern_crate_name").to_string(),
        public: json_bool(d.get("public"), false),
        noprelude: json_bool(d.get("noprelude"), false),
    }
}

fn unit_from(u: &serde_json::Value) -> Unit {
    let t = &u["target"];
    Unit {
        pkg_id: u["pkg_id"].as_str().expect("pkg_id").to_string(),
        target: Target {
            kind: json_strings(t.get("kind")),
            crate_types: json_strings(t.get("crate_types")),
            name: t["name"].as_str().expect("name").to_string(),
            src_path: t["src_path"].as_str().expect("src_path").to_string(),
            edition: t["edition"].as_str().expect("edition").to_string(),
            test: json_bool(t.get("test"), true),
            doctest: json_bool(t.get("doctest"), true),
            doc: json_bool(t.get("doc"), true),
        },
        profile: profile_from(&u["profile"]),
        features: json_strings(u.get("features")),
        mode: u["mode"].as_str().expect("mode").to_string(),
        dependencies: match u.get("dependencies").and_then(|x| x.as_array()) {
            Some(ds) => ds.iter().map(dependency_from).collect(),
            None => Vec::new(),
        },
        platform: json_opt_string(u.get("platform")),
        is_std: json_bool(u.get("is_std"), false),
    }
}

fn parse_test_unit_graph(json: &str) -> UnitGraph {
    let v: serde_json::Value = serde_json::from_str(json).expect("failed to parse");
    UnitGraph {
        version: v["version"].as_u64().expect("version") as u32,
        units: v["units"].as_array().expect("units").iter().map(unit_from).collect(),
        roots: v["roots"].as_array().expect("roots").iter().map(|r| r.as_u64().expect("root") as usize).collect(),
    }
}

fn parse_test_profile(json: &str) -> Profile {
    let v: serde_json::Value = serde_json::from_str(json).expect("failed to parse");
    profile_from(&v)
}

fn parse_test_dependency(json: &str) -> Dependency {
    let v: serde_json::Value = serde_json::from_str(json).expect("failed to parse");
    dependency_from(&v)
}

#[test]
fn test_escape_nix_string() {
    assert_eq!(escape_nix_string("hello"), "hello");
    assert_eq!(escape_nix_string("hello\"world"), "hello\\\"world");
    assert_eq!(escape_nix_string("path\\to"), "path\\\\to");
    assert_eq!(escape_nix_string("${var}"), "\\${var}");
    assert_eq!(escape_nix_string("line\nbreak"), "line\\nbreak");
}

#[test]
fn test_escape_nix_multiline() {
    assert_eq!(escape_nix_multiline("hello"), "hello");
    assert_eq!(escape_nix_multiline("end ''"), "end '''");
    assert_eq!(escape_nix_multiline("${var}"), "''${var}");
}

#[test]
fn test_nix_string_escaping() {
    let s = NixString::new("hello \"world\"");
    assert_eq!(s.as_str(), "hello \\\"world\\\"");

    let raw = NixString::raw("pkgs.hello");
    assert_eq!(raw.as_str(), "pkgs.hello");
}

#[test]
fn test_nix_attr_set() {
    let mut attrs = NixAttrSet::new();
    attrs.string("pname", "my-crate");
    attrs.string("version", "0.1.0");
    attrs.bool("dontUnpack", true);
    attrs.integer("priority", 10);
    attrs.string_list("features", &vec!["std".to_string(), "alloc".to_string()]);

    let rendered = attrs.render(0);

    assert!(rendered.contains("pname = \"my-crate\""));
    assert!(rendered.contains("version = \"0.1.0\""));
    assert!(rendered.contains("dontUnpack = true"));
    assert!(rendered.contains("priority = 10"));
    assert!(rendered.contains("features = [ \"std\" \"alloc\" ]"));
}

#[test]
fn test_unit_derivation_from_unit() {
    let json = r#"{
        "version": 1,
        "units": [{
            "pkg_id": "my-crate 0.1.0 (path+file:///workspace/crates/my-crate)",
            "target": {
                "kind": ["lib"],
                "crate_types": ["lib"],
                "name": "my_crate",
                "src_path": "/workspace/crates/my-crate/src/lib.rs",
                "edition": "2021"
            },
            "profile": {"name": "dev", "opt_level": "0"},
            "features": ["default", "std"],
            "mode": "build",
            "dependencies": []
        }],
        "roots": [0]
    }"#;

    let graph = parse_test_unit_graph(json);
    let unit = &graph.units[0];
    let identity_hash = unit.identity_hash();
    let drv_name = unit.derivation_name();

    let drv = UnitDerivation::from_unit(
        unit,
        "/workspace",
        false,
        "rustToolchain",
        &drv_name,
        &identity_hash,
        false, // not an external dep (path source)
    );

    assert_eq!(drv.pname, "my_crate");
    assert_eq!(drv.version, "0.1.0");
    assert_eq!(drv.edition, "2021");
    assert_eq!(drv.features, vec!["default", "std"]);
    assert!(drv.src_path.contains("${src}"));
    assert_eq!(drv.toolchain_var, "rustToolchain");
}

#[test]
fn test_nix_generator_simple() {
    let json = r#"{
        "version": 1,
        "units": [{
            "pkg_id": "test 0.1.0 (path+file:///workspace)",
            "target": {
                "kind": ["lib"],
                "crate_types": ["lib"],
                "name": "test",
                "src_path": "/workspace/src/lib.rs",
                "edition": "2024"
            },
            "profile": {"name": "dev", "opt_level": "0"},
            "features": [],
            "mode": "build",
            "dependencies": []
        }],
        "roots": [0]
    }"#;

    let graph = parse_test_unit_graph(json);
    let config = NixGenConfig {
        workspace_root: "/workspace".to_string(),
        content_addressed: false,
        ..Default::default()
    };

    let generator = NixGenerator::new(config);
    let nix = generator.generate(&graph).unwrap();

    // Check structure
    assert!(nix.contains("{ pkgs, rustToolchain, hostRustToolchain ? rustToolchain, src, extraNativeBuildInputs ? [], vendorDir ? null }:"));
    assert!(nix.contains("mkUnit = attrs:"));
    assert!(nix.contains("units = {"));
    assert!(nix.contains("roots = ["));
    assert!(nix.contains("default ="));

    // Check derivation content
    assert!(nix.contains("pname = \"test\""));
    assert!(nix.contains("version = \"0.1.0\""));
    assert!(nix.contains("--edition"));
    assert!(nix.contains("2024"));
}

#[test]
fn test_nix_generator_with_deps() {
    let json = r#"{
        "version": 1,
        "units": [
            {
                "pkg_id": "dep 0.1.0 (path+file:///workspace/dep)",
                "target": {
                    "kind": ["lib"],
                    "crate_types": ["lib"],
                    "name": "dep",
                    "src_path": "/workspace/dep/src/lib.rs",
                    "edition": "2021"
                },
                "profile": {"name": "dev", "opt_level": "0"},
                "features": [],
                "mode": "build",
                "dependencies": []
            },
            {
                "pkg_id": "app 0.1.0 (path+file:///workspace/app)",
                "target": {
                    "kind": ["bin"],
                    "crate_types": ["bin"],
                    "name": "app",
                    "src_path": "/workspace/app/src/main.rs",
                    "edition": "2021"
                },
                "profile": {"name": "dev", "opt_level": "0"},
                "features": [],
                "mode": "build",
                "dependencies": [
                    {"index": 0, "extern_crate_name": "dep", "public": false}
                ]
            }
        ],
        "roots": [1]
    }"#;

    let graph = parse_test_unit_graph(json);
    let config = NixGenConfig {
        workspace_root: "/workspace".to_string(),
        content_addressed: false,
        ..Default::default()
    };

    let generator = NixGenerator::new(config);
    let nix = generator.generate(&graph).unwrap();

    // Should have both units
    assert!(nix.contains("pname = \"dep\""));
    assert!(nix.contains("pname = \"app\""));

    // Should have bin output in installPhase
    assert!(nix.contains("cp build/app $out/bin/"));

    // Should have --extern flag for dependency (with identity hash in filename)
    assert!(nix.contains("--extern"));
    assert!(nix.contains("dep="));
    // Library files include identity hash: libdep-{hash}.rlib
    assert!(nix.contains("/lib/libdep-") && nix.contains(".rlib"));

    // -L flags are NOT added for direct deps (they're covered by --extern with explicit path)
    // This test only has one direct dep, so no -L flags are generated
}

#[test]
fn test_extern_crate_wiring() {
    let json = r#"{
        "version": 1,
        "units": [
            {
                "pkg_id": "serde 1.0.0 (registry+https://github.com/rust-lang/crates.io-index)",
                "target": {
                    "kind": ["lib"],
                    "crate_types": ["lib"],
                    "name": "serde",
                    "src_path": "/registry/serde/src/lib.rs",
                    "edition": "2021"
                },
                "profile": {"name": "dev", "opt_level": "0"},
                "features": ["default", "std"],
                "mode": "build",
                "dependencies": []
            },
            {
                "pkg_id": "serde_derive 1.0.0 (registry+https://github.com/rust-lang/crates.io-index)",
                "target": {
                    "kind": ["proc-macro"],
                    "crate_types": ["proc-macro"],
                    "name": "serde_derive",
                    "src_path": "/registry/serde_derive/src/lib.rs",
                    "edition": "2021"
                },
                "profile": {"name": "dev", "opt_level": "0"},
                "features": [],
                "mode": "build",
                "dependencies": [],
                "platform": "aarch64-apple-darwin"
            },
            {
                "pkg_id": "my_app 0.1.0 (path+file:///workspace)",
                "target": {
                    "kind": ["bin"],
                    "crate_types": ["bin"],
                    "name": "my_app",
                    "src_path": "/workspace/src/main.rs",
                    "edition": "2024"
                },
                "profile": {"name": "dev", "opt_level": "0"},
                "features": [],
                "mode": "build",
                "dependencies": [
                    {"index": 0, "extern_crate_name": "serde", "public": false},
                    {"index": 1, "extern_crate_name": "serde_derive", "public": false}
                ]
            }
        ],
        "roots": [2]
    }"#;

    let graph = parse_test_unit_graph(json);
    let config = NixGenConfig {
        workspace_root: "/workspace".to_string(),
        content_addressed: false,
        ..Default::default()
    };

    let generator = NixGenerator::new(config);
    let nix = generator.generate(&graph).unwrap();

    // Should have all three units
    assert!(nix.contains("pname = \"serde\""));
    assert!(nix.contains("pname = \"serde_derive\""));
    assert!(nix.contains("pname = \"my_app\""));

    // my_app should have buildInputs with both dependencies
    assert!(nix.contains("buildInputs = ["));

    // Should have --extern flags for both dependencies
    assert!(nix.contains("serde="));
    assert!(nix.contains("serde_derive="));

    // Regular lib dep should use .rlib (with identity hash in filename)
    assert!(nix.contains("libserde-") && nix.contains(".rlib"));

    // Proc-macro dep should use variable with platform fallback
    // Should have variable setup: PROCMACRO_SERDE_DERIVE="...dylib"
    assert!(nix.contains("PROCMACRO_SERDE_DERIVE="));
    // Should have .dylib and .so fallback
    assert!(nix.contains("libserde_derive-") && nix.contains(".dylib"));
    assert!(nix.contains("libserde_derive-") && nix.contains(".so"));
    // Should use the variable in --extern: serde_derive="$PROCMACRO_SERDE_DERIVE"
    assert!(nix.contains("serde_derive=\"$PROCMACRO_SERDE_DERIVE\""));
}

#[test]
fn test_dep_ref_in_build_inputs() {
    let mut drv = UnitDerivation {
        name: "test-0.1.0-abc123".to_string(),
        pname: "test".to_string(),
        version: "0.1.0".to_string(),
        edition: "2024".to_string(),
        crate_types: vec!["lib".to_string()],
        src_path: "${src}/src/lib.rs".to_string(),
        features: vec![],
        opt_level: "0".to_string(),
        is_test: false,
        is_proc_macro: false,
        deps: vec![],
        lib_search_deps: vec![],
        build_script_ref: None,
        rustc_flags: RustcFlags::new(),
        content_addressed: false,
        toolchain_var: "rustToolchain".to_string(),
    };

    // Add a dependency
    drv.add_dep(DepRef {
        nix_var: "units.\"dep-0.1.0-xyz789\"".to_string(),
        extern_crate_name: "dep".to_string(),
        lib_name: "dep".to_string(),
        identity_hash: "xyz789".to_string(),
        derivation_name: "dep-0.1.0-xyz789".to_string(),
        is_proc_macro: false,
    });

    let nix = drv.to_nix();

    // Should have the dependency in buildInputs
    assert!(nix.contains("buildInputs = [ units.\"dep-0.1.0-xyz789\" ]"));
}

#[test]
fn test_multiline_build_phase() {
    let json = r#"{
        "version": 1,
        "units": [{
            "pkg_id": "test 0.1.0 (path+file:///workspace)",
            "target": {
                "kind": ["lib"],
                "crate_types": ["lib"],
                "name": "test",
                "src_path": "/workspace/src/lib.rs",
                "edition": "2021"
            },
            "profile": {"name": "release", "opt_level": "3", "lto": "thin"},
            "features": ["std", "derive"],
            "mode": "build",
            "dependencies": []
        }],
        "roots": [0]
    }"#;

    let graph = parse_test_unit_graph(json);
    let unit = &graph.units[0];
    let identity_hash = unit.identity_hash();
    let drv_name = unit.derivation_name();

    let drv = UnitDerivation::from_unit(
        unit,
        "/workspace",
        false,
        "rustToolchain",
        &drv_name,
        &identity_hash,
        false, // not an external dep
    );
    let build_phase = drv.generate_build_phase();

    // Check for proper flag formatting
    assert!(build_phase.contains("--crate-name"));
    assert!(build_phase.contains("test"));
    assert!(build_phase.contains("--edition"));
    assert!(build_phase.contains("2021"));
    assert!(build_phase.contains("opt-level=3"));
    assert!(build_phase.contains("lto=thin"));
    assert!(
        build_phase.contains("feature=\\\"std\\\"") || build_phase.contains("feature=\"std\"")
    );
}

#[test]
fn test_content_addressed_derivation() {
    let json = r#"{
        "version": 1,
        "units": [{
            "pkg_id": "test 0.1.0 (path+file:///workspace)",
            "target": {
                "kind": ["lib"],
                "crate_types": ["lib"],
                "name": "test",
                "src_path": "/workspace/src/lib.rs",
                "edition": "2021"
            },
            "profile": {"name": "dev", "opt_level": "0"},
            "features": [],
            "mode": "build",
            "dependencies": []
        }],
        "roots": [0]
    }"#;

    let graph = parse_test_unit_graph(json);
    let unit = &graph.units[0];
    let identity_hash = unit.identity_hash();
    let drv_name = unit.derivation_name();

    // Without content-addressed
    let drv = UnitDerivation::from_unit(
        unit,
        "/workspace",
        false,
        "rustToolchain",
        &drv_name,
        &identity_hash,
        false, // not an external dep
    );
    let nix = drv.to_nix();
    assert!(!nix.contains("__contentAddressed"));
    assert!(!nix.contains("outputHashMode"));
    assert!(!nix.contains("outputHashAlgo"));

    // With content-addressed
    let drv_ca = UnitDerivation::from_unit(
        unit,
        "/workspace",
        true,
        "rustToolchain",
        &drv_name,
        &identity_hash,
        false, // not an external dep
    );
    let nix_ca = drv_ca.to_nix();
    assert!(nix_ca.contains("__contentAddressed = true"));
    assert!(nix_ca.contains("outputHashMode = \"recursive\""));
    assert!(nix_ca.contains("outputHashAlgo = \"sha256\""));
}

#[test]
fn test_nix_generator_content_addressed() {
    let json = r#"{
        "version": 1,
        "units": [{
            "pkg_id": "test 0.1.0 (path+file:///workspace)",
            "target": {
                "kind": ["lib"],
                "crate_types": ["lib"],
                "name": "test",
                "src_path": "/workspace/src/lib.rs",
                "edition": "2024"
            },
            "profile": {"name": "dev", "opt_level": "0"},
            "features": [],
            "mode": "build",
            "dependencies": []
        }],
        "roots": [0]
    }"#;

    let graph = parse_test_unit_graph(json);

    // Without CA
    let config = NixGenConfig {
        workspace_root: "/workspace".to_string(),
        content_addressed: false,
        ..Default::default()
    };
    let nix = NixGenerator::new(config).generate(&graph).unwrap();
    assert!(!nix.contains("__contentAddressed"));

    // With CA
    let config_ca = NixGenConfig {
        workspace_root: "/workspace".to_string(),
        content_addressed: true,
        ..Default::default()
    };
    let nix_ca = NixGenerator::new(config_ca).generate(&graph).unwrap();
    assert!(nix_ca.contains("__contentAddressed = true"));
    assert!(nix_ca.contains("outputHashMode = \"recursive\""));
    assert!(nix_ca.contains("outputHashAlgo = \"sha256\""));
}

#[test]
fn test_build_script_output_wiring() {
    // Test a unit graph where a library depends on a build script
    // Real cargo output has THREE units for build scripts:
    // 1. COMPILE unit: mode="build", kind=["custom-build"] - compiles build.rs
    // 2. RUN unit: mode="run-custom-build" - executes the compiled binary
    // 3. LIB unit: depends on RUN unit for build script outputs
    let json = r#"{
        "version": 1,
        "units": [
            {
                "pkg_id": "my-crate 0.1.0 (path+file:///workspace)",
                "target": {
                    "kind": ["custom-build"],
                    "crate_types": ["bin"],
                    "name": "build-script-build",
                    "src_path": "/workspace/build.rs",
                    "edition": "2021"
                },
                "profile": {"name": "dev", "opt_level": "0"},
                "features": ["feature-x"],
                "mode": "build",
                "dependencies": []
            },
            {
                "pkg_id": "my-crate 0.1.0 (path+file:///workspace)",
                "target": {
                    "kind": ["custom-build"],
                    "crate_types": ["bin"],
                    "name": "build-script-build",
                    "src_path": "/workspace/build.rs",
                    "edition": "2021"
                },
                "profile": {"name": "dev", "opt_level": "0"},
                "features": ["feature-x"],
                "mode": "run-custom-build",
                "dependencies": [
                    {"index": 0, "extern_crate_name": "build_script_build", "public": false}
                ]
            },
            {
                "pkg_id": "my-crate 0.1.0 (path+file:///workspace)",
                "target": {
                    "kind": ["lib"],
                    "crate_types": ["lib"],
                    "name": "my_crate",
                    "src_path": "/workspace/src/lib.rs",
                    "edition": "2021"
                },
                "profile": {"name": "dev", "opt_level": "0"},
                "features": ["feature-x"],
                "mode": "build",
                "dependencies": [
                    {"index": 1, "extern_crate_name": "build_script_build", "public": false}
                ]
            }
        ],
        "roots": [2]
    }"#;

    let graph = parse_test_unit_graph(json);
    let config = NixGenConfig {
        workspace_root: "/workspace".to_string(),
        content_addressed: false,
        ..Default::default()
    };

    let generator = NixGenerator::new(config);
    let nix = generator.generate(&graph).unwrap();

    // Should have build script compile derivation (now uses target name "build-script-build")
    assert!(
        nix.contains("pname = \"build-script-build\""),
        "missing build script compile derivation"
    );

    // Should have build script run derivation
    assert!(
        nix.contains("my-crate-build-script-run-"),
        "missing build script run derivation name"
    );
    assert!(
        nix.contains("pname = \"my-crate-build-script-output\""),
        "missing build script output pname"
    );

    // The library should read build script outputs
    assert!(
        nix.contains("BUILD_SCRIPT_FLAGS"),
        "missing BUILD_SCRIPT_FLAGS"
    );
    assert!(
        nix.contains("# Read build script outputs"),
        "missing build script outputs comment"
    );
    assert!(nix.contains("rustc-cfg"), "missing rustc-cfg handling");

    // Library build phase should include $BUILD_SCRIPT_FLAGS
    assert!(
        nix.contains("$BUILD_SCRIPT_FLAGS"),
        "missing $BUILD_SCRIPT_FLAGS in build phase"
    );

    // Library should have build script run derivation in buildInputs
    assert!(
        nix.contains("my-crate-build-script-run-"),
        "missing build script run derivation reference"
    );
}

#[test]
fn test_build_script_ref_in_build_inputs() {
    let mut drv = UnitDerivation {
        name: "test-0.1.0-abc123".to_string(),
        pname: "test".to_string(),
        version: "0.1.0".to_string(),
        edition: "2024".to_string(),
        crate_types: vec!["lib".to_string()],
        src_path: "${src}/src/lib.rs".to_string(),
        features: vec![],
        opt_level: "0".to_string(),
        is_test: false,
        is_proc_macro: false,
        deps: vec![],
        lib_search_deps: vec![],
        build_script_ref: Some(BuildScriptRef {
            run_drv_var: "units.\"my-build-script-run\"".to_string(),
            compile_drv_name: "my-build-script".to_string(),
            run_drv_name: "my-build-script-run".to_string(),
        }),
        rustc_flags: RustcFlags::new(),
        content_addressed: false,
        toolchain_var: "rustToolchain".to_string(),
    };

    // Add a regular dependency too
    drv.add_dep(DepRef {
        nix_var: "units.\"dep-0.1.0-xyz789\"".to_string(),
        extern_crate_name: "dep".to_string(),
        lib_name: "dep".to_string(),
        identity_hash: "xyz789".to_string(),
        derivation_name: "dep-0.1.0-xyz789".to_string(),
        is_proc_macro: false,
    });

    let nix = drv.to_nix();

    // Should have both regular dep and build script in buildInputs
    assert!(nix.contains("buildInputs = ["));
    assert!(nix.contains("units.\"dep-0.1.0-xyz789\""));
    assert!(nix.contains("units.\"my-build-script-run\""));

    // Build phase should read build script outputs
    let build_phase = drv.generate_build_phase();
    assert!(build_phase.contains("BUILD_SCRIPT_FLAGS"));
    assert!(build_phase.contains("units.\"my-build-script-run\""));
    assert!(build_phase.contains("rustc-cfg"));
}

#[test]
fn test_proc_macro_host_toolchain() {
    // Test that proc-macros use hostRustToolchain in cross-compilation
    let json = r#"{
        "version": 1,
        "units": [
            {
                "pkg_id": "serde_derive 1.0.0 (registry+https://github.com/rust-lang/crates.io-index)",
                "target": {
                    "kind": ["proc-macro"],
                    "crate_types": ["proc-macro"],
                    "name": "serde_derive",
                    "src_path": "/registry/serde_derive/src/lib.rs",
                    "edition": "2021"
                },
                "profile": {"name": "dev", "opt_level": "0"},
                "features": [],
                "mode": "build",
                "dependencies": [],
                "platform": "aarch64-apple-darwin"
            },
            {
                "pkg_id": "my_app 0.1.0 (path+file:///workspace)",
                "target": {
                    "kind": ["bin"],
                    "crate_types": ["bin"],
                    "name": "my_app",
                    "src_path": "/workspace/src/main.rs",
                    "edition": "2024"
                },
                "profile": {"name": "dev", "opt_level": "0"},
                "features": [],
                "mode": "build",
                "dependencies": [
                    {"index": 0, "extern_crate_name": "serde_derive", "public": false}
                ]
            }
        ],
        "roots": [1]
    }"#;

    let graph = parse_test_unit_graph(json);

    // Without cross-compilation: both use rustToolchain
    let config = NixGenConfig {
        workspace_root: "/workspace".to_string(),
        content_addressed: false,
        cross_compiling: false,
        ..Default::default()
    };
    let nix = NixGenerator::new(config).generate(&graph).unwrap();

    // Should use rustToolchain for both (hostRustToolchain is in signature but defaults to rustToolchain)
    assert!(nix.contains("{ pkgs, rustToolchain, hostRustToolchain ? rustToolchain, src, extraNativeBuildInputs ? [], vendorDir ? null }:"));
    // Proc-macro should use rustToolchain when not cross-compiling
    assert!(nix.contains("nativeBuildInputs = [ rustToolchain ]"));
    // Should NOT have hostRustToolchain in nativeBuildInputs when not cross-compiling
    assert!(!nix.contains("nativeBuildInputs = [ hostRustToolchain ]"));

    // With cross-compilation: proc-macro uses hostRustToolchain
    let config_cross = NixGenConfig {
        workspace_root: "/workspace".to_string(),
        content_addressed: false,
        cross_compiling: true,
        host_platform: Some("aarch64-apple-darwin".to_string()),
        target_platform: Some("x86_64-unknown-linux-gnu".to_string()),
        toolchain_hash: None,
    };
    let nix_cross = NixGenerator::new(config_cross).generate(&graph).unwrap();

    // Should have hostRustToolchain in function signature
    assert!(nix_cross.contains("hostRustToolchain"));
    assert!(
        nix_cross.contains("{ pkgs, rustToolchain, hostRustToolchain ? rustToolchain, src, extraNativeBuildInputs ? [], vendorDir ? null }:")
    );

    // Proc-macro should use hostRustToolchain
    // Regular bin should use rustToolchain
    // Check that both toolchains appear in nativeBuildInputs
    assert!(nix_cross.contains("nativeBuildInputs = [ hostRustToolchain ]"));
    assert!(nix_cross.contains("nativeBuildInputs = [ rustToolchain ]"));
}

#[test]
fn test_proc_macro_output_path() {
    // Test that proc-macros output to shared library path
    let json = r#"{
        "version": 1,
        "units": [
            {
                "pkg_id": "my_macro 0.1.0 (path+file:///workspace)",
                "target": {
                    "kind": ["proc-macro"],
                    "crate_types": ["proc-macro"],
                    "name": "my_macro",
                    "src_path": "/workspace/src/lib.rs",
                    "edition": "2021"
                },
                "profile": {"name": "dev", "opt_level": "0"},
                "features": [],
                "mode": "build",
                "dependencies": [],
                "platform": "x86_64-unknown-linux-gnu"
            }
        ],
        "roots": [0]
    }"#;

    let graph = parse_test_unit_graph(json);
    let unit = &graph.units[0];
    let identity_hash = unit.identity_hash();
    let drv_name = unit.derivation_name();

    let drv = UnitDerivation::from_unit(
        unit,
        "/workspace",
        false,
        "rustToolchain",
        &drv_name,
        &identity_hash,
        false, // not an external dep
    );
    let build_phase = drv.generate_build_phase();

    // Should use --out-dir for libraries (including proc-macros)
    assert!(build_phase.contains("--out-dir build"));
    assert!(build_phase.contains("--emit=dep-info,link"));
    assert!(drv.is_proc_macro);

    // Check install phase copies all outputs to $out
    let install_phase = drv.generate_install_phase();
    assert!(install_phase.contains("$out/lib"));
    assert!(install_phase.contains("cp build/*"));
}

#[test]
fn test_workspace_packages_attrset() {
    // Test workspace with multiple root units
    let json = r#"{
        "version": 1,
        "units": [
            {
                "pkg_id": "core-lib 0.1.0 (path+file:///workspace/crates/core)",
                "target": {
                    "kind": ["lib"],
                    "crate_types": ["lib"],
                    "name": "core_lib",
                    "src_path": "/workspace/crates/core/src/lib.rs",
                    "edition": "2021"
                },
                "profile": {"name": "dev", "opt_level": "0"},
                "features": [],
                "mode": "build",
                "dependencies": []
            },
            {
                "pkg_id": "my-app 0.1.0 (path+file:///workspace/crates/app)",
                "target": {
                    "kind": ["bin"],
                    "crate_types": ["bin"],
                    "name": "my_app",
                    "src_path": "/workspace/crates/app/src/main.rs",
                    "edition": "2021"
                },
                "profile": {"name": "dev", "opt_level": "0"},
                "features": [],
                "mode": "build",
                "dependencies": [
                    {"index": 0, "extern_crate_name": "core_lib", "public": false}
                ]
            },
            {
                "pkg_id": "cli-tool 0.1.0 (path+file:///workspace/crates/cli)",
                "target": {
                    "kind": ["bin"],
                    "crate_types": ["bin"],
                    "name": "cli_tool",
                    "src_path": "/workspace/crates/cli/src/main.rs",
                    "edition": "2021"
                },
                "profile": {"name": "dev", "opt_level": "0"},
                "features": [],
                "mode": "build",
                "dependencies": [
                    {"index": 0, "extern_crate_name": "core_lib", "public": false}
                ]
            }
        ],
        "roots": [0, 1, 2]
    }"#;

    let graph = parse_test_unit_graph(json);
    let config = NixGenConfig {
        workspace_root: "/workspace".to_string(),
        content_addressed: false,
        ..Default::default()
    };

    let generator = NixGenerator::new(config);
    let nix = generator.generate(&graph).unwrap();

    // Should have packages attrset with all roots
    assert!(nix.contains("packages = {"));
    assert!(nix.contains("\"core_lib\" = units.\""));
    assert!(nix.contains("\"my_app\" = units.\""));
    assert!(nix.contains("\"cli_tool\" = units.\""));

    // Should have binaries attrset with only binaries
    assert!(nix.contains("binaries = {"));
    // binaries should contain my_app and cli_tool but NOT core_lib
    let binaries_section = nix
        .split("# Binary targets only")
        .nth(1)
        .unwrap()
        .split("# Library targets only")
        .next()
        .unwrap();
    assert!(binaries_section.contains("\"my_app\""));
    assert!(binaries_section.contains("\"cli_tool\""));
    assert!(!binaries_section.contains("\"core_lib\""));

    // Should have libraries attrset with only libraries
    assert!(nix.contains("libraries = {"));
    let libraries_section = nix.split("# Library targets only").nth(1).unwrap();
    assert!(libraries_section.contains("\"core_lib\""));
    // Libraries should NOT contain binaries
    assert!(
        !libraries_section
            .split("default =")
            .next()
            .unwrap()
            .contains("\"my_app\"")
    );
}
