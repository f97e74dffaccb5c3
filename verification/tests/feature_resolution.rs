use wasm_bencher::features::{
    project_enabled_features, has_runtime_wasm_feature_declared, CrateMetadata, FeatureEntry,
    MetadataError, Package,
};
use wasm_bencher::text::sorted_unique_strings;

fn entry(name: &str, activates: &[&str]) -> FeatureEntry {
    FeatureEntry {
        name: String::from(name),
        activates: activates.iter().map(|s| String::from(*s)).collect(),
    }
}

fn guest(features: Vec<FeatureEntry>) -> CrateMetadata {
    CrateMetadata {
        packages: vec![Package {
            name: String::from("my-pallet"),
            manifest_path: String::from("/repo/pallets/my-pallet/Cargo.toml"),
            features,
        }],
        workspace_root: String::from("/repo"),
    }
}

fn resolve(features: Vec<FeatureEntry>, active: &[&str]) -> Vec<String> {
    let md = guest(features);
    let active: Vec<String> = active.iter().map(|s| String::from(*s)).collect();
    project_enabled_features(
        "my-pallet",
        "/repo/pallets/my-pallet/Cargo.toml",
        &md,
        &active,
    )
    .unwrap()
}

#[test]
fn std_and_default_are_never_enabled() {
    let list = resolve(
        vec![entry("std", &[]), entry("default", &["std"])],
        &["STD", "DEFAULT"],
    );
    assert!(list.is_empty());
}

#[test]
fn active_feature_is_enabled() {
    let list = resolve(
        vec![entry("std", &[]), entry("runtime-wasm", &[])],
        &["RUNTIME_WASM"],
    );
    assert_eq!(list, vec![String::from("runtime-wasm")]);
}

#[test]
fn inactive_feature_is_not_enabled() {
    let list = resolve(vec![entry("std", &[]), entry("runtime-wasm", &[])], &[]);
    assert!(list.is_empty());
}

#[test]
fn dash_name_maps_to_uppercase_underscore_key() {
    let list = resolve(vec![entry("try-runtime", &[])], &["TRY_RUNTIME"]);
    assert_eq!(list, vec![String::from("try-runtime")]);
}

#[test]
fn std_implied_optional_dependency_is_excluded() {
    // `serde` maps to exactly its own optional dependency and is also
    // activated by `std`: the heuristic keeps it out even when marked
    // active.
    let list = resolve(
        vec![entry("std", &["serde"]), entry("serde", &["dep:serde"])],
        &["SERDE"],
    );
    assert!(list.is_empty());
}

#[test]
fn optional_dependency_not_under_std_stays_enabled() {
    let list = resolve(
        vec![entry("std", &[]), entry("serde", &["dep:serde"])],
        &["SERDE"],
    );
    assert_eq!(list, vec![String::from("serde")]);
}

#[test]
fn feature_with_wider_activation_stays_enabled() {
    // The heuristic asks for exactly one activated item.
    let list = resolve(
        vec![
            entry("std", &["serde"]),
            entry("serde", &["dep:serde", "other/serde"]),
        ],
        &["SERDE"],
    );
    assert_eq!(list, vec![String::from("serde")]);
}

#[test]
fn resolved_list_is_sorted() {
    let list = resolve(
        vec![entry("zeta", &[]), entry("alpha", &[]), entry("mid", &[])],
        &["ZETA", "ALPHA", "MID"],
    );
    assert_eq!(
        list,
        vec![
            String::from("alpha"),
            String::from("mid"),
            String::from("zeta")
        ]
    );
}

#[test]
fn resolution_is_deterministic_across_calls() {
    let features = || {
        vec![
            entry("zeta", &[]),
            entry("alpha", &[]),
            entry("std", &["serde"]),
            entry("serde", &["dep:serde"]),
        ]
    };
    let a = resolve(features(), &["ZETA", "ALPHA", "SERDE"]);
    let b = resolve(features(), &["ZETA", "ALPHA", "SERDE"]);
    assert_eq!(a, b);
    assert_eq!(a, vec![String::from("alpha"), String::from("zeta")]);
}

#[test]
fn lookup_falls_back_to_unique_name() {
    let md = guest(vec![entry("runtime-wasm", &[])]);
    // A manifest path that matches nothing still finds the package by
    // its unique name.
    let r = has_runtime_wasm_feature_declared("my-pallet", "/elsewhere/Cargo.toml", &md);
    assert_eq!(r.unwrap(), true);
}

#[test]
fn missing_package_is_reported() {
    let md = guest(vec![]);
    let active: Vec<String> = vec![];
    let r = project_enabled_features("other", "/elsewhere/Cargo.toml", &md, &active);
    assert!(matches!(r, Err(MetadataError::PackageNotFound(n)) if n == "other"));
}

#[test]
fn ambiguous_name_is_reported() {
    let mut md = guest(vec![]);
    md.packages.push(Package {
        name: String::from("my-pallet"),
        manifest_path: String::from("/repo/other/my-pallet/Cargo.toml"),
        features: vec![],
    });
    let active: Vec<String> = vec![];
    let r = project_enabled_features("my-pallet", "/elsewhere/Cargo.toml", &md, &active);
    assert!(matches!(r, Err(MetadataError::DuplicatePackages(n)) if n == "my-pallet"));
}

#[test]
fn runtime_wasm_declaration_is_detected() {
    let md = guest(vec![entry("std", &[])]);
    let r = has_runtime_wasm_feature_declared(
        "my-pallet",
        "/repo/pallets/my-pallet/Cargo.toml",
        &md,
    );
    assert_eq!(r.unwrap(), false);
}

#[test]
fn sorting_removes_duplicates() {
    let v = vec![
        String::from("b"),
        String::from("a"),
        String::from("b"),
        String::from("a"),
    ];
    let r = sorted_unique_strings(&v);
    assert_eq!(r, vec![String::from("a"), String::from("b")]);
}
