use wasm_bencher::features::{CrateMetadata, FeatureEntry, Package};
use wasm_bencher::manifest::{create_project_cargo_toml, file_write_needed, project_lib_stub};
use wasm_bencher::pipeline::create_project;

fn simple_manifest() -> String {
    let features = vec![String::from("runtime-wasm")];
    let patches = Vec::new();
    create_project_cargo_toml(
        "/ws",
        "my-pallet",
        "/ws/pallets/my-pallet",
        "my_pallet",
        &features,
        &patches,
    )
}

#[test]
fn manifest_content_is_exact() {
    let expected = "[package]\nname = \"my-pallet-wasm\"\nversion = \"1.0.0\"\nedition = \"2021\"\n\n\
[lib]\nname = \"my_pallet\"\ncrate-type = [\"cdylib\"]\n\n\
[dependencies.wasm-project]\npackage = \"my-pallet\"\npath = \"/ws/pallets/my-pallet\"\n\
default-features = false\nfeatures = [\"runtime-wasm\"]\n\n\
[profile.release]\npanic = \"abort\"\nlto = \"thin\"\n\n\
[profile.production]\ninherits = \"release\"\nlto = \"fat\"\ncodegen-units = 1\n\n\
[profile.dev]\npanic = \"abort\"\n\n\
[workspace]\n";
    assert_eq!(simple_manifest(), expected);
}

#[test]
fn manifest_is_valid_toml() {
    let text = simple_manifest();
    let table: toml::Table = text.parse().unwrap();
    assert_eq!(
        table["package"]["name"].as_str().unwrap(),
        "my-pallet-wasm"
    );
    assert_eq!(table["package"]["edition"].as_str().unwrap(), "2021");
    assert_eq!(table["lib"]["name"].as_str().unwrap(), "my_pallet");
    let dep = &table["dependencies"]["wasm-project"];
    assert_eq!(dep["package"].as_str().unwrap(), "my-pallet");
    assert_eq!(dep["default-features"].as_bool().unwrap(), false);
    assert_eq!(
        dep["features"].as_array().unwrap()[0].as_str().unwrap(),
        "runtime-wasm"
    );
    assert_eq!(
        table["profile"]["production"]["codegen-units"]
            .as_integer()
            .unwrap(),
        1
    );
    assert!(table.contains_key("workspace"));
}

#[test]
fn synthesis_is_idempotent() {
    let first = simple_manifest();
    let second = simple_manifest();
    assert_eq!(first, second);
    // Once the file holds the rendered content, no second write happens.
    assert!(!file_write_needed(Some(&first), second.as_str()));
}

#[test]
fn write_happens_when_content_differs_or_file_is_missing() {
    let text = String::from("a = 1\n");
    assert!(file_write_needed(None, text.as_str()));
    let other = String::from("a = 2\n");
    assert!(file_write_needed(Some(&other), text.as_str()));
    assert!(!file_write_needed(Some(&text), text.as_str()));
}

#[test]
fn lib_stub_reexports_the_guest() {
    assert_eq!(project_lib_stub(), "#![no_std] pub use wasm_project::*;");
}

#[test]
fn relative_patch_paths_become_absolute() {
    let md = CrateMetadata {
        packages: vec![Package {
            name: String::from("foo"),
            manifest_path: String::from("/repo/pallets/foo/Cargo.toml"),
            features: vec![FeatureEntry {
                name: String::from("std"),
                activates: vec![],
            }],
        }],
        workspace_root: String::from("/repo"),
    };
    let guest_text = "[package]\nname = \"foo\"\n";
    let ws_text = "[patch.crates-io]\nbar = { path = \"../bar\", version = \"1.0\" }\n";
    let forced: Vec<String> = vec![];
    let active: Vec<String> = vec![];
    let plan = create_project(
        "/repo/pallets/foo/Cargo.toml",
        "/repo/target/release/wbuild",
        guest_text,
        &md,
        ws_text,
        &forced,
        &active,
        false,
    )
    .unwrap();
    let content = &plan.files[0].content;
    assert!(content.contains("[patch.\"crates-io\".\"bar\"]\n"));
    assert!(content.contains("path = \"/repo/../bar\"\n"));
    // The other assignment keeps its original TOML value.
    assert!(content.contains("version = \"1.0\"\n"));
    // The rendered manifest still parses, with the rewritten path inside.
    let table: toml::Table = content.parse().unwrap();
    assert_eq!(
        table["patch"]["crates-io"]["bar"]["path"].as_str().unwrap(),
        "/repo/../bar"
    );
}

#[test]
fn absolute_patch_paths_stay_unchanged() {
    let md = CrateMetadata {
        packages: vec![Package {
            name: String::from("foo"),
            manifest_path: String::from("/repo/pallets/foo/Cargo.toml"),
            features: vec![],
        }],
        workspace_root: String::from("/repo"),
    };
    let guest_text = "[package]\nname = \"foo\"\n";
    let ws_text = "[patch.crates-io]\nbar = { path = \"/abs/bar\" }\n";
    let forced: Vec<String> = vec![];
    let active: Vec<String> = vec![];
    let plan = create_project(
        "/repo/pallets/foo/Cargo.toml",
        "/repo/target/release/wbuild",
        guest_text,
        &md,
        ws_text,
        &forced,
        &active,
        false,
    )
    .unwrap();
    assert!(plan.files[0].content.contains("path = \"/abs/bar\"\n"));
}

#[test]
fn escaped_paths_match_default_escaping() {
    for s in [
        "/plain/path.wasm",
        "C:\\builds\\x \"quoted\".wasm",
        "tab\there",
        "line\nbreak",
        "na\u{ef}ve/\u{1f600}.wasm",
    ] {
        let b = wasm_bencher::artifact::WasmBinary::new(String::from(s));
        assert_eq!(
            b.wasm_binary_path_escaped(),
            s.escape_default().to_string()
        );
    }
}
