use wasm_bencher::artifact::{compact_wasm_file, compress_wasm, final_wasm_binary, WasmBinary};
use wasm_bencher::pipeline::conclude_artifacts;
use wasm_bencher::profile::Profile;
use wasm_bencher::publish::{copy_wasm_to_target_directory, PublishError};

#[test]
fn compact_plan_paths_for_release() {
    let plan = compact_wasm_file("/w/wbuild/foo", &Profile::Release, "foo_pallet", None);
    assert_eq!(
        plan.in_path,
        "/w/wbuild/foo/target/wasm32-unknown-unknown/release/foo_pallet.wasm"
    );
    assert_eq!(plan.bloaty_path, "/w/wbuild/foo/foo_pallet.wasm");
    assert_eq!(
        plan.compact_path.as_deref(),
        Some("/w/wbuild/foo/foo_pallet.compact.wasm")
    );
    assert_eq!(
        plan.compressed_path.as_deref(),
        Some("/w/wbuild/foo/foo_pallet.compact.compressed.wasm")
    );
}

#[test]
fn compact_plan_honours_the_output_name_override() {
    let name = String::from("custom");
    let plan = compact_wasm_file("/p", &Profile::Production, "foo_pallet", Some(&name));
    // The raw toolchain output keeps the default name; the published
    // artifacts carry the override.
    assert_eq!(
        plan.in_path,
        "/p/target/wasm32-unknown-unknown/production/foo_pallet.wasm"
    );
    assert_eq!(plan.bloaty_path, "/p/custom.wasm");
    assert_eq!(plan.compact_path.as_deref(), Some("/p/custom.compact.wasm"));
}

#[test]
fn debug_profile_gets_only_the_bloaty_artifact() {
    let plan = compact_wasm_file("/p", &Profile::Debug, "foo_pallet", None);
    assert!(plan.compact_path.is_none());
    assert!(plan.compressed_path.is_none());
    let (compact, compressed, bloaty) = conclude_artifacts(&plan, false);
    assert!(compact.is_none());
    assert!(compressed.is_none());
    assert_eq!(bloaty.wasm_binary_bloaty_path(), "/p/foo_pallet.wasm");
    assert!(final_wasm_binary(compact, compressed).is_none());
}

#[test]
fn final_artifact_prefers_the_compressed_binary() {
    let plan = compact_wasm_file("/p", &Profile::Release, "foo", None);
    let (compact, compressed, _bloaty) = conclude_artifacts(&plan, true);
    let fin = final_wasm_binary(compact, compressed).unwrap();
    assert_eq!(fin.wasm_binary_path(), "/p/foo.compact.compressed.wasm");
}

#[test]
fn final_artifact_falls_back_to_the_compact_binary() {
    // Compression skipped by the size guard: the compact binary remains
    // the best artifact.
    let plan = compact_wasm_file("/p", &Profile::Release, "foo", None);
    let (compact, compressed, _bloaty) = conclude_artifacts(&plan, false);
    assert!(compressed.is_none());
    let fin = final_wasm_binary(compact, compressed).unwrap();
    assert_eq!(fin.wasm_binary_path(), "/p/foo.compact.wasm");
}

#[test]
fn compression_round_trips() {
    let data: Vec<u8> = (0u32..4096).map(|i| (i % 251) as u8).collect();
    let compressed = compress_wasm(&data).unwrap();
    // The compressed artifact is a genuine transformation of the input.
    assert_ne!(compressed, data);
    let restored =
        sp_maybe_compressed_blob::decompress(&compressed, 50 * 1024 * 1024).unwrap();
    assert_eq!(&restored[..], &data[..]);
}

#[test]
fn compression_over_the_bomb_guard_is_skipped() {
    let data: Vec<u8> = vec![0u8; 50 * 1024 * 1024 + 1];
    assert!(compress_wasm(&data).is_none());
}

#[test]
fn publish_is_a_no_op_without_a_target_directory() {
    let binary = WasmBinary::new(String::from("/p/foo.compact.compressed.wasm"));
    let r = copy_wasm_to_target_directory(None, "foo_pallet", &binary).unwrap();
    assert!(r.is_none());
}

#[test]
fn publish_copies_under_the_crate_name() {
    let binary = WasmBinary::new(String::from("/p/foo.compact.compressed.wasm"));
    let dir = String::from("/out/wasm");
    let copy = copy_wasm_to_target_directory(Some(&dir), "foo_pallet", &binary)
        .unwrap()
        .unwrap();
    assert_eq!(copy.from, "/p/foo.compact.compressed.wasm");
    assert_eq!(copy.to, "/out/wasm/foo_pallet.wasm");
}

#[test]
fn relative_publish_directory_is_fatal() {
    let binary = WasmBinary::new(String::from("/p/foo.wasm"));
    let dir = String::from("relative/dir");
    let r = copy_wasm_to_target_directory(Some(&dir), "foo", &binary);
    assert!(
        matches!(r, Err(PublishError::TargetDirectoryNotAbsolute(d)) if d == "relative/dir")
    );
}
