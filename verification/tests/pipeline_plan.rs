use wasm_bencher::artifact::compress_wasm;
use wasm_bencher::features::{CrateMetadata, FeatureEntry, Package};
use wasm_bencher::pipeline::{
    conclude_artifacts, crate_metadata_plan, create_and_compile, default_bench_rustflags,
    find_cargo_lock, find_cargo_lock_candidates, get_crate_name, get_wasm_binary_name,
    get_wasm_workspace_root, wasm_out_dir, EnvConfig, PipelineError,
};
use wasm_bencher::artifact::final_wasm_binary;
use wasm_bencher::profile::Profile;
use wasm_bencher::publish::copy_wasm_to_target_directory;
use wasm_bencher::toolchain::{CargoCommand, CargoCommandVersioned};

fn plain_env(out_dir: &str, active: &[&str]) -> EnvConfig {
    EnvConfig {
        offline: false,
        build_type_override: None,
        extra_rustflags: None,
        target_directory: None,
        workspace_hint: None,
        out_dir: String::from(out_dir),
        active_features: active.iter().map(|s| String::from(*s)).collect(),
    }
}

fn guest_metadata() -> CrateMetadata {
    CrateMetadata {
        packages: vec![Package {
            name: String::from("my-pallet"),
            manifest_path: String::from("/repo/pallets/my-pallet/Cargo.toml"),
            features: vec![
                FeatureEntry {
                    name: String::from("std"),
                    activates: vec![],
                },
                FeatureEntry {
                    name: String::from("runtime-wasm"),
                    activates: vec![],
                },
            ],
        }],
        workspace_root: String::from("/repo"),
    }
}

#[test]
fn crate_name_comes_from_the_manifest() {
    let name = get_crate_name("[package]\nname = \"my-pallet\"\nversion = \"0.1.0\"\n").unwrap();
    assert_eq!(name, "my-pallet");
}

#[test]
fn binary_name_replaces_dashes() {
    let name =
        get_wasm_binary_name("[package]\nname = \"my-pallet\"\nversion = \"0.1.0\"\n").unwrap();
    assert_eq!(name, "my_pallet");
}

#[test]
fn manifest_without_a_package_name_is_invalid() {
    let r = get_crate_name("[lib]\nname = \"x\"\n");
    assert!(matches!(r, Err(PipelineError::InvalidGuestManifest)));
}

#[test]
fn workspace_root_is_above_the_innermost_build_component() {
    let root = get_wasm_workspace_root("/repo/target/release/build/my-pallet-1a2b/out").unwrap();
    assert_eq!(root, "/repo/target/release");
}

#[test]
fn out_dir_without_a_build_component_has_no_root() {
    let r = get_wasm_workspace_root("/repo/src");
    assert!(matches!(r, Err(PipelineError::WorkspaceRootNotFound)));
}

#[test]
fn lock_candidates_walk_both_trees() {
    let hint = String::from("/hint");
    let candidates =
        find_cargo_lock_candidates(Some(&hint), "/a/b", "/repo/pallets/my-pallet");
    assert_eq!(
        candidates,
        vec![
            String::from("/hint/Cargo.lock"),
            String::from("/a/b/Cargo.lock"),
            String::from("/a/Cargo.lock"),
            String::from("/Cargo.lock"),
            String::from("/repo/pallets/my-pallet/Cargo.lock"),
            String::from("/repo/pallets/Cargo.lock"),
            String::from("/repo/Cargo.lock"),
            String::from("/Cargo.lock"),
        ]
    );
}

#[test]
fn first_existing_lock_wins() {
    let candidates = vec![
        String::from("/hint/Cargo.lock"),
        String::from("/a/Cargo.lock"),
        String::from("/Cargo.lock"),
    ];
    let exists = vec![false, true, true];
    assert_eq!(find_cargo_lock(&candidates, &exists), Some(1));
    let none = vec![false, false, false];
    assert_eq!(find_cargo_lock(&candidates, &none), None);
}

#[test]
fn metadata_runs_at_the_lock_owning_workspace() {
    let lock = String::from("/repo/Cargo.lock");
    let plan = crate_metadata_plan(
        "/repo/pallets/my-pallet/Cargo.toml",
        Some(&lock),
        false,
        true,
    );
    assert_eq!(plan.manifest_path, "/repo/Cargo.toml");
    assert!(plan.offline);
    assert!(plan.remove_guest_lock_after);
}

#[test]
fn metadata_falls_back_to_the_guest_manifest() {
    let plan = crate_metadata_plan("/repo/pallets/my-pallet/Cargo.toml", None, true, false);
    assert_eq!(plan.manifest_path, "/repo/pallets/my-pallet/Cargo.toml");
    assert!(!plan.remove_guest_lock_after);
}

#[test]
fn out_dir_for_standalone_runs_is_derived() {
    let dir = wasm_out_dir("/repo", "release", "my-pallet", "a1b2c3");
    assert_eq!(dir, "/repo/target/release/build/my-pallet-a1b2c3/out");
}

#[test]
fn end_to_end_plan_for_an_active_runtime_wasm_guest() {
    // The guest declares `std` (inactive) and `runtime-wasm`, and the
    // environment marks `runtime-wasm` active.
    let env = plain_env("/repo/target/release/build/my-pallet-9f/out", &["RUNTIME_WASM"]);
    let cargo = CargoCommandVersioned::new(CargoCommand::new("cargo"), String::from("rustc"));
    let metadata = guest_metadata();
    let forced: Vec<String> = vec![];
    let plan = create_and_compile(
        "/repo/pallets/my-pallet/Cargo.toml",
        default_bench_rustflags().as_str(),
        &cargo,
        &forced,
        None,
        false,
        &env,
        "[package]\nname = \"my-pallet\"\n",
        &metadata,
        "[workspace]\nmembers = []\n",
        false,
    )
    .unwrap();

    assert_eq!(plan.wasm_workspace, "/repo/target/release/wbuild");
    assert_eq!(plan.project.project_dir, "/repo/target/release/wbuild/my-pallet");
    assert_eq!(plan.project.crate_name, "my-pallet");
    assert_eq!(plan.project.wasm_binary, "my_pallet");
    // The synthesized feature list is exactly ["runtime-wasm"].
    assert_eq!(
        plan.project.enabled_features,
        vec![String::from("runtime-wasm")]
    );
    // The profile resolves to Release.
    assert_eq!(plan.build.profile, Profile::Release);
    assert!(plan.build.profile_warning.is_none());
    assert_eq!(plan.build.program, "cargo");
    assert_eq!(
        plan.build.args,
        vec![
            String::from("rustc"),
            String::from("--target=wasm32-unknown-unknown"),
            String::from(
                "--manifest-path=/repo/target/release/wbuild/my-pallet/Cargo.toml"
            ),
            String::from("--profile"),
            String::from("release"),
        ]
    );
    assert_eq!(
        plan.build.rustflags,
        "-C target-cpu=mvp -C target-feature=-sign-ext -C link-arg=--export-table \
         -Clink-arg=--export=__heap_base -C link-arg=--import-memory "
    );
    assert_eq!(
        plan.build.unset_vars,
        vec![
            String::from("CARGO_TARGET_DIR"),
            String::from("CARGO_ENCODED_RUSTFLAGS")
        ]
    );
    assert_eq!(plan.build.guard_var.0, "SKIP_WASM_BUILD");
    assert_eq!(plan.build.guard_var.1, "");

    // Both compact and compressed artifacts are planned.
    assert!(plan.compact.compact_path.is_some());
    assert!(plan.compact.compressed_path.is_some());

    // Post-processing: compression succeeds for a small binary, and the
    // final artifact is the compressed one.
    let compact_bytes: Vec<u8> = vec![0x00, 0x61, 0x73, 0x6d, 0x01, 0x00, 0x00, 0x00];
    let compressed = compress_wasm(&compact_bytes);
    assert!(compressed.is_some());
    let (compact, compressed, _bloaty) = conclude_artifacts(&plan.compact, true);
    let fin = final_wasm_binary(compact, compressed).unwrap();
    assert_eq!(
        fin.wasm_binary_path(),
        "/repo/target/release/wbuild/my-pallet/my_pallet.compact.compressed.wasm"
    );

    // No publish directory is configured: no external copy happens.
    let publish = copy_wasm_to_target_directory(
        env.target_directory.as_ref(),
        plan.project.wasm_binary.as_str(),
        &fin,
    )
    .unwrap();
    assert!(publish.is_none());
}

#[test]
fn offline_mode_adds_the_offline_flag() {
    let mut env = plain_env("/repo/target/release/build/x-1/out", &[]);
    env.offline = true;
    let cargo = CargoCommandVersioned::new(CargoCommand::new("cargo"), String::from("rustc"));
    let metadata = guest_metadata();
    let forced: Vec<String> = vec![];
    let plan = create_and_compile(
        "/repo/pallets/my-pallet/Cargo.toml",
        "",
        &cargo,
        &forced,
        None,
        true,
        &env,
        "[package]\nname = \"my-pallet\"\n",
        &metadata,
        "",
        false,
    )
    .unwrap();
    assert_eq!(plan.build.args.last().map(|s| s.as_str()), Some("--offline"));
    assert!(plan.check_for_runtime_version_section);
}

#[test]
fn forced_features_join_the_sorted_list() {
    let env = plain_env("/repo/target/production/build/x-1/out", &[]);
    let cargo = CargoCommandVersioned::new(CargoCommand::new("cargo"), String::from("rustc"));
    let metadata = guest_metadata();
    let forced = vec![String::from("wasm-bench")];
    let plan = create_and_compile(
        "/repo/pallets/my-pallet/Cargo.toml",
        "",
        &cargo,
        &forced,
        None,
        false,
        &env,
        "[package]\nname = \"my-pallet\"\n",
        &metadata,
        "",
        false,
    )
    .unwrap();
    // The guest declares `runtime-wasm`, so it is always added; the
    // forced feature joins it, and the list stays sorted.
    assert_eq!(
        plan.project.enabled_features,
        vec![String::from("runtime-wasm"), String::from("wasm-bench")]
    );
    assert_eq!(plan.build.profile, Profile::Production);
}

#[test]
fn manifest_path_without_a_parent_is_an_error() {
    let metadata = guest_metadata();
    let forced: Vec<String> = vec![];
    let active: Vec<String> = vec![];
    let r = wasm_bencher::pipeline::create_project(
        "Cargo.toml",
        "/w/wbuild",
        "[package]\nname = \"my-pallet\"\n",
        &metadata,
        "",
        &forced,
        &active,
        false,
    );
    assert!(matches!(r, Err(PipelineError::GuestManifestWithoutParent)));
}

#[test]
fn unparseable_workspace_manifest_is_an_error() {
    let metadata = guest_metadata();
    let forced: Vec<String> = vec![];
    let active: Vec<String> = vec![];
    let r = wasm_bencher::pipeline::create_project(
        "/repo/pallets/my-pallet/Cargo.toml",
        "/w/wbuild",
        "[package]\nname = \"my-pallet\"\n",
        &metadata,
        "= this is not toml",
        &forced,
        &active,
        false,
    );
    assert!(matches!(r, Err(PipelineError::InvalidWorkspaceManifest)));
}

#[test]
fn unknown_guest_package_fails_the_plan() {
    let env = plain_env("/repo/target/release/build/x-1/out", &[]);
    let cargo = CargoCommandVersioned::new(CargoCommand::new("cargo"), String::from("rustc"));
    let metadata = CrateMetadata {
        packages: vec![],
        workspace_root: String::from("/repo"),
    };
    let forced: Vec<String> = vec![];
    let r = create_and_compile(
        "/repo/pallets/other/Cargo.toml",
        "",
        &cargo,
        &forced,
        None,
        false,
        &env,
        "[package]\nname = \"other\"\n",
        &metadata,
        "",
        false,
    );
    assert!(matches!(
        r,
        Err(PipelineError::Metadata(
            wasm_bencher::features::MetadataError::PackageNotFound(n)
        )) if n == "other"
    ));
}
