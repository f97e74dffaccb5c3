use wasm_bencher::toolchain::{
    check, create_check_toolchain_project, CargoCommand, CargoCommandVersioned, ProbeOutcome,
};

fn expect_err(r: Result<CargoCommandVersioned, String>) -> String {
    match r {
        Err(m) => m,
        Ok(_) => panic!("expected the toolchain check to fail"),
    }
}

#[test]
fn successful_probe_yields_the_captured_version() {
    let outcome = ProbeOutcome {
        build_succeeded: true,
        build_stderr: None,
        run_stdout: Some(String::from("rustc 1.75.0 (abcdef 2023-12-21)")),
    };
    let cmd = check(&outcome).unwrap();
    assert_eq!(cmd.rustc_version(), "rustc 1.75.0 (abcdef 2023-12-21)");
    assert_eq!(cmd.command().program(), "cargo");
}

#[test]
fn successful_probe_without_output_uses_the_fallback_version() {
    let outcome = ProbeOutcome {
        build_succeeded: true,
        build_stderr: None,
        run_stdout: None,
    };
    let cmd = check(&outcome).unwrap();
    assert_eq!(cmd.rustc_version(), "unknown rustc version");
}

#[test]
fn missing_linker_is_distinguished() {
    let outcome = ProbeOutcome {
        build_succeeded: false,
        build_stderr: Some(String::from(
            "error: linker `rust-lld` not found\n  = note: ...\n",
        )),
        run_stdout: None,
    };
    let err = expect_err(check(&outcome));
    assert_eq!(err, "`rust-lld` not found, please install it!");
}

#[test]
fn other_failures_carry_the_compiler_output() {
    let outcome = ProbeOutcome {
        build_succeeded: false,
        build_stderr: Some(String::from("some error\n")),
        run_stdout: None,
    };
    let err = expect_err(check(&outcome));
    let dashes = "-".repeat(60);
    let expected = format!(
        "Rust WASM toolchain not installed, please install it!\n\nFurther error information:\n{}\nsome error\n{}\n",
        dashes, dashes
    );
    assert_eq!(err, expected);
}

#[test]
fn unreadable_stderr_gives_the_generic_message() {
    let outcome = ProbeOutcome {
        build_succeeded: false,
        build_stderr: None,
        run_stdout: None,
    };
    let err = expect_err(check(&outcome));
    assert_eq!(err, "Rust WASM toolchain not installed, please install it!");
}

#[test]
fn probe_project_files_are_complete() {
    let files = create_check_toolchain_project();
    assert_eq!(files.len(), 4);
    assert_eq!(files[0].rel_path, "Cargo.toml");
    assert_eq!(files[1].rel_path, "src/lib.rs");
    assert_eq!(files[2].rel_path, "build.rs");
    assert_eq!(files[3].rel_path, "src/main.rs");
    let manifest: toml::Table = files[0].content.parse().unwrap();
    assert_eq!(manifest["package"]["name"].as_str().unwrap(), "wasm-test");
    assert_eq!(manifest["package"]["build"].as_str().unwrap(), "build.rs");
    assert_eq!(files[1].content, "pub fn test() {}");
    assert!(files[2].content.contains("RUSTC_VERSION"));
    assert!(files[3].content.contains("RUSTC_VERSION"));
}

#[test]
fn versioned_command_keeps_both_parts() {
    let cmd = CargoCommandVersioned::new(
        CargoCommand::new("cargo-nightly"),
        String::from("rustc 1.99.0"),
    );
    assert_eq!(cmd.command().program(), "cargo-nightly");
    assert_eq!(cmd.rustc_version(), "rustc 1.99.0");
}
