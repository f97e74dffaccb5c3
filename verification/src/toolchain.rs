//! The toolchain probe: the throwaway project that checks that the
//! sandbox-target toolchain is installed and captures the compiler
//! version it uses, and the classification of the probe's outcome.

use vstd::prelude::*;
use crate::manifest::ProjectFile;
use crate::text::has_substring;

verus! {

/// Wraps a specific command which represents a cargo invocation.
#[derive(Debug)]
pub struct CargoCommand {
    program: String,
}

impl View for CargoCommand {
    type V = Seq<char>;

    closed spec fn view(&self) -> Seq<char> {
        self.program@
    }
}

impl CargoCommand {
    /// Wraps the given program name.
    pub fn new(program: &str) -> (r: Self)
        ensures
            r@ == program@,
    {
        CargoCommand { program: String::from_str(program) }
    }

    /// The program to invoke.
    pub fn program(&self) -> (r: &str)
        ensures
            r@ == self@,
    {
        self.program.as_str()
    }
}

/// Wraps a [`CargoCommand`] and the version of the compiler the cargo
/// command uses.
pub struct CargoCommandVersioned {
    command: CargoCommand,
    version: String,
}

impl CargoCommandVersioned {
    /// The wrapped command's program name.
    pub closed spec fn command_spec(&self) -> Seq<char> {
        self.command@
    }

    /// The captured compiler version.
    pub closed spec fn version_spec(&self) -> Seq<char> {
        self.version@
    }

    pub fn new(command: CargoCommand, version: String) -> (r: Self)
        ensures
            r.command_spec() == command@,
            r.version_spec() == version@,
    {
        Self { command, version }
    }

    /// Returns the compiler version.
    pub fn rustc_version(&self) -> (r: &str)
        ensures
            r@ == self.version_spec(),
    {
        self.version.as_str()
    }

    /// Returns the wrapped command.
    pub fn command(&self) -> (r: &CargoCommand)
        ensures
            r@ == self.command_spec(),
    {
        &self.command
    }
}

/// The manifest of the toolchain probe project.
pub open spec fn probe_manifest_text() -> Seq<char> {
    "[package]\nname = \"wasm-test\"\nversion = \"1.0.0\"\nedition = \"2021\"\nbuild = \"build.rs\"\n\n[lib]\nname = \"wasm_test\"\ncrate-type = [\"cdylib\"]\n\n[workspace]\n"@
}

/// The probe library: one exported function, enough to link.
pub open spec fn probe_lib_text() -> Seq<char> {
    "pub fn test() {}"@
}

/// The probe build script. There is no single direct command that
/// reliably reports the compiler version used for this exact cargo
/// command, so the build script asks the compiler itself and embeds the
/// answer in the probe binary at its own build time.
pub open spec fn probe_build_script_text() -> Seq<char> {
    "use std::{env, process};\n\nfn main() {\n    let rustc_cmd = env::var(\"RUSTC\").ok().unwrap_or_else(|| \"rustc\".into());\n\n    let rustc_version = process::Command::new(rustc_cmd)\n        .arg(\"--version\")\n        .output()\n        .ok()\n        .and_then(|o| String::from_utf8(o.stdout).ok());\n\n    println!(\n        \"cargo:rustc-env=RUSTC_VERSION={}\",\n        rustc_version.unwrap_or_else(|| \"unknown rustc version\".into()),\n    );\n}\n"@
}

/// The probe binary: prints the version that the build script embedded.
pub open spec fn probe_main_text() -> Seq<char> {
    "fn main() {\n    println!(\"{}\", env!(\"RUSTC_VERSION\"));\n}\n"@
}

/// The files of the project used to check that the sandbox-target
/// toolchain is installed and to capture the compiler version.
pub fn create_check_toolchain_project() -> (r: Vec<ProjectFile>)
    ensures
        r@.len() == 4,
        r@[0].rel_path@ == "Cargo.toml"@ && r@[0].content@ == probe_manifest_text(),
        r@[1].rel_path@ == "src/lib.rs"@ && r@[1].content@ == probe_lib_text(),
        r@[2].rel_path@ == "build.rs"@ && r@[2].content@ == probe_build_script_text(),
        r@[3].rel_path@ == "src/main.rs"@ && r@[3].content@ == probe_main_text(),
{
    let mut r: Vec<ProjectFile> = Vec::new();
    r.push(
        ProjectFile {
            rel_path: String::from_str("Cargo.toml"),
            content: String::from_str(
                "[package]\nname = \"wasm-test\"\nversion = \"1.0.0\"\nedition = \"2021\"\nbuild = \"build.rs\"\n\n[lib]\nname = \"wasm_test\"\ncrate-type = [\"cdylib\"]\n\n[workspace]\n",
            ),
        },
    );
    r.push(
        ProjectFile {
            rel_path: String::from_str("src/lib.rs"),
            content: String::from_str("pub fn test() {}"),
        },
    );
    r.push(
        ProjectFile {
            rel_path: String::from_str("build.rs"),
            content: String::from_str(
                "use std::{env, process};\n\nfn main() {\n    let rustc_cmd = env::var(\"RUSTC\").ok().unwrap_or_else(|| \"rustc\".into());\n\n    let rustc_version = process::Command::new(rustc_cmd)\n        .arg(\"--version\")\n        .output()\n        .ok()\n        .and_then(|o| String::from_utf8(o.stdout).ok());\n\n    println!(\n        \"cargo:rustc-env=RUSTC_VERSION={}\",\n        rustc_version.unwrap_or_else(|| \"unknown rustc version\".into()),\n    );\n}\n",
            ),
        },
    );
    r.push(
        ProjectFile {
            rel_path: String::from_str("src/main.rs"),
            content: String::from_str(
                "fn main() {\n    println!(\"{}\", env!(\"RUSTC_VERSION\"));\n}\n",
            ),
        },
    );
    r
}

/// What running the probe produced: whether the sandbox-target build
/// succeeded, its error output when readable as text, and the version
/// line the probe binary printed, when it ran and printed text.
pub struct ProbeOutcome {
    pub build_succeeded: bool,
    pub build_stderr: Option<String>,
    pub run_stdout: Option<String>,
}

/// The message for a toolchain that is not installed.
pub open spec fn toolchain_missing_text() -> Seq<char> {
    "Rust WASM toolchain not installed, please install it!"@
}

/// The message for a missing linker component.
pub open spec fn linker_missing_text() -> Seq<char> {
    "`rust-lld` not found, please install it!"@
}

/// The compiler error marker that identifies a missing linker.
pub open spec fn linker_missing_marker() -> Seq<char> {
    "linker `rust-lld` not found"@
}

/// A line of sixty dashes, framing the compiler's own output.
pub open spec fn dashes_line() -> Seq<char> {
    Seq::new(60, |i: int| '-')
}

/// The detailed failure message: the generic message, then the
/// compiler's own error output between framing lines.
pub open spec fn detailed_failure_text(err: Seq<char>) -> Seq<char> {
    toolchain_missing_text() + "\n\n"@ + "Further error information:"@ + "\n"@ + dashes_line()
        + "\n"@ + err + dashes_line() + "\n"@
}

/// The version recorded when the probe could not report one.
pub open spec fn unknown_version_text() -> Seq<char> {
    "unknown rustc version"@
}

/// What the toolchain check reports for a given probe outcome: on build
/// success, the command paired with the captured version (or a fixed
/// fallback); on failure, the missing-linker message when the compiler
/// error names the missing linker, the detailed message around readable
/// compiler output, and the generic message otherwise.
pub open spec fn check_outcome_spec(command: Seq<char>, outcome: ProbeOutcome) -> Result<
    (Seq<char>, Seq<char>),
    Seq<char>,
> {
    if outcome.build_succeeded {
        Ok(
            (
                command,
                match outcome.run_stdout {
                    Some(v) => v@,
                    None => unknown_version_text(),
                },
            ),
        )
    } else {
        Err(
            match outcome.build_stderr {
                Some(e) => if has_substring(e@, linker_missing_marker()) {
                    linker_missing_text()
                } else {
                    detailed_failure_text(e@)
                },
                None => toolchain_missing_text(),
            },
        )
    }
}

/// Classifies the probe outcome for the given cargo command.
pub fn check_wasm_toolchain_installed(cargo_command: CargoCommand, outcome: &ProbeOutcome) -> (r:
    Result<CargoCommandVersioned, String>)
    ensures
        match r {
            Ok(v) => check_outcome_spec(cargo_command@, *outcome) == Ok::<_, Seq<char>>(
                (v.command_spec(), v.version_spec()),
            ),
            Err(m) => check_outcome_spec(cargo_command@, *outcome) == Err::<
                (Seq<char>, Seq<char>),
                _,
            >(m@),
        },
{
    if outcome.build_succeeded {
        let version = match &outcome.run_stdout {
            Some(v) => v.clone(),
            None => String::from_str("unknown rustc version"),
        };
        Ok(CargoCommandVersioned::new(cargo_command, version))
    } else {
        match &outcome.build_stderr {
            Some(e) => {
                if crate::text::contains_str(e.as_str(), "linker `rust-lld` not found") {
                    Err(String::from_str("`rust-lld` not found, please install it!"))
                } else {
                    let mut m = String::from_str(
                        "Rust WASM toolchain not installed, please install it!",
                    );
                    m.append("\n\n");
                    m.append("Further error information:");
                    m.append("\n");
                    let dashes = crate::text::repeat_char('-', 60);
                    m.append(dashes.as_str());
                    m.append("\n");
                    m.append(e.as_str());
                    m.append(dashes.as_str());
                    m.append("\n");
                    proof {
                        assert(m@ =~= detailed_failure_text(
                            outcome.build_stderr->0@,
                        ));
                    }
                    Err(m)
                }
            },
            None => Err(
                String::from_str("Rust WASM toolchain not installed, please install it!"),
            ),
        }
    }
}

/// Checks that the sandbox-target toolchain is installed, judging by the
/// probe outcome, and returns the versioned cargo command on success.
pub fn check(outcome: &ProbeOutcome) -> (r: Result<CargoCommandVersioned, String>)
    ensures
        match r {
            Ok(v) => check_outcome_spec("cargo"@, *outcome) == Ok::<_, Seq<char>>(
                (v.command_spec(), v.version_spec()),
            ),
            Err(m) => check_outcome_spec("cargo"@, *outcome) == Err::<
                (Seq<char>, Seq<char>),
                _,
            >(m@),
        },
{
    let cargo_command = CargoCommand::new("cargo");
    check_wasm_toolchain_installed(cargo_command, outcome)
}

} // verus!
