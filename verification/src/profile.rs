//! The cargo build profile used for the guest build, and its detection
//! from an explicit override or from the build path.

use vstd::prelude::*;
use crate::paths::{inferred_profile_dir, split_slash};

verus! {

/// The cargo profile that is used to build the wasm project.
#[derive(Debug, Clone, Copy, PartialEq, Eq, Structural)]
pub enum Profile {
    /// The `--profile dev` profile.
    Debug,
    /// The `--profile release` profile.
    Release,
    /// The `--profile production` profile.
    Production,
}

/// The name of a profile as supplied to the cargo `--profile` option.
pub open spec fn profile_name_spec(p: Profile) -> Seq<char> {
    match p {
        Profile::Debug => "dev"@,
        Profile::Release => "release"@,
        Profile::Production => "production"@,
    }
}

/// The sub directory within `target` where cargo places a profile's
/// build output.
pub open spec fn profile_directory_spec(p: Profile) -> Seq<char> {
    match p {
        Profile::Debug => "debug"@,
        Profile::Release => "release"@,
        Profile::Production => "production"@,
    }
}

impl Profile {
    /// The name of the profile as supplied to the cargo `--profile` cli option.
    pub fn name(&self) -> (r: &'static str)
        ensures
            r@ == profile_name_spec(*self),
    {
        match self {
            Profile::Debug => "dev",
            Profile::Release => "release",
            Profile::Production => "production",
        }
    }

    /// The sub directory within `target` where cargo places the build output.
    ///
    /// Usually this is the same as the profile name, with the exception of
    /// the debug profile, whose directory is `debug` while its name is `dev`.
    pub fn directory(&self) -> (r: &'static str)
        ensures
            r@ == profile_directory_spec(*self),
    {
        match self {
            Profile::Debug => "debug",
            Profile::Release => "release",
            Profile::Production => "production",
        }
    }

    /// Whether the resulting binary should be compacted and compressed.
    pub fn wants_compact(&self) -> (r: bool)
        ensures
            r == (*self != Profile::Debug),
    {
        !matches!(self, Profile::Debug)
    }

    /// Detects the build profile.
    ///
    /// An explicit override is matched case-exactly against the known
    /// profile directory names and taken at face value; an unknown
    /// override is a fatal error. Without an override the profile
    /// directory is inferred from the build path, which always has the
    /// shape `.../target/<profile-dir>/wbuild/...`; an inferred `debug`
    /// is upgraded to `Release`, and an inferred name that matches no
    /// known profile falls back to `Release` with its name reported for
    /// a warning.
    pub fn detect(wasm_project: &str, build_type_override: Option<&String>) -> (r: Result<
        (Profile, Option<String>),
        ProfileError,
    >)
        ensures
            match r {
                Ok(pw) => match build_type_override {
                    Some(name) => profile_of_dir(name@) == Some(pw.0) && pw.1 is None,
                    None => {
                        let inferred = inferred_profile_dir(split_slash(wasm_project@));
                        &&& inferred is Some
                        &&& match profile_of_dir(inferred->0) {
                            Some(p) => pw.0 == (if p == Profile::Debug {
                                Profile::Release
                            } else {
                                p
                            }) && pw.1 is None,
                            None => pw.0 == Profile::Release && pw.1 is Some && pw.1->0@
                                == inferred->0,
                        }
                    },
                },
                Err(e) => match e {
                    ProfileError::UnknownOverride(n) => build_type_override is Some
                        && profile_of_dir(build_type_override->0@) is None && n@
                        == build_type_override->0@,
                    ProfileError::NoProfileInPath => build_type_override is None
                        && inferred_profile_dir(split_slash(wasm_project@)) is None,
                },
            },
    {
        match build_type_override {
            Some(name) => {
                if crate::text::str_eq(name.as_str(), "debug") {
                    Ok((Profile::Debug, None))
                } else if crate::text::str_eq(name.as_str(), "release") {
                    Ok((Profile::Release, None))
                } else if crate::text::str_eq(name.as_str(), "production") {
                    Ok((Profile::Production, None))
                } else {
                    Err(ProfileError::UnknownOverride(name.clone()))
                }
            },
            None => {
                let parts = crate::paths::path_components(wasm_project);
                match crate::paths::scan_profile_dir(&parts) {
                    None => Err(ProfileError::NoProfileInPath),
                    Some(dir) => {
                        if crate::text::str_eq(dir.as_str(), "debug") {
                            Ok((Profile::Release, None))
                        } else if crate::text::str_eq(dir.as_str(), "release") {
                            Ok((Profile::Release, None))
                        } else if crate::text::str_eq(dir.as_str(), "production") {
                            Ok((Profile::Production, None))
                        } else {
                            Ok((Profile::Release, Some(dir)))
                        }
                    },
                }
            },
        }
    }
}

/// The profile whose on-disk directory carries the given name.
pub open spec fn profile_of_dir(d: Seq<char>) -> Option<Profile> {
    if d == "debug"@ {
        Some(Profile::Debug)
    } else if d == "release"@ {
        Some(Profile::Release)
    } else if d == "production"@ {
        Some(Profile::Production)
    } else {
        None
    }
}

/// Why no build profile could be determined.
#[derive(Debug)]
pub enum ProfileError {
    /// An explicitly overridden profile name that matches no known
    /// profile directory: explicit intent that cannot be met is fatal.
    UnknownOverride(String),
    /// The build path holds no component between the `target` and
    /// `wbuild` anchors to infer a profile from.
    NoProfileInPath,
}

} // verus!
