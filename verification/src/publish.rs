//! Publishing the final artifact: a no-op unless a target directory is
//! configured, which must then be absolute.

use vstd::prelude::*;
use crate::artifact::WasmBinary;

verus! {

/// One copy that the publishing stage performs.
pub struct PublishCopy {
    pub from: String,
    pub to: String,
}

/// Why publishing failed.
#[derive(Debug)]
pub enum PublishError {
    /// The configured target directory is not an absolute path.
    TargetDirectoryNotAbsolute(String),
}

/// Decides the publish step for one binary: nothing when no target
/// directory is configured; a fatal error when the configured directory
/// is not absolute; otherwise the copy of the binary to
/// `<directory>/<name>.wasm`.
pub fn copy_wasm_to_target_directory(
    target_directory: Option<&String>,
    wasm_binary_name: &str,
    wasm_binary: &WasmBinary,
) -> (r: Result<Option<PublishCopy>, PublishError>)
    ensures
        match r {
            Ok(c) => match c {
                Some(copy) => target_directory is Some && ({
                    let dir = target_directory->0@;
                    &&& dir.len() > 0 && dir[0] == '/'
                    &&& copy.from@ == wasm_binary.path_spec()
                    &&& copy.to@ == dir + "/"@ + wasm_binary_name@ + ".wasm"@
                }),
                None => target_directory is None,
            },
            Err(e) => match e {
                PublishError::TargetDirectoryNotAbsolute(d) => target_directory is Some && !(
                target_directory->0@.len() > 0 && target_directory->0@[0] == '/') && d@
                    == target_directory->0@,
            },
        },
{
    let dir = match target_directory {
        Some(d) => d,
        None => {
            return Ok(None);
        },
    };
    if !crate::paths::path_is_absolute(dir.as_str()) {
        return Err(PublishError::TargetDirectoryNotAbsolute(dir.clone()));
    }
    let mut file_name = String::from_str(wasm_binary_name);
    file_name.append(".wasm");
    let to = crate::paths::path_join(dir.as_str(), file_name.as_str());
    proof {
        assert(to@ =~= target_directory->0@ + "/"@ + wasm_binary_name@ + ".wasm"@);
    }
    Ok(Some(PublishCopy { from: String::from_str(wasm_binary.wasm_binary_path()), to }))
}

} // verus!
