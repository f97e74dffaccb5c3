//! The produced binary artifacts: their derived paths, the compression
//! step under the bomb guard, and the selection of the final artifact.

use vstd::prelude::*;
use crate::profile::{profile_directory_spec, Profile};
use crate::text::escape_chars;

verus! {

/// Holds the path to the bloaty WASM binary.
pub struct WasmBinaryBloaty(String);

impl WasmBinaryBloaty {
    /// The held path.
    pub closed spec fn path_spec(&self) -> Seq<char> {
        self.0@
    }

    pub fn new(path: String) -> (r: Self)
        ensures
            r.path_spec() == path@,
    {
        WasmBinaryBloaty(path)
    }

    /// Returns the escaped path to the bloaty wasm binary, fit for
    /// embedding as a string literal in generated code.
    pub fn wasm_binary_bloaty_path_escaped(&self) -> (r: String)
        ensures
            r@ == escape_chars(self.path_spec()),
    {
        crate::text::escape_default_string(self.0.as_str())
    }

    /// Returns the path to the wasm binary.
    pub fn wasm_binary_bloaty_path(&self) -> (r: &str)
        ensures
            r@ == self.path_spec(),
    {
        self.0.as_str()
    }
}

/// Holds the path to the WASM binary.
pub struct WasmBinary(String);

impl WasmBinary {
    /// The held path.
    pub closed spec fn path_spec(&self) -> Seq<char> {
        self.0@
    }

    pub fn new(path: String) -> (r: Self)
        ensures
            r.path_spec() == path@,
    {
        WasmBinary(path)
    }

    /// Returns the path to the wasm binary.
    pub fn wasm_binary_path(&self) -> (r: &str)
        ensures
            r@ == self.path_spec(),
    {
        self.0.as_str()
    }

    /// Returns the escaped path to the wasm binary, fit for embedding as
    /// a string literal in generated code.
    pub fn wasm_binary_path_escaped(&self) -> (r: String)
        ensures
            r@ == escape_chars(self.path_spec()),
    {
        crate::text::escape_default_string(self.0.as_str())
    }
}

/// The compressed form of a blob: a fixed magic prefix followed by the
/// compressed stream, a function of the blob alone.
pub uninterp spec fn compress_of(data: Seq<u8>) -> Seq<u8>;

/// The bomb guard: the largest decompressed size the sandbox accepts.
pub open spec fn bomb_limit_spec() -> int {
    52428800
}

/// Relies on `sp_maybe_compressed_blob::CODE_BLOB_BOMB_LIMIT`: the
/// recommended bomb limit for code blobs, fifty mebibytes.
#[verifier::external_body]
fn code_blob_bomb_limit() -> (r: usize)
    ensures
        r == bomb_limit_spec(),
{
    sp_maybe_compressed_blob::CODE_BLOB_BOMB_LIMIT
}

/// Relies on `sp_maybe_compressed_blob::compress_weakly`: a compressed
/// result is a function of the blob alone. Success is deliberately not
/// promised: besides its own size guard (which the verified caller has
/// already ruled out here), the compressor surfaces an encoder resource
/// failure as `None` too, so a success promise would claim more than its
/// source shows.
#[verifier::external_body]
fn compress_blob(data: &Vec<u8>, bomb_limit: usize) -> (r: Option<Vec<u8>>)
    requires
        data@.len() <= bomb_limit,
    ensures
        r is Some ==> r->0@ == compress_of(data@),
{
    sp_maybe_compressed_blob::compress_weakly(data, bomb_limit)
}

/// Compresses the compact binary's bytes under the bomb guard. A binary
/// over the guard is never compressed — the guard is this library's own
/// skip rule, checked here — and the compact binary then remains the
/// best available artifact. Within the guard, a `None` can come only
/// from the outside encoder itself (a resource failure it reports as
/// `None`), which no contract on the call can exclude.
pub fn compress_wasm(data: &Vec<u8>) -> (r: Option<Vec<u8>>)
    ensures
        data@.len() > bomb_limit_spec() ==> r is None,
        r is Some ==> data@.len() <= bomb_limit_spec() && r->0@ == compress_of(data@),
{
    let limit = code_blob_bomb_limit();
    if data.len() > limit {
        return None;
    }
    compress_blob(data, limit)
}

/// Where the post-processing stage reads and writes its binaries.
pub struct CompactPlan {
    /// The raw toolchain output.
    pub in_path: String,
    /// The stable path the raw output is always copied to.
    pub bloaty_path: String,
    /// The compacted binary, for compaction-eligible profiles.
    pub compact_path: Option<String>,
    /// The compressed binary, for compaction-eligible profiles.
    pub compressed_path: Option<String>,
}

/// The raw toolchain output path for a project and profile.
pub open spec fn raw_output_path_spec(
    project: Seq<char>,
    profile: Profile,
    default_out_name: Seq<char>,
) -> Seq<char> {
    project + "/target/wasm32-unknown-unknown/"@ + profile_directory_spec(profile) + "/"@
        + default_out_name + ".wasm"@
}

/// Computes the binary paths of the post-processing stage: the raw
/// toolchain output, the stable bloaty copy, and, when the profile wants
/// compaction, the compact and compressed paths.
pub fn compact_wasm_file(
    project: &str,
    profile: &Profile,
    default_out_name: &str,
    out_name: Option<&String>,
) -> (r: CompactPlan)
    ensures
        ({
            let name = match out_name {
                Some(n) => n@,
                None => default_out_name@,
            };
            &&& r.in_path@ == raw_output_path_spec(project@, *profile, default_out_name@)
            &&& r.bloaty_path@ == project@ + "/"@ + name + ".wasm"@
            &&& *profile != Profile::Debug ==> r.compact_path is Some && r.compact_path->0@
                == project@ + "/"@ + name + ".compact.wasm"@
            &&& *profile != Profile::Debug ==> r.compressed_path is Some && r.compressed_path->0@
                == project@ + "/"@ + name + ".compact.compressed.wasm"@
            &&& *profile == Profile::Debug ==> r.compact_path is None && r.compressed_path
                is None
        }),
{
    let name: String = match out_name {
        Some(n) => n.clone(),
        None => String::from_str(default_out_name),
    };
    let mut in_path = String::from_str(project);
    in_path.append("/target/wasm32-unknown-unknown/");
    in_path.append(profile.directory());
    in_path.append("/");
    in_path.append(default_out_name);
    in_path.append(".wasm");
    let mut bloaty_path = String::from_str(project);
    bloaty_path.append("/");
    bloaty_path.append(name.as_str());
    bloaty_path.append(".wasm");
    let (compact_path, compressed_path) = if profile.wants_compact() {
        let mut compact = String::from_str(project);
        compact.append("/");
        compact.append(name.as_str());
        compact.append(".compact.wasm");
        let mut compressed = String::from_str(project);
        compressed.append("/");
        compressed.append(name.as_str());
        compressed.append(".compact.compressed.wasm");
        (Some(compact), Some(compressed))
    } else {
        (None, None)
    };
    CompactPlan { in_path, bloaty_path, compact_path, compressed_path }
}

/// The final artifact: the compressed binary when it exists, else the
/// compact one, else none. A compact artifact is never shadowed by the
/// bloaty one.
pub fn final_wasm_binary(compact: Option<WasmBinary>, compressed: Option<WasmBinary>) -> (r:
    Option<WasmBinary>)
    ensures
        compressed is Some ==> r == compressed,
        compressed is None ==> r == compact,
{
    match compressed {
        Some(c) => Some(c),
        None => compact,
    }
}

} // verus!
