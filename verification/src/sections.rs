//! Verification of the produced binary: the module must parse, and it
//! must carry the reserved metadata section that the sandbox reads the
//! runtime version from.

use vstd::prelude::*;
use crate::text::views_of;

verus! {

/// Whether the bytes parse as a module of the binary format.
pub uninterp spec fn wasm_parse_ok(data: Seq<u8>) -> bool;

/// The names of a parsed module's custom sections, in order; a function
/// of the bytes alone.
pub uninterp spec fn custom_section_names_of(data: Seq<u8>) -> Seq<Seq<char>>;

/// Relies on `parity_wasm::elements::deserialize_buffer` and
/// `Module::custom_sections`: whether the bytes parse, and the names of
/// the parsed module's custom sections, are functions of the bytes.
#[verifier::external_body]
fn module_custom_section_names(data: &Vec<u8>) -> (r: Option<Vec<String>>)
    ensures
        r is Some <==> wasm_parse_ok(data@),
        r is Some ==> views_of(r->0@) == custom_section_names_of(data@),
{
    let module: parity_wasm::elements::Module =
        match parity_wasm::elements::deserialize_buffer(data) {
            Ok(m) => m,
            Err(_) => {
                return None;
            },
        };
    Some(module.custom_sections().map(|cs| cs.name().to_string()).collect())
}

/// Why the produced binary failed verification.
#[derive(Debug, PartialEq, Eq, Structural)]
pub enum SectionCheckError {
    /// The binary does not parse as a module.
    Deserialize,
    /// The reserved `runtime_version` metadata section is absent. The
    /// guest must embed it through its declared version attribute.
    MissingRuntimeVersion,
}

/// Ensures that the `runtime_version` section exists in the given binary:
/// an unparseable module and an absent section are both reported, each as
/// its own error.
pub fn ensure_runtime_version_wasm_section_exists(data: &Vec<u8>) -> (r: Result<
    (),
    SectionCheckError,
>)
    ensures
        match r {
            Ok(_) => wasm_parse_ok(data@) && custom_section_names_of(data@).contains(
                "runtime_version"@,
            ),
            Err(e) => match e {
                SectionCheckError::Deserialize => !wasm_parse_ok(data@),
                SectionCheckError::MissingRuntimeVersion => wasm_parse_ok(data@)
                    && !custom_section_names_of(data@).contains("runtime_version"@),
            },
        },
{
    let names = match module_custom_section_names(data) {
        Some(n) => n,
        None => {
            return Err(SectionCheckError::Deserialize);
        },
    };
    if crate::text::contains_string(&names, "runtime_version") {
        Ok(())
    } else {
        Err(SectionCheckError::MissingRuntimeVersion)
    }
}

} // verus!
