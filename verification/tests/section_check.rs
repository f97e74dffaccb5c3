use wasm_bencher::sections::{ensure_runtime_version_wasm_section_exists, SectionCheckError};

fn wasm_header() -> Vec<u8> {
    vec![0x00, 0x61, 0x73, 0x6d, 0x01, 0x00, 0x00, 0x00]
}

fn with_custom_section(name: &str, payload: &[u8]) -> Vec<u8> {
    let mut bytes = wasm_header();
    let name_bytes = name.as_bytes();
    let body_len = 1 + name_bytes.len() + payload.len();
    assert!(name_bytes.len() < 0x80 && body_len < 0x80);
    bytes.push(0x00); // custom section id
    bytes.push(body_len as u8);
    bytes.push(name_bytes.len() as u8);
    bytes.extend_from_slice(name_bytes);
    bytes.extend_from_slice(payload);
    bytes
}

#[test]
fn module_with_the_section_passes() {
    let bytes = with_custom_section("runtime_version", b"\x01");
    assert_eq!(ensure_runtime_version_wasm_section_exists(&bytes), Ok(()));
}

#[test]
fn module_without_the_section_fails() {
    let bytes = wasm_header();
    assert_eq!(
        ensure_runtime_version_wasm_section_exists(&bytes),
        Err(SectionCheckError::MissingRuntimeVersion)
    );
}

#[test]
fn module_with_another_section_still_fails() {
    let bytes = with_custom_section("something_else", b"");
    assert_eq!(
        ensure_runtime_version_wasm_section_exists(&bytes),
        Err(SectionCheckError::MissingRuntimeVersion)
    );
}

#[test]
fn unparseable_bytes_fail_with_their_own_error() {
    let bytes = vec![0xde, 0xad, 0xbe, 0xef];
    assert_eq!(
        ensure_runtime_version_wasm_section_exists(&bytes),
        Err(SectionCheckError::Deserialize)
    );
}
