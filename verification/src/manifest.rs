//! Rendering of the synthetic workspace manifest: one package wrapping
//! the guest as its sole dependency, the three build profiles, and the
//! guest workspace's patch tables with relative paths made absolute.
//! Also the write-if-changed decisions that keep workspace writes
//! idempotent across repeated and concurrent runs.

use vstd::prelude::*;
use crate::text::{hex_digits, push_char, views_of};

verus! {

/// How a character appears inside a TOML basic string: quote and
/// backslash get a backslash form, the common control characters their
/// short escapes, other control characters and delete a `\u` escape, and
/// everything else stands as itself.
pub open spec fn toml_escape_char(c: char) -> Seq<char> {
    if c == '"' {
        "\\\""@
    } else if c == '\\' {
        "\\\\"@
    } else if c == '\n' {
        "\\n"@
    } else if c == '\t' {
        "\\t"@
    } else if c == '\r' {
        "\\r"@
    } else if (c as u32) < 0x20 || (c as u32) == 0x7f {
        "\\u00"@ + (if (c as u32) < 0x10 {
            seq!['0']
        } else {
            Seq::<char>::empty()
        }) + hex_digits(c as u32)
    } else {
        seq![c]
    }
}

/// A whole character sequence under TOML basic-string escaping.
pub open spec fn toml_escape_chars(s: Seq<char>) -> Seq<char>
    decreases s.len(),
{
    if s.len() == 0 {
        Seq::empty()
    } else {
        toml_escape_char(s[0]) + toml_escape_chars(s.drop_first())
    }
}

proof fn lemma_toml_escape_chars_push(s: Seq<char>, c: char)
    ensures
        toml_escape_chars(s.push(c)) =~= toml_escape_chars(s) + toml_escape_char(c),
    decreases s.len(),
{
    if s.len() == 0 {
        assert(s.push(c)[0] == c);
        assert(s.push(c).drop_first() =~= Seq::<char>::empty());
        assert(toml_escape_chars(s.push(c)) == toml_escape_char(c) + toml_escape_chars(
            s.push(c).drop_first(),
        ));
        assert(toml_escape_chars(s.push(c).drop_first()) =~= Seq::<char>::empty());
        assert(toml_escape_char(c) + Seq::<char>::empty() =~= Seq::<char>::empty()
            + toml_escape_char(c));
    } else {
        assert(s.push(c)[0] == s[0]);
        assert(s.push(c).drop_first() =~= s.drop_first().push(c));
        lemma_toml_escape_chars_push(s.drop_first(), c);
        assert(toml_escape_chars(s.push(c)) == toml_escape_char(s[0]) + toml_escape_chars(
            s.drop_first().push(c),
        ));
        assert(toml_escape_char(s[0]) + (toml_escape_chars(s.drop_first()) + toml_escape_char(
            c,
        )) =~= (toml_escape_char(s[0]) + toml_escape_chars(s.drop_first())) + toml_escape_char(
            c,
        ));
    }
}

/// Appends `t` under TOML basic-string escaping.
fn push_toml_escaped(out: &mut String, t: &str)
    ensures
        final(out)@ == old(out)@ + toml_escape_chars(t@),
{
    let len = t.unicode_len();
    let mut i: usize = 0;
    proof {
        assert(t@.take(0) =~= Seq::<char>::empty());
        assert(old(out)@ + Seq::<char>::empty() =~= old(out)@);
    }
    while i < len
        invariant
            i <= len,
            len == t@.len(),
            out@ == old(out)@ + toml_escape_chars(t@.take(i as int)),
        decreases len - i,
    {
        let c = t.get_char(i);
        let u = c as u32;
        let ghost prev = out@;
        if c == '"' {
            out.append("\\\"");
        } else if c == '\\' {
            out.append("\\\\");
        } else if c == '\n' {
            out.append("\\n");
        } else if c == '\t' {
            out.append("\\t");
        } else if c == '\r' {
            out.append("\\r");
        } else if u < 0x20 || u == 0x7f {
            out.append("\\u00");
            if u < 0x10 {
                push_char(out, '0');
            }
            crate::text::push_hex_digits(out, u);
            proof {
                assert(out@ =~= prev + toml_escape_char(t@[i as int]));
            }
        } else {
            push_char(out, c);
            proof {
                assert(prev.push(c) =~= prev + seq![c]);
            }
        }
        proof {
            assert(t@.take(i as int + 1) =~= t@.take(i as int).push(t@[i as int]));
            lemma_toml_escape_chars_push(t@.take(i as int), t@[i as int]);
            assert(out@ =~= old(out)@ + toml_escape_chars(t@.take(i as int + 1)));
        }
        i = i + 1;
    }
    proof {
        assert(t@.take(len as int) =~= t@);
    }
}

/// Appends `t` as a TOML basic string, quotes included.
fn push_toml_quoted(out: &mut String, t: &str)
    ensures
        final(out)@ == old(out)@ + toml_quoted(t@),
{
    out.append("\"");
    push_toml_escaped(out, t);
    out.append("\"");
    proof {
        assert(final(out)@ =~= old(out)@ + toml_quoted(t@));
    }
}

/// A TOML basic string: the escaped characters between quotes.
pub open spec fn toml_quoted(s: Seq<char>) -> Seq<char> {
    "\""@ + toml_escape_chars(s) + "\""@
}

/// The items of a TOML string array, separated by `, `, each quoted.
pub open spec fn array_items_text(names: Seq<Seq<char>>) -> Seq<char>
    decreases names.len(),
{
    if names.len() == 0 {
        Seq::empty()
    } else if names.len() == 1 {
        toml_quoted(names[0])
    } else {
        array_items_text(names.drop_last()) + ", "@ + toml_quoted(names.last())
    }
}

/// A TOML array of strings.
pub open spec fn array_text(names: Seq<Seq<char>>) -> Seq<char> {
    "["@ + array_items_text(names) + "]"@
}

/// Appends the names as a TOML array of strings.
fn push_string_array(out: &mut String, names: &Vec<String>)
    ensures
        final(out)@ == old(out)@ + array_text(views_of(names@)),
{
    out.append("[");
    let mut i: usize = 0;
    while i < names.len()
        invariant
            i <= names@.len(),
            out@ == old(out)@ + "["@ + array_items_text(views_of(names@).take(i as int)),
        decreases names@.len() - i,
    {
        if i > 0 {
            out.append(", ");
        }
        push_toml_quoted(out, names[i].as_str());
        proof {
            let nv = views_of(names@);
            assert(nv.take(i as int + 1).drop_last() =~= nv.take(i as int));
            assert(nv.take(i as int + 1).last() == nv[i as int]);
            if i == 0 {
                assert(nv.take(1).len() == 1);
                assert(array_items_text(nv.take(1)) == toml_quoted(nv[0]));
                assert(out@ =~= old(out)@ + "["@ + array_items_text(nv.take(i as int + 1)));
            } else {
                assert(out@ =~= old(out)@ + "["@ + array_items_text(nv.take(i as int + 1)));
            }
        }
        i = i + 1;
    }
    out.append("]");
    proof {
        assert(views_of(names@).take(names@.len() as int) =~= views_of(names@));
        assert(final(out)@ =~= old(out)@ + array_text(views_of(names@)));
    }
}

/// One key-to-value assignment inside a patch table, the value rendered
/// as TOML text. When the value is a TOML string, it is also carried
/// plainly, so that a relative path can be recognized and rewritten.
pub struct PatchKeyValue {
    pub key: String,
    pub value_text: String,
    pub string_value: Option<String>,
}

/// One patched package and its assignments.
pub struct PatchPackage {
    pub name: String,
    pub values: Vec<PatchKeyValue>,
}

/// One patched registry and its packages.
pub struct PatchRegistry {
    pub name: String,
    pub packages: Vec<PatchPackage>,
}

/// The mathematical value of one patch assignment.
pub ghost struct PatchValueView {
    pub key: Seq<char>,
    pub value_text: Seq<char>,
    pub string_value: Option<Seq<char>>,
}

/// The mathematical value of one patched package.
pub ghost struct PatchPackageView {
    pub name: Seq<char>,
    pub values: Seq<PatchValueView>,
}

/// The mathematical value of one patched registry.
pub ghost struct PatchRegistryView {
    pub name: Seq<char>,
    pub packages: Seq<PatchPackageView>,
}

impl View for PatchKeyValue {
    type V = PatchValueView;

    open spec fn view(&self) -> PatchValueView {
        PatchValueView {
            key: self.key@,
            value_text: self.value_text@,
            string_value: match self.string_value {
                Some(s) => Some(s@),
                None => None,
            },
        }
    }
}

/// The views of a sequence of patch assignments.
pub open spec fn kv_views(s: Seq<PatchKeyValue>) -> Seq<PatchValueView> {
    s.map_values(|kv: PatchKeyValue| kv@)
}

impl View for PatchPackage {
    type V = PatchPackageView;

    open spec fn view(&self) -> PatchPackageView {
        PatchPackageView { name: self.name@, values: kv_views(self.values@) }
    }
}

/// The views of a sequence of patched packages.
pub open spec fn pkg_views(s: Seq<PatchPackage>) -> Seq<PatchPackageView> {
    s.map_values(|p: PatchPackage| p@)
}

impl View for PatchRegistry {
    type V = PatchRegistryView;

    open spec fn view(&self) -> PatchRegistryView {
        PatchRegistryView { name: self.name@, packages: pkg_views(self.packages@) }
    }
}

/// The views of a sequence of patched registries.
pub open spec fn reg_views(s: Seq<PatchRegistry>) -> Seq<PatchRegistryView> {
    s.map_values(|r: PatchRegistry| r@)
}

/// The rendered value of a patch assignment: a `path` value that is a
/// relative string is made absolute from the workspace root; every other
/// value keeps its original TOML text.
pub open spec fn patch_value_text(root: Seq<char>, kv: PatchValueView) -> Seq<char> {
    if kv.key == "path"@ && kv.string_value is Some && !(kv.string_value->0.len() > 0
        && kv.string_value->0[0] == '/') {
        toml_quoted(root + "/"@ + kv.string_value->0)
    } else {
        kv.value_text
    }
}

/// One `key = value` line of a patch table.
pub open spec fn patch_line_text(root: Seq<char>, kv: PatchValueView) -> Seq<char> {
    kv.key + " = "@ + patch_value_text(root, kv) + "\n"@
}

/// The lines of one patch table.
pub open spec fn patch_lines_text(root: Seq<char>, kvs: Seq<PatchValueView>) -> Seq<char>
    decreases kvs.len(),
{
    if kvs.len() == 0 {
        Seq::empty()
    } else {
        patch_lines_text(root, kvs.drop_last()) + patch_line_text(root, kvs.last())
    }
}

/// One patch table: its header naming registry and package, then its
/// assignment lines and a blank line.
pub open spec fn patch_package_text(root: Seq<char>, reg: Seq<char>, pkg: PatchPackageView) -> Seq<
    char,
> {
    "[patch."@ + toml_quoted(reg) + "."@ + toml_quoted(pkg.name) + "]\n"@ + patch_lines_text(
        root,
        pkg.values,
    ) + "\n"@
}

/// The patch tables of one registry.
pub open spec fn patch_registry_text(root: Seq<char>, reg: PatchRegistryView) -> Seq<char> {
    patch_packages_text(root, reg.name, reg.packages)
}

/// The patch tables for a list of packages of one registry.
pub open spec fn patch_packages_text(
    root: Seq<char>,
    reg: Seq<char>,
    pkgs: Seq<PatchPackageView>,
) -> Seq<char>
    decreases pkgs.len(),
{
    if pkgs.len() == 0 {
        Seq::empty()
    } else {
        patch_packages_text(root, reg, pkgs.drop_last()) + patch_package_text(
            root,
            reg,
            pkgs.last(),
        )
    }
}

/// All patch tables of all registries.
pub open spec fn patch_tables_text(root: Seq<char>, regs: Seq<PatchRegistryView>) -> Seq<char>
    decreases regs.len(),
{
    if regs.len() == 0 {
        Seq::empty()
    } else {
        patch_tables_text(root, regs.drop_last()) + patch_registry_text(root, regs.last())
    }
}

fn push_patch_lines(out: &mut String, root: &str, kvs: &Vec<PatchKeyValue>)
    ensures
        final(out)@ == old(out)@ + patch_lines_text(root@, kv_views(kvs@)),
{
    let mut i: usize = 0;
    proof {
        assert(old(out)@ + Seq::<char>::empty() =~= old(out)@);
        assert(kv_views(kvs@.take(0)) =~= Seq::<PatchValueView>::empty());
    }
    while i < kvs.len()
        invariant
            i <= kvs@.len(),
            out@ == old(out)@ + patch_lines_text(root@, kv_views(kvs@.take(i as int))),
        decreases kvs@.len() - i,
    {
        let kv = &kvs[i];
        let ghost prev = out@;
        out.append(kv.key.as_str());
        out.append(" = ");
        let rewrite: bool = if crate::text::str_eq(kv.key.as_str(), "path") {
            match &kv.string_value {
                Some(s) => !crate::paths::path_is_absolute(s.as_str()),
                None => false,
            }
        } else {
            false
        };
        if rewrite {
            let joined = match &kv.string_value {
                Some(s) => crate::paths::path_join(root, s.as_str()),
                None => String::new(),
            };
            push_toml_quoted(out, joined.as_str());
        } else {
            out.append(kv.value_text.as_str());
        }
        out.append("\n");
        proof {
            let kvv = kvs@[i as int]@;
            assert(rewrite == (kvv.key == "path"@ && kvv.string_value is Some && !(
            kvv.string_value->0.len() > 0 && kvv.string_value->0[0] == '/')));
            assert(out@ =~= prev + patch_line_text(root@, kvv));
            assert(kv_views(kvs@.take(i as int + 1)).drop_last() =~= kv_views(
                kvs@.take(i as int),
            ));
            assert(kv_views(kvs@.take(i as int + 1)).last() == kvv);
            assert(out@ =~= old(out)@ + patch_lines_text(
                root@,
                kv_views(kvs@.take(i as int + 1)),
            ));
        }
        i = i + 1;
    }
    proof {
        assert(kv_views(kvs@.take(kvs@.len() as int)) =~= kv_views(kvs@));
    }
}

fn push_patch_tables(out: &mut String, root: &str, patches: &Vec<PatchRegistry>)
    ensures
        final(out)@ == old(out)@ + patch_tables_text(root@, reg_views(patches@)),
{
    let mut i: usize = 0;
    proof {
        assert(old(out)@ + Seq::<char>::empty() =~= old(out)@);
        assert(reg_views(patches@.take(0)) =~= Seq::<PatchRegistryView>::empty());
    }
    while i < patches.len()
        invariant
            i <= patches@.len(),
            out@ == old(out)@ + patch_tables_text(root@, reg_views(patches@.take(i as int))),
        decreases patches@.len() - i,
    {
        let reg = &patches[i];
        let ghost prev = out@;
        let mut j: usize = 0;
        proof {
            assert(prev + Seq::<char>::empty() =~= prev);
            assert(pkg_views(reg.packages@.take(0)) =~= Seq::<PatchPackageView>::empty());
        }
        while j < reg.packages.len()
            invariant
                j <= reg.packages@.len(),
                reg == &patches@[i as int],
                0 <= i < patches@.len(),
                out@ == prev + patch_packages_text(
                    root@,
                    patches@[i as int].name@,
                    pkg_views(reg.packages@.take(j as int)),
                ),
            decreases reg.packages@.len() - j,
        {
            let pkg = &reg.packages[j];
            let ghost before_pkg = out@;
            out.append("[patch.");
            push_toml_quoted(out, reg.name.as_str());
            out.append(".");
            push_toml_quoted(out, pkg.name.as_str());
            out.append("]\n");
            push_patch_lines(out, root, &pkg.values);
            out.append("\n");
            proof {
                assert(out@ =~= before_pkg + patch_package_text(
                    root@,
                    patches@[i as int].name@,
                    reg.packages@[j as int]@,
                ));
                assert(pkg_views(reg.packages@.take(j as int + 1)).drop_last() =~= pkg_views(
                    reg.packages@.take(j as int),
                ));
                assert(pkg_views(reg.packages@.take(j as int + 1)).last() == reg.packages@[
                    j as int
                ]@);
                assert(out@ =~= prev + patch_packages_text(
                    root@,
                    patches@[i as int].name@,
                    pkg_views(reg.packages@.take(j as int + 1)),
                ));
            }
            j = j + 1;
        }
        proof {
            assert(pkg_views(reg.packages@.take(reg.packages@.len() as int)) =~= pkg_views(
                reg.packages@,
            ));
            assert(out@ =~= prev + patch_registry_text(root@, patches@[i as int]@));
            assert(reg_views(patches@.take(i as int + 1)).drop_last() =~= reg_views(
                patches@.take(i as int),
            ));
            assert(reg_views(patches@.take(i as int + 1)).last() == patches@[i as int]@);
            assert(out@ =~= old(out)@ + patch_tables_text(
                root@,
                reg_views(patches@.take(i as int + 1)),
            ));
        }
        i = i + 1;
    }
    proof {
        assert(reg_views(patches@.take(patches@.len() as int)) =~= reg_views(patches@));
    }
}

/// The full content of the synthetic workspace manifest.
pub open spec fn manifest_text(
    root: Seq<char>,
    crate_name: Seq<char>,
    crate_path: Seq<char>,
    wasm_binary: Seq<char>,
    feats: Seq<Seq<char>>,
    patches: Seq<PatchRegistryView>,
) -> Seq<char> {
    "[package]\nname = "@ + toml_quoted(crate_name + "-wasm"@) + "\nversion = \"1.0.0\"\nedition = \"2021\"\n\n[lib]\nname = "@
        + toml_quoted(wasm_binary)
        + "\ncrate-type = [\"cdylib\"]\n\n[dependencies.wasm-project]\npackage = "@
        + toml_quoted(crate_name) + "\npath = "@ + toml_quoted(crate_path)
        + "\ndefault-features = false\nfeatures = "@ + array_text(feats)
        + "\n\n[profile.release]\npanic = \"abort\"\nlto = \"thin\"\n\n[profile.production]\ninherits = \"release\"\nlto = \"fat\"\ncodegen-units = 1\n\n[profile.dev]\npanic = \"abort\"\n\n"@
        + patch_tables_text(root, patches) + "[workspace]\n"@
}

/// Renders the synthetic workspace manifest: the wrapper package named
/// `<crate_name>-wasm`, a library section naming the target binary, one
/// path dependency on the guest with default features disabled and the
/// resolved feature list, the three build profiles, and the guest
/// workspace's patch tables with relative paths made absolute from the
/// workspace root.
pub fn create_project_cargo_toml(
    workspace_root_path: &str,
    crate_name: &str,
    crate_path: &str,
    wasm_binary: &str,
    enabled_features: &Vec<String>,
    patches: &Vec<PatchRegistry>,
) -> (r: String)
    ensures
        r@ == manifest_text(
            workspace_root_path@,
            crate_name@,
            crate_path@,
            wasm_binary@,
            views_of(enabled_features@),
            reg_views(patches@),
        ),
{
    let mut out = String::new();
    out.append("[package]\nname = ");
    let mut full_name = String::from_str(crate_name);
    full_name.append("-wasm");
    push_toml_quoted(&mut out, full_name.as_str());
    out.append("\nversion = \"1.0.0\"\nedition = \"2021\"\n\n[lib]\nname = ");
    push_toml_quoted(&mut out, wasm_binary);
    out.append("\ncrate-type = [\"cdylib\"]\n\n[dependencies.wasm-project]\npackage = ");
    push_toml_quoted(&mut out, crate_name);
    out.append("\npath = ");
    push_toml_quoted(&mut out, crate_path);
    out.append("\ndefault-features = false\nfeatures = ");
    push_string_array(&mut out, enabled_features);
    out.append(
        "\n\n[profile.release]\npanic = \"abort\"\nlto = \"thin\"\n\n[profile.production]\ninherits = \"release\"\nlto = \"fat\"\ncodegen-units = 1\n\n[profile.dev]\npanic = \"abort\"\n\n",
    );
    push_patch_tables(&mut out, workspace_root_path, patches);
    out.append("[workspace]\n");
    proof {
        assert(out@ =~= manifest_text(
            workspace_root_path@,
            crate_name@,
            crate_path@,
            wasm_binary@,
            views_of(enabled_features@),
            reg_views(patches@),
        ));
    }
    out
}

/// The stub library source of the synthetic workspace: it re-exports the
/// guest so that the guest's exported functions reach the binary.
pub fn project_lib_stub() -> (r: String)
    ensures
        r@ == "#![no_std] pub use wasm_project::*;"@,
{
    String::from_str("#![no_std] pub use wasm_project::*;")
}

/// One file of a generated project: where it goes, relative to the
/// project directory, and what it holds.
pub struct ProjectFile {
    pub rel_path: String,
    pub content: String,
}

/// A file write is needed exactly when the file does not already hold
/// the desired content.
pub open spec fn write_needed(current: Option<Seq<char>>, desired: Seq<char>) -> bool {
    !(current is Some && current->0 == desired)
}

/// Whether a file write is needed: only when the current content (if the
/// file is readable at all) differs from the desired content. Writing
/// only on change keeps repeated and concurrent runs from invalidating
/// each other's build caches.
pub fn file_write_needed(current: Option<&String>, desired: &str) -> (r: bool)
    ensures
        r == write_needed(
            match current {
                Some(c) => Some(c@),
                None => None,
            },
            desired@,
        ),
{
    match current {
        Some(c) => !crate::text::str_eq(c.as_str(), desired),
        None => true,
    }
}

/// Idempotent synthesis: rendering the manifest from identical inputs
/// always gives identical content, so once a file holds the rendered
/// manifest, a second synthesis from the same inputs needs no write and
/// leaves the file's content and modification state unchanged.
pub proof fn lemma_manifest_write_idempotent(
    root: Seq<char>,
    crate_name: Seq<char>,
    crate_path: Seq<char>,
    wasm_binary: Seq<char>,
    feats: Seq<Seq<char>>,
    patches: Seq<PatchRegistryView>,
)
    ensures
        !write_needed(
            Some(manifest_text(root, crate_name, crate_path, wasm_binary, feats, patches)),
            manifest_text(root, crate_name, crate_path, wasm_binary, feats, patches),
        ),
{
}

/// Whether a copy is needed: only when source and destination contents
/// (each absent when unreadable) differ.
pub fn file_copy_needed(src: Option<&String>, dst: Option<&String>) -> (r: bool)
    ensures
        r == !(match (src, dst) {
            (Some(s), Some(d)) => s@ == d@,
            (None, None) => true,
            _ => false,
        }),
{
    match (src, dst) {
        (Some(s), Some(d)) => !crate::text::str_eq(s.as_str(), d.as_str()),
        (None, None) => false,
        _ => true,
    }
}

} // verus!
