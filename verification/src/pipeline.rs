//! The pipeline itself: reading the guest's name from its manifest,
//! finding the lockfile and the workspace root, planning the synthetic
//! project's files, composing the build invocation, and laying out the
//! post-processing and publishing steps. The thin driver around the
//! library performs the planned file writes and process invocations.

use vstd::prelude::*;
use crate::artifact::{compact_wasm_file, CompactPlan, WasmBinary, WasmBinaryBloaty};
use crate::features::{
    enabled_features_of_package, declares_runtime_wasm, find_package_by_manifest_path,
    found_package, name_match_count, no_manifest_match, some_feature_kept, CrateMetadata,
    MetadataError, Package,
};
use crate::manifest::{
    create_project_cargo_toml, manifest_text, PatchKeyValue, PatchPackage, PatchRegistry,
    PatchRegistryView, ProjectFile,
};
use crate::paths::{
    ancestors_with, inferred_profile_dir, join_slash, set_file_name_spec, split_slash,
    workspace_root_parts,
};
use crate::profile::{profile_name_spec, profile_of_dir, Profile, ProfileError};
use crate::text::{dash_char, strictly_sorted, views_of};
use crate::toolchain::CargoCommandVersioned;

verus! {

/// The recognized configuration knobs, read once at pipeline start and
/// treated as immutable input.
pub struct EnvConfig {
    /// Whether the build must avoid the network.
    pub offline: bool,
    /// An explicit build-type override: `debug`, `release` or
    /// `production`.
    pub build_type_override: Option<String>,
    /// Extra compiler flags appended to the composed ones.
    pub extra_rustflags: Option<String>,
    /// The absolute directory final artifacts are published to.
    pub target_directory: Option<String>,
    /// A hint to the workspace whose lockfile should be mirrored.
    pub workspace_hint: Option<String>,
    /// The build-output directory of the outer build.
    pub out_dir: String,
    /// The feature-activation keys that are marked active.
    pub active_features: Vec<String>,
}

/// Why the pipeline cannot be planned.
#[derive(Debug)]
pub enum PipelineError {
    /// The build-output directory lies under no `build` component, so
    /// the workspace root cannot be found.
    WorkspaceRootNotFound,
    /// The guest manifest text does not parse, or names no package.
    InvalidGuestManifest,
    /// The guest manifest path has no parent directory to use as the
    /// dependency path.
    GuestManifestWithoutParent,
    /// The workspace root manifest text does not parse.
    InvalidWorkspaceManifest,
    /// The package lookup in the metadata failed.
    Metadata(MetadataError),
    /// The build profile could not be determined.
    Profile(ProfileError),
}

/// The `package.name` of a manifest text, when the text parses and names
/// one; a function of the text alone.
pub uninterp spec fn package_name_of(text: Seq<char>) -> Option<Seq<char>>;

/// Relies on `str::parse::<toml::Table>` and the table lookups of the
/// `toml` crate: whether the text parses and holds a `package.name`
/// string, and that name, are functions of the text.
#[verifier::external_body]
fn manifest_package_name(text: &str) -> (r: Option<String>)
    ensures
        r is Some <==> package_name_of(text@) is Some,
        r is Some ==> r->0@ == package_name_of(text@)->0,
{
    let table: toml::Table = text.parse().ok()?;
    let name = table.get("package")?.as_table()?.get("name")?.as_str()?;
    Some(name.to_owned())
}

/// The patch tables of a manifest text, when the text parses: for every
/// table-shaped registry under `patch`, each table-shaped package entry,
/// each of its assignments carried as its key, its value's TOML text,
/// and the plain string when the value is one. Registry or package
/// entries of any other shape — which no cargo manifest validly holds —
/// are left out. A function of the text alone.
pub uninterp spec fn patch_registries_of(text: Seq<char>) -> Option<Seq<PatchRegistryView>>;

/// Relies on `str::parse::<toml::Table>`, the `toml` map iteration and
/// `Value`'s display form: the patch tables are a function of the text.
#[verifier::external_body]
fn workspace_patch_registries(text: &str) -> (r: Option<Vec<PatchRegistry>>)
    ensures
        r is Some <==> patch_registries_of(text@) is Some,
        r is Some ==> crate::manifest::reg_views(r->0@) == patch_registries_of(text@)->0,
{
    let table: toml::Table = text.parse().ok()?;
    let empty = toml::map::Map::new();
    let patch = table.get("patch").and_then(|p| p.as_table()).unwrap_or(&empty);
    Some(patch.iter().filter_map(|(rn, ps)| Some(PatchRegistry {
        name: rn.clone(),
        packages: ps.as_table()?.iter().filter_map(|(pn, es)| Some(PatchPackage {
            name: pn.clone(),
            values: es.as_table()?.iter().map(|(k, v)| PatchKeyValue {
                key: k.clone(),
                value_text: v.to_string(),
                string_value: v.as_str().map(String::from),
            }).collect(),
        })).collect(),
    })).collect())
}

/// Extracts the crate name from the given manifest text.
pub fn get_crate_name(manifest_text: &str) -> (r: Result<String, PipelineError>)
    ensures
        match r {
            Ok(n) => package_name_of(manifest_text@) == Some(n@),
            Err(e) => e is InvalidGuestManifest && package_name_of(manifest_text@) is None,
        },
{
    match manifest_package_name(manifest_text) {
        Some(n) => Ok(n),
        None => Err(PipelineError::InvalidGuestManifest),
    }
}

/// The name of the produced binary: the crate name with dashes turned
/// into underscores.
pub fn get_wasm_binary_name(manifest_text: &str) -> (r: Result<String, PipelineError>)
    ensures
        match r {
            Ok(n) => package_name_of(manifest_text@) is Some && n@ == package_name_of(
                manifest_text@,
            )->0.map_values(|c: char| dash_char(c)),
            Err(e) => e is InvalidGuestManifest && package_name_of(manifest_text@) is None,
        },
{
    let name = get_crate_name(manifest_text)?;
    Ok(crate::text::replace_dashes(name.as_str()))
}

/// The root of the wasm workspace: the parent of the innermost `build`
/// component above the build-output directory.
pub fn get_wasm_workspace_root(out_dir: &str) -> (r: Result<String, PipelineError>)
    ensures
        match r {
            Ok(root) => workspace_root_parts(split_slash(out_dir@)) == Some(split_slash(root@))
                && root@ == join_slash(split_slash(root@)),
            Err(e) => e is WorkspaceRootNotFound && workspace_root_parts(
                split_slash(out_dir@),
            ) is None,
        },
{
    match crate::paths::find_workspace_root(out_dir) {
        Some(root) => Ok(root),
        None => Err(PipelineError::WorkspaceRootNotFound),
    }
}

/// The lockfile locations, in probing order: the hint directory when
/// given, then every ancestor of the build-output directory, then every
/// ancestor of the guest manifest's directory.
pub open spec fn lock_candidates_spec(
    hint: Option<Seq<char>>,
    out_dir: Seq<char>,
    manifest_dir: Seq<char>,
) -> Seq<Seq<char>> {
    (match hint {
        Some(h) => seq![h + "/"@ + "Cargo.lock"@],
        None => Seq::<Seq<char>>::empty(),
    }) + ancestors_with(split_slash(out_dir), "Cargo.lock"@) + ancestors_with(
        split_slash(manifest_dir),
        "Cargo.lock"@,
    )
}

/// Lists the candidate lockfile locations in the order they are probed.
pub fn find_cargo_lock_candidates(
    workspace_hint: Option<&String>,
    out_dir: &str,
    manifest_dir: &str,
) -> (r: Vec<String>)
    ensures
        views_of(r@) == lock_candidates_spec(
            match workspace_hint {
                Some(h) => Some(h@),
                None => None,
            },
            out_dir@,
            manifest_dir@,
        ),
{
    let mut r: Vec<String> = Vec::new();
    match workspace_hint {
        Some(h) => {
            r.push(crate::paths::path_join(h.as_str(), "Cargo.lock"));
        },
        None => {},
    }
    let ghost after_hint = views_of(r@);
    let mut from_out = crate::paths::ancestor_candidates(out_dir, "Cargo.lock");
    let mut from_manifest = crate::paths::ancestor_candidates(manifest_dir, "Cargo.lock");
    proof {
        assert(views_of(r@ + from_out@ + from_manifest@) =~= views_of(r@) + views_of(from_out@)
            + views_of(from_manifest@));
    }
    r.append(&mut from_out);
    r.append(&mut from_manifest);
    proof {
        assert(views_of(r@) =~= lock_candidates_spec(
            match workspace_hint {
                Some(h) => Some(h@),
                None => None,
            },
            out_dir@,
            manifest_dir@,
        ));
    }
    r
}

/// The first candidate that exists, if any: the index of the lockfile
/// that will be mirrored into the synthetic workspace.
pub fn find_cargo_lock(candidates: &Vec<String>, exists: &Vec<bool>) -> (r: Option<usize>)
    requires
        candidates@.len() == exists@.len(),
    ensures
        match r {
            Some(i) => i < exists@.len() && exists@[i as int] && forall|j: int|
                0 <= j < i ==> !exists@[j],
            None => forall|j: int| 0 <= j < exists@.len() ==> !exists@[j],
        },
{
    let mut i: usize = 0;
    while i < exists.len()
        invariant
            i <= exists@.len(),
            forall|j: int| 0 <= j < i ==> !exists@[j],
        decreases exists@.len() - i,
    {
        if exists[i] {
            return Some(i);
        }
        i = i + 1;
    }
    None
}

/// How the metadata query is to be made.
pub struct MetadataPlan {
    /// The manifest the query runs against: the workspace root's when a
    /// lockfile marks one, else the guest's own.
    pub manifest_path: String,
    /// Whether the query must avoid the network.
    pub offline: bool,
    /// Whether the lockfile the query leaves beside the guest manifest
    /// must be removed afterwards: the query may create one, and a file
    /// that did not exist before must not be left behind.
    pub remove_guest_lock_after: bool,
}

/// Plans the metadata query for the guest manifest.
pub fn crate_metadata_plan(
    project_cargo_toml: &str,
    lock_path: Option<&String>,
    guest_lock_exists: bool,
    offline: bool,
) -> (r: MetadataPlan)
    ensures
        r.manifest_path@ == match lock_path {
            Some(l) => set_file_name_spec(l@, "Cargo.toml"@),
            None => project_cargo_toml@,
        },
        r.offline == offline,
        r.remove_guest_lock_after == !guest_lock_exists,
{
    let manifest_path = match lock_path {
        Some(l) => crate::paths::set_file_name(l.as_str(), "Cargo.toml"),
        None => String::from_str(project_cargo_toml),
    };
    MetadataPlan { manifest_path, offline, remove_guest_lock_after: !guest_lock_exists }
}

/// The final feature list of the synthetic project: the resolved enabled
/// features, `runtime-wasm` when the guest declares it, and the forced
/// features, sorted and without duplicates.
pub open spec fn final_features_ok(
    list: Seq<String>,
    pkg: Package,
    active: Seq<Seq<char>>,
    forced: Seq<Seq<char>>,
) -> bool {
    &&& strictly_sorted(views_of(list))
    &&& forall|x: Seq<char>|
        #![trigger views_of(list).contains(x)]
        views_of(list).contains(x) <==> (some_feature_kept(pkg.features@, active, x) || ((
        exists|k: int|
            0 <= k < pkg.features@.len() && (#[trigger] pkg.features@[k]).name@
                == "runtime-wasm"@) && x == "runtime-wasm"@) || forced.contains(x))
}

fn union_features(enabled: &Vec<String>, add_runtime_wasm: bool, forced: &Vec<String>) -> (r: Vec<
    String,
>)
    ensures
        strictly_sorted(views_of(r@)),
        forall|x: Seq<char>|
            views_of(r@).contains(x) <==> (views_of(enabled@).contains(x) || (add_runtime_wasm
                && x == "runtime-wasm"@) || views_of(forced@).contains(x)),
{
    let mut all: Vec<String> = Vec::new();
    let mut e: usize = 0;
    proof {
        assert(views_of(enabled@.take(0)) =~= Seq::<Seq<char>>::empty());
        assert(views_of(all@) =~= Seq::<Seq<char>>::empty());
    }
    while e < enabled.len()
        invariant
            e <= enabled@.len(),
            enabled@ == enabled@,
            views_of(all@) == views_of(enabled@.take(e as int)),
        decreases enabled@.len() - e,
    {
        let ghost prev = all@;
        all.push(enabled[e].clone());
        proof {
            assert(views_of(all@) =~= views_of(prev).push(enabled@[e as int]@));
            assert(views_of(enabled@.take(e as int + 1)) =~= views_of(
                enabled@.take(e as int),
            ).push(enabled@[e as int]@));
        }
        e = e + 1;
    }
    proof {
        assert(enabled@.take(enabled@.len() as int) =~= enabled@);
    }
    if add_runtime_wasm {
        let ghost prev = all@;
        all.push(String::from_str("runtime-wasm"));
        proof {
            assert(views_of(all@) =~= views_of(prev).push("runtime-wasm"@));
        }
    }
    let ghost base = all@;
    let mut i: usize = 0;
    proof {
        assert(views_of(forced@.take(0)) =~= Seq::<Seq<char>>::empty());
    }
    while i < forced.len()
        invariant
            i <= forced@.len(),
            forall|x: Seq<char>|
                views_of(all@).contains(x) <==> (views_of(base).contains(x) || views_of(
                    forced@.take(i as int),
                ).contains(x)),
        decreases forced@.len() - i,
    {
        let ghost prev = all@;
        all.push(forced[i].clone());
        proof {
            assert(views_of(all@) =~= views_of(prev).push(forced@[i as int]@));
            assert(views_of(forced@.take(i as int + 1)) =~= views_of(
                forced@.take(i as int),
            ).push(forced@[i as int]@));
            assert forall|x: Seq<char>| #[trigger] views_of(all@).contains(x) implies (views_of(
                base,
            ).contains(x) || views_of(forced@.take(i as int + 1)).contains(x)) by {
                crate::text::seq_push_contains(views_of(prev), forced@[i as int]@, x);
                crate::text::seq_push_contains(
                    views_of(forced@.take(i as int)),
                    forced@[i as int]@,
                    x,
                );
            }
            assert forall|x: Seq<char>|
                views_of(base).contains(x) || views_of(forced@.take(i as int + 1)).contains(
                    x,
                ) implies #[trigger] views_of(all@).contains(x) by {
                crate::text::seq_push_contains(views_of(prev), forced@[i as int]@, x);
                crate::text::seq_push_contains(
                    views_of(forced@.take(i as int)),
                    forced@[i as int]@,
                    x,
                );
            }
        }
        i = i + 1;
    }
    let r = crate::text::sorted_unique_strings(&all);
    proof {
        assert(views_of(forced@.take(forced@.len() as int)) =~= views_of(forced@));
        if add_runtime_wasm {
            assert forall|x: Seq<char>|
                views_of(base).contains(x) <==> (views_of(enabled@).contains(x) || x
                    == "runtime-wasm"@) by {
                crate::text::seq_push_contains(views_of(enabled@), "runtime-wasm"@, x);
            }
        }
        assert forall|x: Seq<char>|
            views_of(r@).contains(x) <==> (views_of(enabled@).contains(x) || (add_runtime_wasm
                && x == "runtime-wasm"@) || views_of(forced@).contains(x)) by {
            if add_runtime_wasm {
                assert(views_of(base).contains(x) <==> (views_of(enabled@).contains(x) || x
                    == "runtime-wasm"@));
            }
            assert(views_of(all@).contains(x) <==> (views_of(base).contains(x) || views_of(
                forced@.take(forced@.len() as int),
            ).contains(x)));
            assert(views_of(r@).contains(x) <==> views_of(all@).contains(x));
        }
    }
    r
}

/// The final feature list is deterministic too: the resolved features,
/// the `runtime-wasm` addition and the forced features fix its element
/// set, and the sorted duplicate-free form is unique.
pub proof fn lemma_final_features_deterministic(
    a: Seq<String>,
    b: Seq<String>,
    pkg: Package,
    active: Seq<Seq<char>>,
    forced: Seq<Seq<char>>,
)
    requires
        final_features_ok(a, pkg, active, forced),
        final_features_ok(b, pkg, active, forced),
    ensures
        views_of(a) == views_of(b),
{
    assert forall|x: Seq<char>| views_of(a).contains(x) <==> views_of(b).contains(x) by {}
    crate::text::lemma_strictly_sorted_unique(views_of(a), views_of(b));
}

/// The planned synthetic project: where it lives, the files it is made
/// of, and the names and features everything later builds on.
pub struct ProjectPlan {
    /// The project directory inside the wasm workspace.
    pub project_dir: String,
    /// The source directory that must exist before the files are written.
    pub source_dir: String,
    /// The files of the project, relative to the project directory; each
    /// is written only when its content differs.
    pub files: Vec<ProjectFile>,
    /// Where the mirrored lockfile goes, when one was found.
    pub lock_copy_to: Option<String>,
    /// The guest crate's name.
    pub crate_name: String,
    /// The binary name: the crate name with dashes as underscores.
    pub wasm_binary: String,
    /// The resolved, sorted feature list.
    pub enabled_features: Vec<String>,
}

/// Everything the project plan promises, over the planning inputs.
pub open spec fn project_plan_ok(
    plan: ProjectPlan,
    project_cargo_toml: Seq<char>,
    wasm_workspace: Seq<char>,
    guest_manifest_text: Seq<char>,
    metadata: CrateMetadata,
    workspace_manifest_text: Seq<char>,
    forced: Seq<Seq<char>>,
    active: Seq<Seq<char>>,
    lock_found: bool,
) -> bool {
    &&& package_name_of(guest_manifest_text) == Some(plan.crate_name@)
    &&& plan.wasm_binary@ == plan.crate_name@.map_values(|c: char| dash_char(c))
    &&& plan.project_dir@ == wasm_workspace + "/"@ + plan.crate_name@
    &&& plan.source_dir@ == plan.project_dir@ + "/"@ + "src"@
    &&& plan.files@.len() == 2
    &&& plan.files@[0].rel_path@ == "Cargo.toml"@
    &&& plan.files@[0].content@ == manifest_text(
        metadata.workspace_root@,
        plan.crate_name@,
        join_slash(split_slash(project_cargo_toml).drop_last()),
        plan.wasm_binary@,
        views_of(plan.enabled_features@),
        patch_registries_of(workspace_manifest_text)->0,
    )
    &&& plan.files@[1].rel_path@ == "src/lib.rs"@
    &&& plan.files@[1].content@ == "#![no_std] pub use wasm_project::*;"@
    &&& (exists|pkg: Package|
        #[trigger] found_package(
            metadata.packages@,
            plan.crate_name@,
            project_cargo_toml,
            pkg,
        ))
    &&& forall|pkg: Package|
        #[trigger] found_package(metadata.packages@, plan.crate_name@, project_cargo_toml, pkg)
            ==> final_features_ok(plan.enabled_features@, pkg, active, forced)
    &&& match plan.lock_copy_to {
        Some(p) => lock_found && p@ == plan.project_dir@ + "/"@ + "Cargo.lock"@,
        None => !lock_found,
    }
}

/// Plans the synthetic project used to build the guest: its directory
/// inside the wasm workspace, its manifest and library stub, the lockfile
/// mirror target, and the resolved feature list.
pub fn create_project(
    project_cargo_toml: &str,
    wasm_workspace: &str,
    guest_manifest_text: &str,
    metadata: &CrateMetadata,
    workspace_manifest_text: &str,
    features_to_enable: &Vec<String>,
    active_features: &Vec<String>,
    lock_found: bool,
) -> (r: Result<ProjectPlan, PipelineError>)
    ensures
        match r {
            Ok(plan) => project_plan_ok(
                plan,
                project_cargo_toml@,
                wasm_workspace@,
                guest_manifest_text@,
                *metadata,
                workspace_manifest_text@,
                views_of(features_to_enable@),
                views_of(active_features@),
                lock_found,
            ),
            Err(e) => match e {
                PipelineError::InvalidGuestManifest => package_name_of(
                    guest_manifest_text@,
                ) is None,
                PipelineError::GuestManifestWithoutParent => split_slash(
                    project_cargo_toml@,
                ).len() <= 1,
                PipelineError::InvalidWorkspaceManifest => patch_registries_of(
                    workspace_manifest_text@,
                ) is None,
                PipelineError::Metadata(me) => package_name_of(guest_manifest_text@) is Some
                    && match me {
                    MetadataError::PackageNotFound(n) => no_manifest_match(
                        metadata.packages@,
                        project_cargo_toml@,
                    ) && name_match_count(metadata.packages@, n@) == 0 && Some(n@)
                        == package_name_of(guest_manifest_text@),
                    MetadataError::DuplicatePackages(n) => no_manifest_match(
                        metadata.packages@,
                        project_cargo_toml@,
                    ) && name_match_count(metadata.packages@, n@) >= 2 && Some(n@)
                        == package_name_of(guest_manifest_text@),
                },
                _ => false,
            },
        },
{
    let crate_name = get_crate_name(guest_manifest_text)?;
    let wasm_binary = crate::text::replace_dashes(crate_name.as_str());
    let crate_path = match crate::paths::path_parent(project_cargo_toml) {
        Some(p) => p,
        None => {
            return Err(PipelineError::GuestManifestWithoutParent);
        },
    };
    let patches = match workspace_patch_registries(workspace_manifest_text) {
        Some(p) => p,
        None => {
            return Err(PipelineError::InvalidWorkspaceManifest);
        },
    };
    let package = match find_package_by_manifest_path(
        crate_name.as_str(),
        project_cargo_toml,
        metadata,
    ) {
        Ok(p) => p,
        Err(e) => {
            return Err(PipelineError::Metadata(e));
        },
    };
    let enabled = enabled_features_of_package(package, active_features);
    let add_runtime_wasm = declares_runtime_wasm(package);
    let enabled_features = union_features(&enabled, add_runtime_wasm, features_to_enable);
    let project_dir = crate::paths::path_join(wasm_workspace, crate_name.as_str());
    let source_dir = crate::paths::path_join(project_dir.as_str(), "src");
    let manifest_content = create_project_cargo_toml(
        metadata.workspace_root.as_str(),
        crate_name.as_str(),
        crate_path.as_str(),
        wasm_binary.as_str(),
        &enabled_features,
        &patches,
    );
    let mut files: Vec<ProjectFile> = Vec::new();
    files.push(ProjectFile { rel_path: String::from_str("Cargo.toml"), content: manifest_content });
    files.push(
        ProjectFile {
            rel_path: String::from_str("src/lib.rs"),
            content: crate::manifest::project_lib_stub(),
        },
    );
    let lock_copy_to = if lock_found {
        Some(crate::paths::path_join(project_dir.as_str(), "Cargo.lock"))
    } else {
        None
    };
    let plan = ProjectPlan {
        project_dir,
        source_dir,
        files,
        lock_copy_to,
        crate_name,
        wasm_binary,
        enabled_features,
    };
    proof {
        assert forall|pkg: Package|
            #[trigger] found_package(
                metadata.packages@,
                plan.crate_name@,
                project_cargo_toml@,
                pkg,
            ) implies final_features_ok(
            plan.enabled_features@,
            pkg,
            views_of(active_features@),
            views_of(features_to_enable@),
        ) by {
            crate::features::lemma_found_package_unique(
                metadata.packages@,
                plan.crate_name@,
                project_cargo_toml@,
                pkg,
                *package,
            );
        }
        assert(plan.files@[0].content@ == manifest_text(
            metadata.workspace_root@,
            plan.crate_name@,
            join_slash(split_slash(project_cargo_toml@).drop_last()),
            plan.wasm_binary@,
            views_of(plan.enabled_features@),
            patch_registries_of(workspace_manifest_text@)->0,
        ));
        assert(match plan.lock_copy_to {
            Some(p) => lock_found && p@ == plan.project_dir@ + "/"@ + "Cargo.lock"@,
            None => !lock_found,
        });
    }
    Ok(plan)
}

/// The composed compiler flags: the baseline floor (minimum target
/// micro-architecture, the sign-extension feature disabled, the export
/// table requested), then the caller's defaults, then the user extension;
/// later entries override earlier ones by ordinary flag precedence.
pub open spec fn rustflags_spec(default_rustflags: Seq<char>, extra: Option<Seq<char>>) -> Seq<
    char,
> {
    "-C target-cpu=mvp -C target-feature=-sign-ext -C link-arg=--export-table "@
        + default_rustflags + " "@ + (match extra {
        Some(e) => e,
        None => Seq::<char>::empty(),
    })
}

/// The build invocation's arguments for a project and profile.
pub open spec fn build_args_spec(project: Seq<char>, profile: Profile, offline: bool) -> Seq<
    Seq<char>,
> {
    let base = seq![
        "rustc"@,
        "--target=wasm32-unknown-unknown"@,
        "--manifest-path="@ + project + "/Cargo.toml"@,
        "--profile"@,
        profile_name_spec(profile),
    ];
    if offline {
        base.push("--offline"@)
    } else {
        base
    }
}

/// How the toolchain is to be invoked for the guest build, and how its
/// environment must be shaped.
pub struct BuildPlan {
    /// The program to run.
    pub program: String,
    /// Its arguments, in order.
    pub args: Vec<String>,
    /// The composed compiler flags, handed over in the flags variable.
    pub rustflags: String,
    /// Variables to remove for the nested invocation: the output
    /// directory variable, whose exclusive lock the nested build would
    /// otherwise deadlock on, and the pre-encoded flags variable, which
    /// would take precedence over the composed flags.
    pub unset_vars: Vec<String>,
    /// The guard variable, set so the pipeline does not invoke itself.
    pub guard_var: (String, String),
    /// The resolved profile.
    pub profile: Profile,
    /// The unrecognized inferred profile name, when the resolution fell
    /// back to the release profile; to be reported as a warning.
    pub profile_warning: Option<String>,
}

/// Everything the build plan promises, over the planning inputs.
pub open spec fn build_plan_ok(
    plan: BuildPlan,
    project: Seq<char>,
    default_rustflags: Seq<char>,
    cargo_program: Seq<char>,
    build_type_override: Option<Seq<char>>,
    extra_rustflags: Option<Seq<char>>,
    offline: bool,
) -> bool {
    &&& plan.program@ == cargo_program
    &&& views_of(plan.args@) == build_args_spec(project, plan.profile, offline)
    &&& plan.rustflags@ == rustflags_spec(default_rustflags, extra_rustflags)
    &&& views_of(plan.unset_vars@) == seq!["CARGO_TARGET_DIR"@, "CARGO_ENCODED_RUSTFLAGS"@]
    &&& plan.guard_var.0@ == "SKIP_WASM_BUILD"@
    &&& plan.guard_var.1@ == ""@
    &&& match build_type_override {
        Some(name) => profile_of_dir(name) == Some(plan.profile) && plan.profile_warning
            is None,
        None => {
            let inferred = inferred_profile_dir(split_slash(project));
            &&& inferred is Some
            &&& match profile_of_dir(inferred->0) {
                Some(p) => plan.profile == (if p == Profile::Debug {
                    Profile::Release
                } else {
                    p
                }) && plan.profile_warning is None,
                None => plan.profile == Profile::Release && plan.profile_warning is Some
                    && plan.profile_warning->0@ == inferred->0,
            }
        },
    }
}

/// Composes the build invocation: the flags in fixed order, the argument
/// list with the resolved profile and the offline switch, and the
/// environment shape for the nested invocation.
pub fn build_project(
    project: &str,
    default_rustflags: &str,
    cargo_cmd: &CargoCommandVersioned,
    env: &EnvConfig,
) -> (r: Result<BuildPlan, PipelineError>)
    ensures
        match r {
            Ok(plan) => build_plan_ok(
                plan,
                project@,
                default_rustflags@,
                cargo_cmd.command_spec(),
                match env.build_type_override {
                    Some(n) => Some(n@),
                    None => None,
                },
                match env.extra_rustflags {
                    Some(e) => Some(e@),
                    None => None,
                },
                env.offline,
            ),
            Err(e) => match e {
                PipelineError::Profile(pe) => match pe {
                    ProfileError::UnknownOverride(n) => env.build_type_override is Some
                        && profile_of_dir(env.build_type_override->0@) is None && n@
                        == env.build_type_override->0@,
                    ProfileError::NoProfileInPath => env.build_type_override is None
                        && inferred_profile_dir(split_slash(project@)) is None,
                },
                _ => false,
            },
        },
{
    let (profile, profile_warning) = match Profile::detect(
        project,
        env.build_type_override.as_ref(),
    ) {
        Ok(pw) => pw,
        Err(e) => {
            return Err(PipelineError::Profile(e));
        },
    };
    let mut rustflags = String::from_str(
        "-C target-cpu=mvp -C target-feature=-sign-ext -C link-arg=--export-table ",
    );
    rustflags.append(default_rustflags);
    rustflags.append(" ");
    match &env.extra_rustflags {
        Some(e) => rustflags.append(e.as_str()),
        None => {},
    }
    let mut args: Vec<String> = Vec::new();
    args.push(String::from_str("rustc"));
    args.push(String::from_str("--target=wasm32-unknown-unknown"));
    let mut manifest_arg = String::from_str("--manifest-path=");
    manifest_arg.append(project);
    manifest_arg.append("/Cargo.toml");
    args.push(manifest_arg);
    args.push(String::from_str("--profile"));
    args.push(String::from_str(profile.name()));
    if env.offline {
        args.push(String::from_str("--offline"));
    }
    let mut unset_vars: Vec<String> = Vec::new();
    unset_vars.push(String::from_str("CARGO_TARGET_DIR"));
    unset_vars.push(String::from_str("CARGO_ENCODED_RUSTFLAGS"));
    let plan = BuildPlan {
        program: String::from_str(cargo_cmd.command().program()),
        args,
        rustflags,
        unset_vars,
        guard_var: (String::from_str("SKIP_WASM_BUILD"), String::new()),
        profile,
        profile_warning,
    };
    proof {
        assert(views_of(plan.args@) =~= build_args_spec(project@, plan.profile, env.offline));
        assert(plan.rustflags@ =~= rustflags_spec(
            default_rustflags@,
            match env.extra_rustflags {
                Some(e) => Some(e@),
                None => None,
            },
        ));
        assert(views_of(plan.unset_vars@) =~= seq![
            "CARGO_TARGET_DIR"@,
            "CARGO_ENCODED_RUSTFLAGS"@,
        ]);
        reveal_strlit("");
        assert(plan.guard_var.1@ =~= ""@);
    }
    Ok(plan)
}

/// The whole planned run: the synthetic project, the build invocation,
/// and the post-processing paths.
pub struct PipelinePlan {
    /// The wasm workspace: `<workspace root>/wbuild`.
    pub wasm_workspace: String,
    /// The synthetic project.
    pub project: ProjectPlan,
    /// The build invocation.
    pub build: BuildPlan,
    /// The post-processing paths.
    pub compact: CompactPlan,
    /// Whether the produced binary must carry the reserved metadata
    /// section.
    pub check_for_runtime_version_section: bool,
}

/// Plans the whole run: creates the project plan inside the wasm
/// workspace derived from the build-output directory, composes the build
/// invocation, and lays out the post-processing paths.
pub fn create_and_compile(
    project_cargo_toml: &str,
    default_rustflags: &str,
    cargo_cmd: &CargoCommandVersioned,
    features_to_enable: &Vec<String>,
    wasm_binary_name: Option<&String>,
    check_for_runtime_version_section: bool,
    env: &EnvConfig,
    guest_manifest_text: &str,
    metadata: &CrateMetadata,
    workspace_manifest_text: &str,
    lock_found: bool,
) -> (r: Result<PipelinePlan, PipelineError>)
    ensures
        match r {
            Ok(p) => {
                &&& workspace_root_parts(split_slash(env.out_dir@)) is Some
                &&& p.wasm_workspace@ == join_slash(
                    workspace_root_parts(split_slash(env.out_dir@))->0,
                ) + "/"@ + "wbuild"@
                &&& project_plan_ok(
                    p.project,
                    project_cargo_toml@,
                    p.wasm_workspace@,
                    guest_manifest_text@,
                    *metadata,
                    workspace_manifest_text@,
                    views_of(features_to_enable@),
                    views_of(env.active_features@),
                    lock_found,
                )
                &&& build_plan_ok(
                    p.build,
                    p.project.project_dir@,
                    default_rustflags@,
                    cargo_cmd.command_spec(),
                    match env.build_type_override {
                        Some(n) => Some(n@),
                        None => None,
                    },
                    match env.extra_rustflags {
                        Some(e) => Some(e@),
                        None => None,
                    },
                    env.offline,
                )
                &&& ({
                    let name = match wasm_binary_name {
                        Some(n) => n@,
                        None => p.project.wasm_binary@,
                    };
                    &&& p.compact.in_path@ == crate::artifact::raw_output_path_spec(
                        p.project.project_dir@,
                        p.build.profile,
                        p.project.wasm_binary@,
                    )
                    &&& p.compact.bloaty_path@ == p.project.project_dir@ + "/"@ + name
                        + ".wasm"@
                    &&& p.build.profile != Profile::Debug ==> p.compact.compact_path is Some
                        && p.compact.compact_path->0@ == p.project.project_dir@ + "/"@ + name
                        + ".compact.wasm"@
                    &&& p.build.profile != Profile::Debug ==> p.compact.compressed_path is Some
                        && p.compact.compressed_path->0@ == p.project.project_dir@ + "/"@
                        + name + ".compact.compressed.wasm"@
                    &&& p.build.profile == Profile::Debug ==> p.compact.compact_path is None
                        && p.compact.compressed_path is None
                })
                &&& p.check_for_runtime_version_section == check_for_runtime_version_section
            },
            Err(e) => match e {
                PipelineError::WorkspaceRootNotFound => workspace_root_parts(
                    split_slash(env.out_dir@),
                ) is None,
                PipelineError::InvalidGuestManifest => package_name_of(
                    guest_manifest_text@,
                ) is None,
                PipelineError::GuestManifestWithoutParent => split_slash(
                    project_cargo_toml@,
                ).len() <= 1,
                PipelineError::InvalidWorkspaceManifest => patch_registries_of(
                    workspace_manifest_text@,
                ) is None,
                PipelineError::Metadata(me) => package_name_of(guest_manifest_text@) is Some
                    && no_manifest_match(metadata.packages@, project_cargo_toml@) && match me {
                    MetadataError::PackageNotFound(n) => name_match_count(
                        metadata.packages@,
                        n@,
                    ) == 0 && Some(n@) == package_name_of(guest_manifest_text@),
                    MetadataError::DuplicatePackages(n) => name_match_count(
                        metadata.packages@,
                        n@,
                    ) >= 2 && Some(n@) == package_name_of(guest_manifest_text@),
                },
                PipelineError::Profile(pe) => match pe {
                    ProfileError::UnknownOverride(n) => env.build_type_override is Some
                        && profile_of_dir(env.build_type_override->0@) is None && n@
                        == env.build_type_override->0@,
                    ProfileError::NoProfileInPath => env.build_type_override is None
                        && workspace_root_parts(split_slash(env.out_dir@)) is Some
                        && package_name_of(guest_manifest_text@) is Some
                        && inferred_profile_dir(
                        split_slash(
                            join_slash(workspace_root_parts(split_slash(env.out_dir@))->0)
                                + "/"@ + "wbuild"@ + "/"@ + package_name_of(
                                guest_manifest_text@,
                            )->0,
                        ),
                    ) is None,
                },
            },
        },
{
    let wasm_workspace_root = get_wasm_workspace_root(env.out_dir.as_str())?;
    let wasm_workspace = crate::paths::path_join(wasm_workspace_root.as_str(), "wbuild");
    let project = create_project(
        project_cargo_toml,
        wasm_workspace.as_str(),
        guest_manifest_text,
        metadata,
        workspace_manifest_text,
        features_to_enable,
        &env.active_features,
        lock_found,
    )?;
    let build = build_project(project.project_dir.as_str(), default_rustflags, cargo_cmd, env)?;
    let compact = compact_wasm_file(
        project.project_dir.as_str(),
        &build.profile,
        project.wasm_binary.as_str(),
        wasm_binary_name,
    );
    Ok(
        PipelinePlan {
            wasm_workspace,
            project,
            build,
            compact,
            check_for_runtime_version_section,
        },
    )
}

/// The artifacts once the external steps ran: the bloaty binary always;
/// the compact binary exactly when the plan asked the optimizer for one;
/// the compressed binary exactly when planned and actually written.
pub fn conclude_artifacts(plan: &CompactPlan, compressed_written: bool) -> (r: (
    Option<WasmBinary>,
    Option<WasmBinary>,
    WasmBinaryBloaty,
))
    ensures
        r.2.path_spec() == plan.bloaty_path@,
        match plan.compact_path {
            Some(p) => r.0 is Some && r.0->0.path_spec() == p@,
            None => r.0 is None,
        },
        (plan.compressed_path is Some && compressed_written) ==> r.1 is Some
            && r.1->0.path_spec() == plan.compressed_path->0@,
        (plan.compressed_path is None || !compressed_written) ==> r.1 is None,
{
    let compact = match &plan.compact_path {
        Some(p) => Some(WasmBinary::new(p.clone())),
        None => None,
    };
    let compressed = if compressed_written {
        match &plan.compressed_path {
            Some(p) => Some(WasmBinary::new(p.clone())),
            None => None,
        }
    } else {
        None
    };
    (compact, compressed, WasmBinaryBloaty::new(plan.bloaty_path.clone()))
}

/// The derived output directory for a standalone run: inside the
/// manifest directory's target tree, under the given profile, with a
/// random suffix keeping concurrent runs apart.
pub fn wasm_out_dir(manifest_dir: &str, profile_name: &str, pkg_name: &str, random_suffix: &str)
    -> (r: String)
    ensures
        r@ == manifest_dir@ + "/target/"@ + profile_name@ + "/build/"@ + pkg_name@ + "-"@
            + random_suffix@ + "/out"@,
{
    let mut r = String::from_str(manifest_dir);
    r.append("/target/");
    r.append(profile_name);
    r.append("/build/");
    r.append(pkg_name);
    r.append("-");
    r.append(random_suffix);
    r.append("/out");
    r
}

/// The default compiler flags of a standalone benchmarking run: the heap
/// base exported and the memory imported.
pub fn default_bench_rustflags() -> (r: String)
    ensures
        r@ == "-Clink-arg=--export=__heap_base -C link-arg=--import-memory"@,
{
    String::from_str("-Clink-arg=--export=__heap_base -C link-arg=--import-memory")
}

} // verus!
