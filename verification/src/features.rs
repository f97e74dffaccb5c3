//! The guest package's metadata as plain values, package lookup, and the
//! resolution of the feature set enabled for the guest build.

use vstd::prelude::*;
use crate::text::{env_char, strictly_sorted, views_of};

verus! {

/// One declared feature of a package: its name and the list of things
/// that activating it enables (other features, or `dep:`-prefixed
/// optional dependencies).
pub struct FeatureEntry {
    pub name: String,
    pub activates: Vec<String>,
}

/// One package of the guest's dependency graph.
pub struct Package {
    pub name: String,
    pub manifest_path: String,
    pub features: Vec<FeatureEntry>,
}

/// The guest crate's metadata: its packages and the workspace root path.
pub struct CrateMetadata {
    pub packages: Vec<Package>,
    pub workspace_root: String,
}

/// Why a package lookup in the metadata failed.
#[derive(Debug)]
pub enum MetadataError {
    /// No package entry exists for the given name.
    PackageNotFound(String),
    /// Several package entries share the given name, so the lookup by
    /// name is ambiguous.
    DuplicatePackages(String),
}

/// The first package whose manifest path equals `manifest` stands at `i`.
pub open spec fn manifest_match_at(pkgs: Seq<Package>, manifest: Seq<char>, i: int) -> bool {
    &&& 0 <= i < pkgs.len()
    &&& pkgs[i].manifest_path@ == manifest
    &&& forall|j: int| 0 <= j < i ==> pkgs[j].manifest_path@ != manifest
}

/// No package carries the given manifest path.
pub open spec fn no_manifest_match(pkgs: Seq<Package>, manifest: Seq<char>) -> bool {
    forall|i: int| 0 <= i < pkgs.len() ==> pkgs[i].manifest_path@ != manifest
}

/// How many packages carry the given name.
pub open spec fn name_match_count(pkgs: Seq<Package>, name: Seq<char>) -> nat
    decreases pkgs.len(),
{
    if pkgs.len() == 0 {
        0
    } else {
        name_match_count(pkgs.drop_last(), name) + if pkgs.last().name@ == name {
            1nat
        } else {
            0nat
        }
    }
}

/// The package that a lookup by manifest path, with a fallback to a
/// unique name match, finds.
pub open spec fn found_package(
    pkgs: Seq<Package>,
    pkg_name: Seq<char>,
    manifest: Seq<char>,
    pkg: Package,
) -> bool {
    ||| exists|i: int| #[trigger] manifest_match_at(pkgs, manifest, i) && pkg == pkgs[i]
    ||| {
        &&& no_manifest_match(pkgs, manifest)
        &&& name_match_count(pkgs, pkg_name) == 1
        &&& exists|i: int|
            0 <= i < pkgs.len() && (#[trigger] pkgs[i]).name@ == pkg_name && pkg == pkgs[i]
    }
}

/// Finds a package by its manifest path; in case none carries it, falls
/// back to finding it by name, which must then be unique. The fallback
/// serves packaging flows that generate a manifest at a fresh path.
pub fn find_package_by_manifest_path<'a>(
    pkg_name: &str,
    manifest_path: &str,
    metadata: &'a CrateMetadata,
) -> (r: Result<&'a Package, MetadataError>)
    ensures
        match r {
            Ok(pkg) => found_package(metadata.packages@, pkg_name@, manifest_path@, *pkg),
            Err(e) => match e {
                MetadataError::PackageNotFound(n) => no_manifest_match(
                    metadata.packages@,
                    manifest_path@,
                ) && name_match_count(metadata.packages@, pkg_name@) == 0 && n@ == pkg_name@,
                MetadataError::DuplicatePackages(n) => no_manifest_match(
                    metadata.packages@,
                    manifest_path@,
                ) && name_match_count(metadata.packages@, pkg_name@) >= 2 && n@ == pkg_name@,
            },
        },
{
    let pkgs = &metadata.packages;
    let n = pkgs.len();
    let mut i: usize = 0;
    while i < n
        invariant
            i <= n,
            n == pkgs@.len(),
            pkgs@ == metadata.packages@,
            forall|j: int| 0 <= j < i ==> pkgs@[j].manifest_path@ != manifest_path@,
        decreases n - i,
    {
        if crate::text::str_eq(pkgs[i].manifest_path.as_str(), manifest_path) {
            let p = &pkgs[i];
            proof {
                assert(manifest_match_at(pkgs@, manifest_path@, i as int) && *p == pkgs@[
                    i as int
                ]);
            }
            return Ok(p);
        }
        i = i + 1;
    }
    // No manifest match: fall back to a unique name match.
    let mut count: usize = 0;
    let mut first: usize = 0;
    let mut j: usize = 0;
    proof {
        assert(pkgs@.take(0) =~= Seq::<Package>::empty());
    }
    while j < n
        invariant
            j <= n,
            n == pkgs@.len(),
            count == name_match_count(pkgs@.take(j as int), pkg_name@),
            count <= j,
            count > 0 ==> first < j && pkgs@[first as int].name@ == pkg_name@,
        decreases n - j,
    {
        proof {
            assert(pkgs@.take(j as int + 1).drop_last() =~= pkgs@.take(j as int));
            assert(pkgs@.take(j as int + 1).last() == pkgs@[j as int]);
        }
        if crate::text::str_eq(pkgs[j].name.as_str(), pkg_name) {
            if count == 0 {
                first = j;
            }
            count = count + 1;
        }
        j = j + 1;
    }
    proof {
        assert(pkgs@.take(n as int) =~= pkgs@);
    }
    if count == 1 {
        Ok(&pkgs[first])
    } else if count == 0 {
        Err(MetadataError::PackageNotFound(String::from_str(pkg_name)))
    } else {
        Err(MetadataError::DuplicatePackages(String::from_str(pkg_name)))
    }
}

proof fn lemma_take_name_count_le(pkgs: Seq<Package>, name: Seq<char>, k: int)
    requires
        0 <= k <= pkgs.len(),
    ensures
        name_match_count(pkgs.take(k), name) <= name_match_count(pkgs, name),
    decreases pkgs.len(),
{
    if k < pkgs.len() {
        assert(pkgs.drop_last().take(k) =~= pkgs.take(k));
        lemma_take_name_count_le(pkgs.drop_last(), name, k);
    } else {
        assert(pkgs.take(k) =~= pkgs);
    }
}

proof fn lemma_two_name_matches(pkgs: Seq<Package>, name: Seq<char>, i: int, j: int)
    requires
        0 <= i < j < pkgs.len(),
        pkgs[i].name@ == name,
        pkgs[j].name@ == name,
    ensures
        name_match_count(pkgs, name) >= 2,
{
    assert(pkgs.take(j + 1).drop_last() =~= pkgs.take(j));
    assert(pkgs.take(j + 1).last() == pkgs[j]);
    assert(pkgs.take(i + 1).drop_last() =~= pkgs.take(i));
    assert(pkgs.take(i + 1).last() == pkgs[i]);
    assert(pkgs.take(j).take(i + 1) =~= pkgs.take(i + 1));
    lemma_take_name_count_le(pkgs.take(j), name, i + 1);
    lemma_take_name_count_le(pkgs, name, j + 1);
}

/// Only one package value can come out of the lookup.
pub proof fn lemma_found_package_unique(
    pkgs: Seq<Package>,
    pkg_name: Seq<char>,
    manifest: Seq<char>,
    a: Package,
    b: Package,
)
    requires
        found_package(pkgs, pkg_name, manifest, a),
        found_package(pkgs, pkg_name, manifest, b),
    ensures
        a == b,
{
    if exists|i: int| #[trigger] manifest_match_at(pkgs, manifest, i) && a == pkgs[i] {
        let i = choose|i: int| #[trigger] manifest_match_at(pkgs, manifest, i) && a == pkgs[i];
        assert(pkgs[i].manifest_path@ == manifest);
        if exists|j: int| #[trigger] manifest_match_at(pkgs, manifest, j) && b == pkgs[j] {
            let j = choose|j: int|
                #[trigger] manifest_match_at(pkgs, manifest, j) && b == pkgs[j];
            if i < j {
                assert(pkgs[i].manifest_path@ != manifest);
            } else if j < i {
                assert(pkgs[j].manifest_path@ != manifest);
            }
        }
    } else {
        assert(no_manifest_match(pkgs, manifest));
        if exists|j: int| #[trigger] manifest_match_at(pkgs, manifest, j) && b == pkgs[j] {
            let j = choose|j: int|
                #[trigger] manifest_match_at(pkgs, manifest, j) && b == pkgs[j];
            assert(pkgs[j].manifest_path@ != manifest);
        }
        let i = choose|i: int|
            0 <= i < pkgs.len() && (#[trigger] pkgs[i]).name@ == pkg_name && a == pkgs[i];
        let j = choose|j: int|
            0 <= j < pkgs.len() && (#[trigger] pkgs[j]).name@ == pkg_name && b == pkgs[j];
        if i < j {
            lemma_two_name_matches(pkgs, pkg_name, i, j);
        } else if j < i {
            lemma_two_name_matches(pkgs, pkg_name, j, i);
        }
    }
}

/// The activation list of the first feature named `std`, if any.
pub open spec fn std_activates_of(features: Seq<FeatureEntry>) -> Option<Seq<Seq<char>>>
    decreases features.len(),
{
    if features.len() == 0 {
        None
    } else if features[0].name@ == "std"@ {
        Some(views_of(features[0].activates@))
    } else {
        std_activates_of(features.drop_first())
    }
}

/// The documented heuristic: a feature that maps to exactly one optional
/// dependency of its own name and is also activated by `std` is taken to
/// exist only for `std`'s sake, and is not enabled separately. This works
/// around a packaging system without namespaced features; its exact
/// behaviour is kept on purpose.
pub open spec fn dep_only_std_implied(e: FeatureEntry, std_acts: Option<Seq<Seq<char>>>) -> bool {
    &&& e.activates@.len() == 1
    &&& e.activates@[0]@ == "dep:"@ + e.name@
    &&& std_acts is Some
    &&& std_acts->0.contains(e.name@)
}

/// The environment key suffix under which a feature's activation is
/// reported: dashes to underscores, ASCII letters uppercased.
pub open spec fn env_name_of(name: Seq<char>) -> Seq<char> {
    name.map_values(|c: char| env_char(c))
}

/// Whether a declared feature belongs to the enabled set: it is neither
/// `std` nor `default`, it is marked active in the environment, and the
/// `std`-implied-dependency heuristic does not exclude it.
pub open spec fn feature_kept(
    e: FeatureEntry,
    std_acts: Option<Seq<Seq<char>>>,
    active_env: Seq<Seq<char>>,
) -> bool {
    &&& !dep_only_std_implied(e, std_acts)
    &&& e.name@ != "std"@
    &&& e.name@ != "default"@
    &&& active_env.contains(env_name_of(e.name@))
}

/// Some feature of the package carries the name `x` and is kept.
pub open spec fn some_feature_kept(
    features: Seq<FeatureEntry>,
    active_env: Seq<Seq<char>>,
    x: Seq<char>,
) -> bool {
    exists|k: int|
        0 <= k < features.len() && (#[trigger] features[k]).name@ == x && feature_kept(
            features[k],
            std_activates_of(features),
            active_env,
        )
}

/// The enabled feature list is exactly the kept feature names of the
/// package, sorted and without duplicates.
pub open spec fn enabled_features_ok(
    list: Seq<String>,
    pkg: Package,
    active_env: Seq<Seq<char>>,
) -> bool {
    &&& strictly_sorted(views_of(list))
    &&& forall|x: Seq<char>|
        views_of(list).contains(x) <==> some_feature_kept(pkg.features@, active_env, x)
}

fn find_std_index(features: &Vec<FeatureEntry>) -> (r: Option<usize>)
    ensures
        match r {
            Some(i) => i < features@.len() && features@[i as int].name@ == "std"@
                && std_activates_of(features@) == Some(
                views_of(features@[i as int].activates@),
            ),
            None => std_activates_of(features@) is None,
        },
{
    let mut i: usize = 0;
    proof {
        assert(features@.skip(0) =~= features@);
    }
    while i < features.len()
        invariant
            i <= features@.len(),
            forall|k: int| 0 <= k < i ==> (#[trigger] features@[k]).name@ != "std"@,
            std_activates_of(features@) == std_activates_of(features@.skip(i as int)),
        decreases features@.len() - i,
    {
        proof {
            assert(features@.skip(i as int)[0] == features@[i as int]);
            assert(features@.skip(i as int).drop_first() =~= features@.skip(i as int + 1));
        }
        if crate::text::str_eq(features[i].name.as_str(), "std") {
            return Some(i);
        }
        i = i + 1;
    }
    proof {
        assert(features@.skip(i as int).len() == 0);
    }
    None
}

/// Resolves the feature set to enable for the guest build: every feature
/// the package declares that the environment marks active, except `std`,
/// `default`, and those the `std`-implied-dependency heuristic excludes;
/// sorted and without duplicates.
pub fn project_enabled_features(
    pkg_name: &str,
    cargo_manifest: &str,
    metadata: &CrateMetadata,
    active_env: &Vec<String>,
) -> (r: Result<Vec<String>, MetadataError>)
    ensures
        match r {
            Ok(list) => (exists|pkg: Package|
                #[trigger] found_package(
                    metadata.packages@,
                    pkg_name@,
                    cargo_manifest@,
                    pkg,
                )) && forall|pkg: Package|
                #[trigger] found_package(metadata.packages@, pkg_name@, cargo_manifest@, pkg)
                    ==> enabled_features_ok(list@, pkg, views_of(active_env@)),
            Err(e) => match e {
                MetadataError::PackageNotFound(n) => no_manifest_match(
                    metadata.packages@,
                    cargo_manifest@,
                ) && name_match_count(metadata.packages@, pkg_name@) == 0 && n@ == pkg_name@,
                MetadataError::DuplicatePackages(n) => no_manifest_match(
                    metadata.packages@,
                    cargo_manifest@,
                ) && name_match_count(metadata.packages@, pkg_name@) >= 2 && n@ == pkg_name@,
            },
        },
{
    let package = match find_package_by_manifest_path(pkg_name, cargo_manifest, metadata) {
        Ok(p) => p,
        Err(e) => {
            return Err(e);
        },
    };
    let list = enabled_features_of_package(package, active_env);
    proof {
        assert forall|pkg: Package|
            #[trigger] found_package(
                metadata.packages@,
                pkg_name@,
                cargo_manifest@,
                pkg,
            ) implies enabled_features_ok(list@, pkg, views_of(active_env@)) by {
            lemma_found_package_unique(
                metadata.packages@,
                pkg_name@,
                cargo_manifest@,
                pkg,
                *package,
            );
        }
    }
    Ok(list)
}

/// The enabled-feature computation for one already looked-up package.
pub fn enabled_features_of_package(package: &Package, active_env: &Vec<String>) -> (list: Vec<
    String,
>)
    ensures
        enabled_features_ok(list@, *package, views_of(active_env@)),
{
    let features = &package.features;
    let std_idx = find_std_index(features);
    let mut kept: Vec<String> = Vec::new();
    let mut i: usize = 0;
    while i < features.len()
        invariant
            i <= features@.len(),
            std_idx matches Some(s) ==> s < features@.len() && std_activates_of(features@)
                == Some(views_of(features@[s as int].activates@)),
            std_idx is None ==> std_activates_of(features@) is None,
            forall|x: Seq<char>|
                views_of(kept@).contains(x) <==> exists|k: int|
                    0 <= k < i && (#[trigger] features@[k]).name@ == x && feature_kept(
                        features@[k],
                        std_activates_of(features@),
                        views_of(active_env@),
                    ),
        decreases features@.len() - i,
    {
        let e = &features[i];
        let dep_excluded: bool = if e.activates.len() == 1 {
            let mut expected = String::from_str("dep:");
            expected.append(e.name.as_str());
            if crate::text::str_eq(e.activates[0].as_str(), expected.as_str()) {
                match std_idx {
                    Some(s) => crate::text::contains_string(
                        &features[s].activates,
                        e.name.as_str(),
                    ),
                    None => false,
                }
            } else {
                false
            }
        } else {
            false
        };
        let is_std = crate::text::str_eq(e.name.as_str(), "std");
        let is_default = crate::text::str_eq(e.name.as_str(), "default");
        let env_key = crate::text::feature_env_name(e.name.as_str());
        let is_active = crate::text::contains_string(active_env, env_key.as_str());
        proof {
            assert(dep_excluded == dep_only_std_implied(
                features@[i as int],
                std_activates_of(features@),
            ));
        }
        if !dep_excluded && !is_std && !is_default && is_active {
            let ghost prev = kept@;
            kept.push(e.name.clone());
            proof {
                assert(views_of(kept@) =~= views_of(prev).push(features@[i as int].name@));
                assert forall|x: Seq<char>| views_of(kept@).contains(x) implies exists|k: int|
                    0 <= k < i + 1 && (#[trigger] features@[k]).name@ == x && feature_kept(
                        features@[k],
                        std_activates_of(features@),
                        views_of(active_env@),
                    ) by {
                    crate::text::seq_push_contains(
                        views_of(prev),
                        features@[i as int].name@,
                        x,
                    );
                    if x == features@[i as int].name@ {
                        assert(features@[i as int].name@ == x && feature_kept(
                            features@[i as int],
                            std_activates_of(features@),
                            views_of(active_env@),
                        ));
                    }
                }
                assert forall|x: Seq<char>|
                    (exists|k: int|
                        0 <= k < i + 1 && (#[trigger] features@[k]).name@ == x && feature_kept(
                            features@[k],
                            std_activates_of(features@),
                            views_of(active_env@),
                        )) implies views_of(kept@).contains(x) by {
                    crate::text::seq_push_contains(
                        views_of(prev),
                        features@[i as int].name@,
                        x,
                    );
                }
            }
        } else {
            proof {
                assert forall|x: Seq<char>|
                    (exists|k: int|
                        0 <= k < i + 1 && (#[trigger] features@[k]).name@ == x && feature_kept(
                            features@[k],
                            std_activates_of(features@),
                            views_of(active_env@),
                        )) implies views_of(kept@).contains(x) by {
                    let k = choose|k: int|
                        0 <= k < i + 1 && (#[trigger] features@[k]).name@ == x && feature_kept(
                            features@[k],
                            std_activates_of(features@),
                            views_of(active_env@),
                        );
                    assert(k < i);
                }
            }
        }
        i = i + 1;
    }
    let list = crate::text::sorted_unique_strings(&kept);
    proof {
        assert forall|x: Seq<char>|
            views_of(list@).contains(x) <==> some_feature_kept(
                package.features@,
                views_of(active_env@),
                x,
            ) by {}
    }
    list
}

/// Feature-resolution determinism: identical feature tables and an
/// identical activation environment admit exactly one resolved feature
/// list, because the list is sorted without duplicates and its element
/// set is fixed by the table and the environment.
pub proof fn lemma_feature_resolution_deterministic(
    a: Seq<String>,
    b: Seq<String>,
    pkg: Package,
    active_env: Seq<Seq<char>>,
)
    requires
        enabled_features_ok(a, pkg, active_env),
        enabled_features_ok(b, pkg, active_env),
    ensures
        views_of(a) == views_of(b),
{
    assert forall|x: Seq<char>| views_of(a).contains(x) <==> views_of(b).contains(x) by {}
    crate::text::lemma_strictly_sorted_unique(views_of(a), views_of(b));
}

/// Whether the package declares a feature named `runtime-wasm`.
pub fn has_runtime_wasm_feature_declared(
    pkg_name: &str,
    cargo_manifest: &str,
    metadata: &CrateMetadata,
) -> (r: Result<bool, MetadataError>)
    ensures
        match r {
            Ok(b) => (exists|pkg: Package|
                #[trigger] found_package(
                    metadata.packages@,
                    pkg_name@,
                    cargo_manifest@,
                    pkg,
                )) && forall|pkg: Package|
                #[trigger] found_package(metadata.packages@, pkg_name@, cargo_manifest@, pkg)
                    ==> (b <==> exists|k: int|
                    0 <= k < pkg.features@.len() && (#[trigger] pkg.features@[k]).name@
                        == "runtime-wasm"@),
            Err(e) => match e {
                MetadataError::PackageNotFound(n) => no_manifest_match(
                    metadata.packages@,
                    cargo_manifest@,
                ) && name_match_count(metadata.packages@, pkg_name@) == 0 && n@ == pkg_name@,
                MetadataError::DuplicatePackages(n) => no_manifest_match(
                    metadata.packages@,
                    cargo_manifest@,
                ) && name_match_count(metadata.packages@, pkg_name@) >= 2 && n@ == pkg_name@,
            },
        },
{
    let package = match find_package_by_manifest_path(pkg_name, cargo_manifest, metadata) {
        Ok(p) => p,
        Err(e) => {
            return Err(e);
        },
    };
    let b = declares_runtime_wasm(package);
    proof {
        assert forall|pkg: Package|
            #[trigger] found_package(
                metadata.packages@,
                pkg_name@,
                cargo_manifest@,
                pkg,
            ) implies (b <==> exists|k: int|
            0 <= k < pkg.features@.len() && (#[trigger] pkg.features@[k]).name@
                == "runtime-wasm"@) by {
            lemma_found_package_unique(
                metadata.packages@,
                pkg_name@,
                cargo_manifest@,
                pkg,
                *package,
            );
        }
    }
    Ok(b)
}

/// Whether one already looked-up package declares `runtime-wasm`.
pub fn declares_runtime_wasm(package: &Package) -> (b: bool)
    ensures
        b <==> exists|k: int|
            0 <= k < package.features@.len() && (#[trigger] package.features@[k]).name@
                == "runtime-wasm"@,
{
    let features = &package.features;
    let mut i: usize = 0;
    while i < features.len()
        invariant
            i <= features@.len(),
            features@ == package.features@,
            forall|k: int| 0 <= k < i ==> (#[trigger] features@[k]).name@ != "runtime-wasm"@,
        decreases features@.len() - i,
    {
        if crate::text::str_eq(features[i].name.as_str(), "runtime-wasm") {
            proof {
                assert((i as int) < package.features@.len() && (package.features@[
                    i as int
                ]).name@ == "runtime-wasm"@);
            }
            return true;
        }
        i = i + 1;
    }
    false
}

} // verus!
