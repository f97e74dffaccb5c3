use wasm_bencher::profile::{Profile, ProfileError};

#[test]
fn profile_names() {
    assert_eq!(Profile::Debug.name(), "dev");
    assert_eq!(Profile::Release.name(), "release");
    assert_eq!(Profile::Production.name(), "production");
}

#[test]
fn profile_directories() {
    assert_eq!(Profile::Debug.directory(), "debug");
    assert_eq!(Profile::Release.directory(), "release");
    assert_eq!(Profile::Production.directory(), "production");
}

#[test]
fn wants_compact_all_but_debug() {
    assert!(!Profile::Debug.wants_compact());
    assert!(Profile::Release.wants_compact());
    assert!(Profile::Production.wants_compact());
}

#[test]
fn infers_production_from_path() {
    let r = Profile::detect("/repo/target/production/wbuild/foo", None).unwrap();
    assert_eq!(r.0, Profile::Production);
    assert!(r.1.is_none());
}

#[test]
fn inferred_debug_is_upgraded_to_release() {
    let r = Profile::detect("/repo/target/debug/wbuild/foo", None).unwrap();
    assert_eq!(r.0, Profile::Release);
    assert!(r.1.is_none());
}

#[test]
fn inferred_release_stays_release() {
    let r = Profile::detect("/repo/target/release/wbuild/foo", None).unwrap();
    assert_eq!(r.0, Profile::Release);
    assert!(r.1.is_none());
}

#[test]
fn unknown_inferred_profile_falls_back_to_release_with_warning() {
    let r = Profile::detect("/repo/target/fastbuild/wbuild/foo", None).unwrap();
    assert_eq!(r.0, Profile::Release);
    assert_eq!(r.1.as_deref(), Some("fastbuild"));
}

#[test]
fn bogus_override_is_fatal() {
    let over = String::from("bogus");
    let r = Profile::detect("/repo/target/release/wbuild/foo", Some(&over));
    assert!(matches!(r, Err(ProfileError::UnknownOverride(n)) if n == "bogus"));
}

#[test]
fn debug_override_is_taken_at_face_value() {
    let over = String::from("debug");
    let r = Profile::detect("/repo/target/release/wbuild/foo", Some(&over)).unwrap();
    assert_eq!(r.0, Profile::Debug);
    assert!(r.1.is_none());
}

#[test]
fn production_override_wins_over_path() {
    let over = String::from("production");
    let r = Profile::detect("/repo/target/debug/wbuild/foo", Some(&over)).unwrap();
    assert_eq!(r.0, Profile::Production);
}

#[test]
fn last_target_component_anchors_the_scan() {
    // A `wbuild` far earlier in the path must not confuse the scan: the
    // profile lies after the last `target`.
    let r = Profile::detect("/home/wbuild/repo/target/production/wbuild/foo", None).unwrap();
    assert_eq!(r.0, Profile::Production);
}

#[test]
fn path_without_profile_between_anchors_is_an_error() {
    let r = Profile::detect("/repo/target", None);
    assert!(matches!(r, Err(ProfileError::NoProfileInPath)));
}
