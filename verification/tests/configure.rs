use kj_build::configure::{bool_int_str, configure_unit, kj_configure};
use kj_build::flags::resolve;

fn strings(list: &[&str]) -> Vec<String> {
    list.iter().map(|s| s.to_string()).collect()
}

#[test]
fn bool_int_str_values() {
    assert_eq!(bool_int_str(true), "1");
    assert_eq!(bool_int_str(false), "0");
}

#[test]
fn kj_configure_lite_defines_all_three() {
    let mut build = cc::Build::new();
    let before = format!("{:?}", build);
    assert!(!before.contains("CAPNP_LITE"));
    kj_configure(&mut build, false, true, false);
    let after = format!("{:?}", build);
    assert!(after.contains("(\"CAPNP_LITE\", None)"));
    assert!(after.contains("(\"KJ_SAVE_ACQUIRED_LOCK_INFO\", Some(\"0\"))"));
    assert!(after.contains("(\"KJ_TRACK_LOCK_BLOCKING\", Some(\"1\"))"));
    let lite = after.find("CAPNP_LITE").unwrap();
    let save = after.find("KJ_SAVE_ACQUIRED_LOCK_INFO").unwrap();
    let track = after.find("KJ_TRACK_LOCK_BLOCKING").unwrap();
    assert!(lite < save && save < track);
}

#[test]
fn kj_configure_heavy_leaves_lite_out() {
    let mut build = cc::Build::new();
    kj_configure(&mut build, true, false, true);
    let after = format!("{:?}", build);
    assert!(!after.contains("CAPNP_LITE"));
    assert!(after.contains("(\"KJ_SAVE_ACQUIRED_LOCK_INFO\", Some(\"1\"))"));
    assert!(after.contains("(\"KJ_TRACK_LOCK_BLOCKING\", Some(\"0\"))"));
}

#[test]
fn kj_configure_returns_the_same_build() {
    let mut build = cc::Build::new();
    kj_configure(&mut build, true, false, false).define("EXTRA", "x");
    let after = format!("{:?}", build);
    assert!(after.contains("(\"EXTRA\", Some(\"x\"))"));
    assert!(after.find("KJ_TRACK_LOCK_BLOCKING").unwrap() < after.find("EXTRA").unwrap());
}

#[test]
fn configure_unit_follows_the_flags() {
    let mut build = cc::Build::new();
    let flags = resolve(&strings(&["full-mode", "dynamic-loading"]));
    configure_unit(&mut build, &flags);
    let after = format!("{:?}", build);
    assert!(!after.contains("CAPNP_LITE"));
    assert!(after.contains("(\"KJ_SAVE_ACQUIRED_LOCK_INFO\", Some(\"0\"))"));
    assert!(after.contains("(\"KJ_TRACK_LOCK_BLOCKING\", Some(\"0\"))"));
    assert!(after.contains("(\"KJ_HAS_LIBDL\", None)"));

    let mut other = cc::Build::new();
    configure_unit(&mut other, &resolve(&strings(&["diagnostics"])));
    let text = format!("{:?}", other);
    assert!(text.contains("(\"CAPNP_LITE\", None)"));
    assert!(text.contains("(\"KJ_SAVE_ACQUIRED_LOCK_INFO\", Some(\"1\"))"));
    assert!(text.contains("(\"KJ_TRACK_LOCK_BLOCKING\", Some(\"1\"))"));
    assert!(!text.contains("KJ_HAS_LIBDL"));
}
