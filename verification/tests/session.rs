//! Where a profile keeps its session.

use heddle::matrix::session::Paths;

#[test]
fn profile_paths_are_namespaced() {
    let p = Paths::for_profile("/data", "work");
    assert_eq!(p.store, "/data/profiles/work/store");
    assert_eq!(p.session, "/data/profiles/work/session.json");
}

#[test]
fn profiles_do_not_share_state() {
    let a = Paths::for_profile("/data", "work");
    let b = Paths::for_profile("/data", "personal");
    assert_ne!(a.store, b.store);
    assert_ne!(a.session, b.session);
}

