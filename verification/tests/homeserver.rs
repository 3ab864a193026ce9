//! What a homeserver can do.

use heddle::matrix::homeserver::Capabilities;

#[test]
fn sliding_sync_is_the_only_hard_requirement() {
    let caps = Capabilities {
        sliding_sync: true,
        threads: false,
        cross_signing: false,
        versions: vec!["v1.12".into()],
    };
    assert!(caps.is_usable());
    assert_eq!(caps.problems().len(), 2);
}

#[test]
fn missing_sliding_sync_is_disqualifying() {
    let caps = Capabilities {
        sliding_sync: false,
        threads: true,
        cross_signing: true,
        versions: vec![],
    };
    assert!(!caps.is_usable());
    assert!(caps.problems()[0].contains("MSC4186"));
}
