//! Looking the installation over.

use heddle::app::doctor::{store, Finding, Status, StoreFacts};
use heddle::app::glyphs::{printed, Glyph};

fn worst(findings: &[Finding]) -> Status {
    findings
        .iter()
        .map(|f| f.status)
        .max_by_key(|s| match s {
            Status::Good => 0,
            Status::Warn => 1,
            Status::Fail => 2,
        })
        .unwrap_or(Status::Good)
}

fn facts(session: &str) -> StoreFacts {
    StoreFacts {
        session: Ok(session.to_owned()),
        session_mode: Some(Ok(0o600)),
        store_mode: Some(Ok(0o700)),
        files: Ok(0),
    }
}

#[test]
fn a_missing_session_is_a_failure_that_says_what_to_run() {
    let findings = store("work", "/scratch/store", "/scratch/nope.json", None);
    assert_eq!(worst(&findings), Status::Fail);
    let detail = findings[0].detail.clone().expect("detail");
    assert!(detail.contains("heddle --profile work login"), "{detail}");
}

#[test]
fn a_corrupt_session_is_reported_as_such() {
    let found = facts("{ not json");
    let findings = store("work", "/scratch/store", "/scratch/session.json", Some(&found));
    assert_eq!(findings[0].status, Status::Fail);
    assert!(findings[0]
        .detail
        .as_ref()
        .expect("detail")
        .contains("will not parse"));
}

#[test]
fn a_healthy_store_reports_the_device_it_is_pinned_to() {
    let found = StoreFacts {
        files: Ok(1),
        ..facts(r#"{"device_id":"WYQEISWIKB"}"#)
    };
    let findings = store("work", "/scratch/store", "/scratch/session.json", Some(&found));
    assert!(findings[0]
        .detail
        .as_ref()
        .expect("detail")
        .contains("WYQEISWIKB"));
    assert!(
        findings
            .iter()
            .any(|f| f.name == "store"
                && f.detail.as_ref().is_some_and(|d| d.contains("1 files")))
    );
}

#[test]
fn an_empty_store_beside_a_valid_session_is_warned_about() {
    let found = facts(r#"{"device_id":"AAA"}"#);
    let findings = store("work", "/scratch/store", "/scratch/session.json", Some(&found));
    let store_finding = findings.iter().find(|f| f.name == "store").expect("store");
    assert_eq!(store_finding.status, Status::Warn);
}

#[test]
fn a_world_readable_session_is_warned_about_with_the_fix() {
    let found = StoreFacts {
        session_mode: Some(Ok(0o644)),
        ..facts(r#"{"device_id":"AAA"}"#)
    };
    let findings = store("work", "/scratch/store", "/scratch/session.json", Some(&found));
    let perms = findings
        .iter()
        .find(|f| f.name == "session file")
        .expect("permissions finding");
    assert_eq!(perms.status, Status::Warn);
    assert!(perms.detail.as_ref().expect("detail").contains("chmod 600"));
}

#[test]
fn the_doctor_probes_every_glyph_heddle_prints() {
    assert!(printed().len() > 5);
    for Glyph { glyph, what, cells } in printed() {
        assert_eq!(
            unicode_width::UnicodeWidthStr::width(glyph),
            cells,
            "{glyph} ({what}) is probed at a width it is not laid out at"
        );
    }
}
