//! What the worker decides.

use heddle::matrix::worker::{belongs_to, classify, keep_paginating, Snapshot, PAGINATE_ATTEMPTS};

#[test]
fn a_pane_with_something_to_show_asks_for_one_page() {
    assert!(!keep_paginating(1, 20, false));
}

#[test]
fn a_pane_with_nothing_to_show_asks_again() {
    assert!(keep_paginating(1, 0, false));
}

#[test]
fn a_pane_stops_asking_at_the_start_of_the_room() {
    assert!(!keep_paginating(1, 0, true));
}

#[test]
fn a_pane_gives_up_rather_than_walking_back_forever() {
    assert!(!keep_paginating(PAGINATE_ATTEMPTS, 0, false));
}

#[test]
fn an_ordinary_snapshot_is_shown() {
    assert_eq!(classify(12, 7, false), Snapshot::Show);
}

#[test]
fn a_view_that_has_nothing_yet_may_be_told_it_has_nothing() {
    assert_eq!(classify(0, 0, false), Snapshot::Show);
}

#[test]
fn a_gappy_sync_does_not_blank_a_pane_that_had_a_transcript() {
    assert_eq!(classify(0, 71, false), Snapshot::Refill);
}

#[test]
fn a_refill_is_asked_for_once_and_not_on_every_snapshot() {
    assert_eq!(classify(0, 71, true), Snapshot::Wait);
}

#[test]
fn a_room_receipt_may_only_name_an_event_outside_every_thread() {
    assert!(belongs_to(None, "$msg", None));
    assert!(!belongs_to(None, "$reply", Some("$root")));
}

#[test]
fn a_thread_receipt_may_name_a_reply_in_that_thread() {
    assert!(belongs_to(Some("$root"), "$reply", Some("$root")));
}

#[test]
fn a_thread_receipt_may_name_the_root_itself() {
    assert!(belongs_to(Some("$root"), "$root", None));
}

#[test]
fn a_thread_receipt_may_not_name_another_thread_or_the_main_timeline() {
    assert!(!belongs_to(Some("$root"), "$reply", Some("$other")));
    assert!(!belongs_to(Some("$root"), "$msg", None));
}

#[test]
fn a_refill_that_worked_ends_the_wait() {
    assert_eq!(classify(40, 71, true), Snapshot::Show);
}
