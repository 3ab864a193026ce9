//! The worker's decisions, on exact values.

use heddle::agent::adapter::Adapters;
use heddle::agent::protocol::AgentEvent;
use heddle::json::{read, Json};
use heddle::matrix::capture::Record;
use heddle::matrix::model::{
    AgentPayload, Command, EntryKind, MemberSummary, RecoveryState, Shield, SyncState, Verification, View, WorkerEvent,
};
use heddle::matrix::worker::{
    cancelled_reply, check_target, collect_members, collect_rooms, convert_item, decode_agent, device_label, drive,
    drive_sas, event_type, key_reply, paginated, receipt_target, recovery_reply, space_parents, thread_summary,
    unrendered, AfterPage, EventItem, Follow, Forwarding, Incoming, Item, ItemContent, ItemKind, ItemMessage, Job,
    Refusal, RequestState, RoomSource, SasState, ShownEvent, Snapshot, SpaceChild, Worker, PAGINATE_ATTEMPTS,
    PAGINATE_BATCH,
};

fn room() -> View {
    View {
        room_id: "!r:x".into(),
        thread_root: None,
    }
}

fn thread() -> View {
    View {
        room_id: "!r:x".into(),
        thread_root: Some("$root".into()),
    }
}

fn nothing(_payload: &Json) -> Option<AgentEvent> {
    None
}

#[test]
fn a_command_on_a_closed_view_is_refused() {
    let mut worker = Worker::new();
    let send = || Command::SendMessage {
        view: room(),
        body: "hi".into(),
        mentions: vec!["@a:x".into()],
    };
    assert_eq!(worker.handle(send()), Err(Refusal::NotOpen(room())));
    assert_eq!(worker.handle(Command::OpenView(room())), Ok(Job::Open(room())));
    worker.opened(&room());
    assert_eq!(worker.handle(Command::OpenView(room())), Ok(Job::Nothing));
    assert_eq!(
        worker.handle(send()),
        Ok(Job::Send {
            view: room(),
            body: "hi".into(),
            mentions: vec!["@a:x".into()],
        })
    );
    assert_eq!(
        worker.handle(Command::Paginate {
            view: room(),
            count: 0
        }),
        Ok(Job::Paginate {
            view: room(),
            count: PAGINATE_BATCH
        })
    );
    assert_eq!(
        worker.handle(Command::MarkRead { view: thread() }),
        Err(Refusal::NotOpen(thread()))
    );
    assert_eq!(worker.handle(Command::CloseView(room())), Ok(Job::Close(room())));
    assert_eq!(worker.handle(send()), Err(Refusal::NotOpen(room())));
}

#[test]
fn an_answer_needs_a_verification() {
    let mut worker = Worker::new();
    assert_eq!(worker.handle(Command::AcceptVerification), Err(Refusal::NothingToAccept));
    assert_eq!(worker.handle(Command::ConfirmVerification), Err(Refusal::NothingInProgress));
    assert_eq!(Refusal::NothingInProgress.message(), "no verification in progress");
    assert_eq!(
        worker.run(Incoming::VerificationRequested),
        Ok(Job::FollowVerification)
    );
    assert_eq!(worker.handle(Command::ConfirmVerification), Ok(Job::ConfirmVerification));
    assert_eq!(
        worker.handle(Command::CancelVerification),
        Ok(Job::CancelVerification { in_progress: true })
    );
    assert_eq!(
        worker.handle(Command::CancelVerification),
        Ok(Job::CancelVerification { in_progress: false })
    );
    worker.verification_started();
    assert_eq!(worker.handle(Command::MismatchVerification), Ok(Job::MismatchVerification));
}

#[test]
fn only_what_is_shown_is_acted_on() {
    assert_eq!(check_target("$e", None, false), Err("event $e not in timeline".into()));
    assert_eq!(
        check_target("$e", Some(false), true),
        Err("that message cannot be edited".into())
    );
    assert_eq!(check_target("$e", Some(false), false), Ok(()));
    assert_eq!(check_target("$e", Some(true), true), Ok(()));
    assert_eq!(
        cancelled_reply(),
        WorkerEvent::Verification(Verification::Cancelled {
            reason: "cancelled here".into()
        })
    );
}

#[test]
fn a_recovery_key_is_trimmed_and_not_blank() {
    let mut worker = Worker::new();
    assert_eq!(
        worker.handle(Command::RecoverWithKey(" EsT  key\n".into())),
        Ok(Job::Recover("EsT  key".into()))
    );
    assert_eq!(
        worker.handle(Command::RecoverWithKey(" \n".into())),
        Err(Refusal::NoKeyGiven)
    );
    assert_eq!(Refusal::NoKeyGiven.message(), "no recovery key given");
}

#[test]
fn what_is_heard_becomes_a_job() {
    let mut worker = Worker::new();
    assert_eq!(worker.run(Incoming::Closed), Ok(Job::Stop));
    assert_eq!(worker.run(Incoming::Command(Command::Shutdown)), Ok(Job::Stop));
    assert_eq!(worker.run(Incoming::RoomsChanged), Ok(Job::ListRooms));
    assert_eq!(
        worker.run(Incoming::Sync(SyncState::Offline)),
        Ok(Job::Tell(WorkerEvent::SyncState(SyncState::Offline)))
    );
    assert_eq!(
        worker.run(Incoming::KeysLost),
        Ok(Job::Tell(WorkerEvent::Warning(
            "missed some key updates; reopen the room if a message still cannot be read".into()
        )))
    );
}

#[test]
fn keys_are_tried_where_they_belong() {
    let mut worker = Worker::new();
    let other = View {
        room_id: "!o:x".into(),
        thread_root: None,
    };
    for view in [room(), thread(), other] {
        worker.opened(&view);
    }
    let keys = vec![
        ("!r:x".to_owned(), "s1".to_owned()),
        ("!gone:x".to_owned(), "s2".to_owned()),
        ("!r:x".to_owned(), "s3".to_owned()),
    ];
    let tried = worker.retry_decryption(&keys);
    assert_eq!(tried.len(), 2);
    for view in [room(), thread()] {
        let (_, sessions) = tried.iter().find(|(v, _)| *v == view).expect("tried");
        assert_eq!(sessions, &vec!["s1".to_owned(), "s3".to_owned()]);
    }
}

#[test]
fn older_events_are_asked_for_a_few_times_and_always_answered() {
    assert_eq!(paginated(1, Ok(false), 0), AfterPage::Again);
    assert_eq!(paginated(PAGINATE_ATTEMPTS, Ok(false), 0), AfterPage::Tell);
    assert_eq!(paginated(1, Ok(false), 3), AfterPage::Tell);
    assert_eq!(paginated(1, Ok(true), 0), AfterPage::Tell);
    assert_eq!(paginated(1, Err(()), 0), AfterPage::TellThenFail);

    let mut asked = 1;
    while paginated(asked, Ok(false), 0) == AfterPage::Again {
        asked += 1;
    }
    assert_eq!(asked, 5);
}

#[test]
fn a_pane_is_refilled_once_rather_than_blanked() {
    let mut forwarding = Forwarding::new(3);
    assert_eq!(forwarding.next(0), Snapshot::Refill);
    assert_eq!(forwarding.next(0), Snapshot::Wait);
    assert_eq!(forwarding.next(2), Snapshot::Show);
    assert_eq!(forwarding.next(0), Snapshot::Refill);
    assert_eq!(Forwarding::new(0).next(0), Snapshot::Show);
}

#[test]
fn a_receipt_names_the_newest_event_of_its_view() {
    let shown = |id: Option<&str>, root: Option<&str>| ShownEvent {
        event_id: id.map(str::to_owned),
        thread_root: root.map(str::to_owned),
    };
    let items = vec![
        shown(Some("$root"), None),
        shown(Some("$main"), None),
        shown(Some("$in"), Some("$root")),
        shown(None, None),
        shown(Some("$elsewhere"), Some("$other")),
    ];
    assert_eq!(receipt_target(&items, &room()).as_deref(), Some("$main"));
    assert_eq!(receipt_target(&items, &thread()).as_deref(), Some("$in"));
    assert_eq!(receipt_target(&vec![shown(None, None)], &room()), None);
}

#[test]
fn members_come_in_order_of_their_names() {
    let member = |id: &str, name: &str| MemberSummary {
        user_id: id.into(),
        display_name: name.into(),
        ambiguous: false,
    };
    let sorted = collect_members(vec![
        member("@z:x", "bob"),
        member("@c:x", "Élan"),
        member("@y:x", "Bob"),
        member("@b:x", "alice"),
    ]);
    let ids: Vec<&str> = sorted.iter().map(|m| m.user_id.as_str()).collect();
    assert_eq!(ids, vec!["@b:x", "@y:x", "@z:x", "@c:x"]);
}

#[test]
fn rooms_know_the_spaces_that_list_them() {
    let source = |id: &str, name: Option<&str>| RoomSource {
        room_id: id.into(),
        display_name: name.map(str::to_owned),
        is_space: false,
        is_direct: false,
        is_encrypted: true,
        notification_count: 1,
        highlight_count: 2,
    };
    let child = |space: &str, room: &str, listed: bool| SpaceChild {
        space_id: space.into(),
        room_id: room.into(),
        listed,
    };
    let children = vec![
        child("!s1", "!a", true),
        child("!s2", "!a", true),
        child("!s1", "!b", false),
    ];
    let parents = space_parents(&children);
    assert_eq!(parents.get("!a"), Some(&vec!["!s1".to_owned(), "!s2".to_owned()]));
    assert_eq!(parents.get("!b"), None);
    let rooms = collect_rooms(&vec![source("!b", Some("zeta")), source("!a", None)], &children);
    assert_eq!(rooms[0].display_name, "!a");
    assert_eq!(rooms[0].parents, vec!["!s1", "!s2"]);
    assert_eq!(rooms[1].display_name, "zeta");
    assert!(rooms[1].parents.is_empty());
    assert_eq!((rooms[1].notification_count, rooms[1].highlight_count), (1, 2));
}

#[test]
fn a_thread_is_listed_by_its_first_line() {
    let summary = thread_summary("$e", "bob", "  first \nsecond", 7);
    assert_eq!(summary.preview, "first");
    assert_eq!(summary.root_event_id, "$e");
    assert_eq!(summary.sender_display, "bob");
    assert_eq!(summary.timestamp, 7);
    assert_eq!(device_label(Some("phone"), Some("ABC"), "@u:x"), "phone");
    assert_eq!(device_label(None, Some("ABC"), "@u:x"), "ABC");
    assert_eq!(device_label(None, None, "@u:x"), "@u:x");
}

#[test]
fn a_verification_is_followed_step_by_step() {
    let other = || "phone".to_owned();
    assert_eq!(
        drive(RequestState::Ready, "phone"),
        (
            Some(Verification::Negotiating { other_device: other() }),
            Follow::StartComparison
        )
    );
    assert_eq!(drive(RequestState::Comparing, "phone"), (None, Follow::FollowComparison));
    assert_eq!(
        drive(RequestState::Unsupported, "phone"),
        (
            Some(Verification::Cancelled {
                reason: "unsupported verification method".into()
            }),
            Follow::Withdraw
        )
    );
    assert_eq!(
        drive_sas(SasState::KeysExchanged(Some(vec![("🐶".into(), "Dog".into())])), "phone"),
        (
            Verification::Compare {
                other_device: other(),
                emoji: vec![("🐶".into(), "Dog".into())]
            },
            Follow::Wait
        )
    );
    assert_eq!(
        drive_sas(SasState::KeysExchanged(None), "phone"),
        (
            Verification::Cancelled {
                reason: "the other device refused emoji comparison".into()
            },
            Follow::Withdraw
        )
    );
    assert_eq!(drive_sas(SasState::Done, "phone"), (Verification::Done, Follow::End));
    assert_eq!(
        recovery_reply(Ok(RecoveryState::Enabled)),
        WorkerEvent::Recovery(RecoveryState::Enabled)
    );
    assert_eq!(recovery_reply(Err("no".into())), WorkerEvent::RecoveryFailed("no".into()));
    assert_eq!(key_reply(Ok("k".into())), WorkerEvent::RecoveryKeyCreated("k".into()));
}

#[test]
fn an_event_that_cannot_be_drawn_is_named() {
    assert_eq!(event_type(Some(r##"{ "type": "m.sticker" }"##)), "m.sticker");
    assert_eq!(event_type(Some("{")), "unknown event");
    assert_eq!(event_type(None), "unknown event");
    assert_eq!(
        unrendered(Some(r##"{ "type": "m.sticker" }"##)),
        EntryKind::Notice("· m.sticker".into())
    );
}

fn event(content: ItemContent, raw: Option<&str>) -> Item {
    Item {
        id: "1".into(),
        kind: ItemKind::Event(EventItem {
            event_id: Some("$e".into()),
            sender: "@hermes:x".into(),
            localpart: "hermes".into(),
            display_name: None,
            timestamp: 5,
            is_own: false,
            shield: Shield::Clear,
            raw: raw.map(str::to_owned),
            content,
        }),
    }
}

#[test]
fn a_row_becomes_an_entry() {
    let body = "🔧 edit: \"src/main.rs\"";
    let raw = r##"{ "type": "m.room.message", "content": { "msgtype": "m.notice" } }"##;
    let message = ItemMessage {
        body: body.into(),
        is_edited: true,
        thread_root: None,
        thread_replies: Some(2),
        reactions: vec![("👍".into(), 3)],
    };
    let entry = convert_item(event(ItemContent::Message(message), Some(raw)), &Adapters::new(), nothing);
    assert_eq!(entry.id, "1");
    assert_eq!(entry.event_id.as_deref(), Some("$e"));
    let EntryKind::Message(m) = &entry.kind else {
        panic!("expected a message, got {:?}", entry.kind);
    };
    assert_eq!(m.sender_display, "hermes");
    assert_eq!(m.thread_replies, Some(2));
    assert_eq!(m.reactions, vec![("👍".to_owned(), 3)]);

    let content = read(r##"{ "msgtype": "m.notice" }"##).expect("json");
    let record = Record::of(Some("$e"), &m.sender, &m.body, &m.agent, &content);
    assert_eq!((record.verdict, record.adapter), ("degraded", Some("hermes")));
    assert_eq!(record.tools, vec!["edit"]);

    let kinds = [
        (ItemContent::Undecryptable, EntryKind::UnableToDecrypt),
        (ItemContent::Redacted, EntryKind::Notice("message deleted".into())),
        (ItemContent::Other, EntryKind::Notice("· m.room.message".into())),
    ];
    for (content, kind) in kinds {
        assert_eq!(convert_item(event(content, Some(raw)), &Adapters::new(), nothing).kind, kind);
    }
    let divider = Item {
        id: "2".into(),
        kind: ItemKind::Nothing,
    };
    assert_eq!(
        convert_item(divider, &Adapters::new(), nothing).kind,
        EntryKind::Notice(String::new())
    );
}

#[test]
fn a_message_without_content_is_plain() {
    let body = "🔧 edit: \"x\"";
    let set = Adapters::new();
    assert_eq!(decode_agent(None, body, &set, nothing), AgentPayload::Plain);
    assert_eq!(decode_agent(Some("{"), body, &set, nothing), AgentPayload::Plain);
    assert_eq!(decode_agent(Some("{}"), body, &set, nothing), AgentPayload::Plain);
    match decode_agent(Some(r##"{ "content": {} }"##), body, &set, nothing) {
        AgentPayload::Degraded { adapter, parsed } => {
            assert_eq!(adapter, "hermes");
            assert_eq!(parsed.tools[0].name, "edit");
        }
        other => panic!("expected degraded, got {other:?}"),
    }
}
