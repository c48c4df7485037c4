use room_timeline::event::AnyMessageLikeEventContent;
use room_timeline::event::AnySyncMessageLikeEvent;
use room_timeline::event::AnySyncTimelineEvent;
use room_timeline::event::BundledAnnotation;
use room_timeline::event::BundledRelations;
use room_timeline::event::EncryptedRelation;
use room_timeline::event::Flow;
use room_timeline::event::MessageRelation;
use room_timeline::event::NewEventTimelineItem;
use room_timeline::event::OriginalRoomRedaction;
use room_timeline::event::ReactionEventContent;
use room_timeline::event::Replacement;
use room_timeline::event::RoomEncryptedEventContent;
use room_timeline::event::RoomMessageEventContent;
use room_timeline::event::RoomRedactionEventContent;
use room_timeline::event::SyncTimelineEventWithoutContent;
use room_timeline::event::TimelineEventKind;
use room_timeline::event::TimelineEventMetadata;
use room_timeline::event::TimelineItemPosition;
use room_timeline::handler::Diagnostic;
use room_timeline::handler::Timeline;
use room_timeline::item::MessagePayload;
use room_timeline::item::TimelineItem;
use room_timeline::item::TimelineItemContent;
use room_timeline::item::TimelineKey;
use room_timeline::reactions::Annotation;
use room_timeline::reactions::BundledReactions;
use room_timeline::reactions::RetractOutcome;
use room_timeline::reactions::TimelineDetails;

fn meta(sender: &str) -> TimelineEventMetadata {
    TimelineEventMetadata {
        sender: sender.to_string(),
        is_own_event: false,
        relations: None,
        encryption_info: None,
    }
}

fn remote(event_id: &str) -> Flow {
    Flow::Remote {
        event_id: event_id.to_string(),
        txn_id: None,
        origin_server_ts: 1000,
        raw_event: String::new(),
        position: TimelineItemPosition::End,
    }
}

fn message_kind(body: &str) -> TimelineEventKind {
    TimelineEventKind::Message {
        content: AnyMessageLikeEventContent::RoomMessage(RoomMessageEventContent {
            msgtype: MessagePayload { msgtype: "m.text".to_string(), body: body.to_string() },
            relates_to: None,
        }),
    }
}

fn reaction_kind(target: &str, key: &str) -> TimelineEventKind {
    TimelineEventKind::Message {
        content: AnyMessageLikeEventContent::Reaction(ReactionEventContent {
            relates_to: Annotation { event_id: target.to_string(), key: key.to_string() },
        }),
    }
}

fn redaction_kind(target: &str) -> TimelineEventKind {
    TimelineEventKind::Redaction {
        redacts: target.to_string(),
        content: RoomRedactionEventContent { reason: None },
    }
}

fn event_item(item: &TimelineItem) -> &room_timeline::item::EventTimelineItem {
    match item {
        TimelineItem::Event(e) => e,
        TimelineItem::Virtual(_) => panic!("expected an event item"),
    }
}

fn marker_index(tl: &Timeline) -> Option<usize> {
    let mut i = 0;
    while i < tl.len() {
        if let TimelineItem::Virtual(_) = tl.item_at(i) {
            return Some(i);
        }
        i += 1;
    }
    None
}

#[test]
fn reaction_scenario_two_senders_then_redactions() {
    let mut tl = Timeline::new();
    tl.handle_event(&meta("@y:s"), &remote("$e"), message_kind("hello"));
    assert_eq!(tl.len(), 1);

    // Reaction ":+1:" from user A on event E.
    tl.handle_event(&meta("@a:s"), &remote("$ra"), reaction_kind("$e", ":+1:"));
    let item = tl.item_at(0);
    let agg = event_item(&item).reactions.get(&":+1:".to_string()).expect("aggregate");
    assert_eq!(agg.count, 1);
    match &agg.senders {
        TimelineDetails::Ready(s) => assert_eq!(s, &vec!["@a:s".to_string()]),
        TimelineDetails::Unavailable => panic!("senders should be known"),
    }

    // Reaction ":+1:" from user B on E.
    tl.handle_event(&meta("@b:s"), &remote("$rb"), reaction_kind("$e", ":+1:"));
    let item = tl.item_at(0);
    let agg = event_item(&item).reactions.get(&":+1:".to_string()).expect("aggregate");
    assert_eq!(agg.count, 2);
    match &agg.senders {
        TimelineDetails::Ready(s) => {
            assert_eq!(s, &vec!["@a:s".to_string(), "@b:s".to_string()])
        }
        TimelineDetails::Unavailable => panic!("senders should be known"),
    }

    // Redact A's reaction.
    tl.handle_event(&meta("@a:s"), &remote("$xa"), redaction_kind("$ra"));
    let item = tl.item_at(0);
    let agg = event_item(&item).reactions.get(&":+1:".to_string()).expect("aggregate");
    assert_eq!(agg.count, 1);
    match &agg.senders {
        TimelineDetails::Ready(s) => assert_eq!(s, &vec!["@b:s".to_string()]),
        TimelineDetails::Unavailable => panic!("senders should be known"),
    }

    // Redact B's reaction: the bundle entry goes away entirely.
    tl.handle_event(&meta("@b:s"), &remote("$xb"), redaction_kind("$rb"));
    let item = tl.item_at(0);
    assert!(event_item(&item).reactions.get(&":+1:".to_string()).is_none());

    // A consistent sequence records no diagnostics.
    assert!(tl.diagnostics().is_empty());
}

#[test]
fn local_echo_reconciliation() {
    let mut tl = Timeline::new();
    let local = Flow::Local { txn_id: "t1".to_string() };
    let added = tl.handle_event(&meta("@me:s"), &local, message_kind("hi"));
    assert!(added);
    assert_eq!(tl.len(), 1);
    let item = tl.item_at(0);
    match &event_item(&item).key {
        TimelineKey::TransactionId(t) => assert_eq!(t, "t1"),
        TimelineKey::EventId(_) => panic!("local echo must be keyed by transaction id"),
    }

    let echo = Flow::Remote {
        event_id: "$e1".to_string(),
        txn_id: Some("t1".to_string()),
        origin_server_ts: 7,
        raw_event: String::new(),
        position: TimelineItemPosition::End,
    };
    tl.handle_event(&meta("@me:s"), &echo, message_kind("hi"));
    assert_eq!(tl.len(), 1);
    let item = tl.item_at(0);
    match &event_item(&item).key {
        TimelineKey::EventId(e) => assert_eq!(e, "$e1"),
        TimelineKey::TransactionId(_) => panic!("echo must re-key the item by event id"),
    }
    match &event_item(&item).content {
        TimelineItemContent::Message(m) => assert_eq!(m.msgtype.body, "hi"),
        _ => panic!("content must be the same message"),
    }
    assert!(tl.diagnostics().is_empty());
}

#[test]
fn echo_without_pending_item_falls_through_to_insert() {
    let mut tl = Timeline::new();
    let echo = Flow::Remote {
        event_id: "$e1".to_string(),
        txn_id: Some("t-unknown".to_string()),
        origin_server_ts: 7,
        raw_event: String::new(),
        position: TimelineItemPosition::End,
    };
    tl.handle_event(&meta("@me:s"), &echo, message_kind("hi"));
    assert_eq!(tl.len(), 1);
    match &event_item(&tl.item_at(0)).key {
        TimelineKey::EventId(e) => assert_eq!(e, "$e1"),
        _ => panic!("item must carry the server id"),
    }
    assert_eq!(
        tl.diagnostics(),
        &vec![Diagnostic::EchoWithoutPendingItem { txn_id: "t-unknown".to_string() }],
    );
}

#[test]
fn edit_from_other_sender_is_discarded() {
    let mut tl = Timeline::new();
    tl.handle_event(&meta("@y:s"), &remote("$e"), message_kind("original"));
    let edit = TimelineEventKind::Message {
        content: AnyMessageLikeEventContent::RoomMessage(RoomMessageEventContent {
            msgtype: MessagePayload { msgtype: "m.text".to_string(), body: "*edited".to_string() },
            relates_to: Some(MessageRelation::Replacement(Replacement {
                event_id: "$e".to_string(),
                new_content: MessagePayload {
                    msgtype: "m.text".to_string(),
                    body: "edited".to_string(),
                },
            })),
        }),
    };
    let added = tl.handle_event(&meta("@x:s"), &remote("$edit"), edit);
    assert!(!added);
    assert_eq!(tl.len(), 1);
    match &event_item(&tl.item_at(0)).content {
        TimelineItemContent::Message(m) => {
            assert_eq!(m.msgtype.body, "original");
            assert!(!m.edited);
        }
        _ => panic!("content must be unchanged"),
    }
}

#[test]
fn edit_from_same_sender_replaces_content() {
    let mut tl = Timeline::new();
    let original = TimelineEventKind::Message {
        content: AnyMessageLikeEventContent::RoomMessage(RoomMessageEventContent {
            msgtype: MessagePayload { msgtype: "m.text".to_string(), body: "first".to_string() },
            relates_to: Some(MessageRelation::Reply { in_reply_to: "$parent".to_string() }),
        }),
    };
    tl.handle_event(&meta("@y:s"), &remote("$e"), original);
    let edit = TimelineEventKind::Message {
        content: AnyMessageLikeEventContent::RoomMessage(RoomMessageEventContent {
            msgtype: MessagePayload { msgtype: "m.text".to_string(), body: "*second".to_string() },
            relates_to: Some(MessageRelation::Replacement(Replacement {
                event_id: "$e".to_string(),
                new_content: MessagePayload {
                    msgtype: "m.text".to_string(),
                    body: "second".to_string(),
                },
            })),
        }),
    };
    tl.handle_event(&meta("@y:s"), &remote("$edit"), edit);
    assert_eq!(tl.len(), 1);
    match &event_item(&tl.item_at(0)).content {
        TimelineItemContent::Message(m) => {
            assert_eq!(m.msgtype.body, "second");
            assert!(m.edited);
            assert_eq!(m.in_reply_to.as_deref(), Some("$parent"));
        }
        _ => panic!("content must be the edited message"),
    }
}

#[test]
fn duplicate_remote_delivery_is_idempotent() {
    let mut tl = Timeline::new();
    tl.handle_event(&meta("@y:s"), &remote("$e"), message_kind("hello"));
    tl.handle_event(&meta("@y:s"), &remote("$e"), message_kind("hello"));
    assert_eq!(tl.len(), 1);
    match &event_item(&tl.item_at(0)).content {
        TimelineItemContent::Message(m) => assert_eq!(m.msgtype.body, "hello"),
        _ => panic!("single message expected"),
    }
    assert_eq!(
        tl.diagnostics(),
        &vec![Diagnostic::DuplicateDelivery { event_id: "$e".to_string() }],
    );
}

#[test]
fn redacting_twice_equals_redacting_once() {
    let mut tl = Timeline::new();
    tl.handle_event(&meta("@y:s"), &remote("$e"), message_kind("gone soon"));
    tl.handle_event(&meta("@m:s"), &remote("$r1"), redaction_kind("$e"));
    assert_eq!(tl.len(), 1);
    match &event_item(&tl.item_at(0)).content {
        TimelineItemContent::RedactedMessage => {}
        _ => panic!("message must be redacted"),
    }
    tl.handle_event(&meta("@m:s"), &remote("$r2"), redaction_kind("$e"));
    assert_eq!(tl.len(), 1);
    match &event_item(&tl.item_at(0)).content {
        TimelineItemContent::RedactedMessage => {}
        _ => panic!("second redaction must be a no-op"),
    }
}

#[test]
fn read_marker_moves_forward_never_backwards() {
    let mut tl = Timeline::new();
    tl.handle_event(&meta("@y:s"), &remote("$e1"), message_kind("one"));
    tl.handle_event(&meta("@y:s"), &remote("$e2"), message_kind("two"));
    tl.set_fully_read_event(Some("$e1".to_string()));
    assert_eq!(marker_index(&tl), Some(1));
    assert!(tl.fully_read_event_in_timeline());

    tl.set_fully_read_event(Some("$e2".to_string()));
    assert_eq!(marker_index(&tl), Some(2));

    // Moving the target back does not move the marker back.
    tl.set_fully_read_event(Some("$e1".to_string()));
    assert_eq!(marker_index(&tl), Some(2));
}

#[test]
fn read_marker_waits_for_its_target() {
    let mut tl = Timeline::new();
    tl.set_fully_read_event(Some("$later".to_string()));
    assert_eq!(marker_index(&tl), None);
    assert!(!tl.fully_read_event_in_timeline());

    tl.handle_event(&meta("@y:s"), &remote("$later"), message_kind("arrived"));
    assert_eq!(marker_index(&tl), Some(1));
    assert!(tl.fully_read_event_in_timeline());
}

#[test]
fn reaction_on_missing_target_is_dropped() {
    let mut tl = Timeline::new();
    let added = tl.handle_event(&meta("@a:s"), &remote("$ra"), reaction_kind("$nope", "x"));
    assert!(!added);
    assert_eq!(tl.len(), 0);
}

#[test]
fn reaction_on_redacted_content_is_ignored() {
    let mut tl = Timeline::new();
    tl.handle_event(&meta("@y:s"), &remote("$e"), TimelineEventKind::RedactedMessage);
    tl.handle_event(&meta("@a:s"), &remote("$ra"), reaction_kind("$e", "x"));
    let item = tl.item_at(0);
    assert!(event_item(&item).reactions.get(&"x".to_string()).is_none());
}

#[test]
fn redaction_of_message_clears_its_reactions() {
    let mut tl = Timeline::new();
    tl.handle_event(&meta("@y:s"), &remote("$e"), message_kind("hi"));
    tl.handle_event(&meta("@a:s"), &remote("$ra"), reaction_kind("$e", "x"));
    tl.handle_event(&meta("@m:s"), &remote("$r"), redaction_kind("$e"));
    let item = tl.item_at(0);
    assert!(event_item(&item).reactions.get(&"x".to_string()).is_none());
}

#[test]
fn encrypted_event_with_relation_needs_no_placeholder() {
    let mut tl = Timeline::new();
    let kind = TimelineEventKind::Message {
        content: AnyMessageLikeEventContent::RoomEncrypted(RoomEncryptedEventContent {
            payload: "ciphertext".to_string(),
            relates_to: Some(EncryptedRelation::Replacement),
        }),
    };
    let added = tl.handle_event(&meta("@y:s"), &remote("$e"), kind);
    assert!(!added);
    assert_eq!(tl.len(), 0);
}

#[test]
fn encrypted_event_without_relation_is_shown() {
    let mut tl = Timeline::new();
    let kind = TimelineEventKind::Message {
        content: AnyMessageLikeEventContent::RoomEncrypted(RoomEncryptedEventContent {
            payload: "ciphertext".to_string(),
            relates_to: None,
        }),
    };
    let added = tl.handle_event(&meta("@y:s"), &remote("$e"), kind);
    assert!(added);
    assert_eq!(tl.len(), 1);
    match &event_item(&tl.item_at(0)).content {
        TimelineItemContent::UnableToDecrypt { payload } => assert_eq!(payload, "ciphertext"),
        _ => panic!("undecryptable placeholder expected"),
    }
}

#[test]
fn parse_failures_stay_visible() {
    let mut tl = Timeline::new();
    let kind = TimelineEventKind::failed_to_parse(
        SyncTimelineEventWithoutContent::OriginalMessageLike { event_type: "m.room.message".to_string() },
        "invalid type".to_string(),
    );
    tl.handle_event(&meta("@y:s"), &remote("$bad1"), kind);
    let kind = TimelineEventKind::failed_to_parse(
        SyncTimelineEventWithoutContent::OriginalState {
            event_type: "m.room.topic".to_string(),
            state_key: "".to_string(),
        },
        "missing field".to_string(),
    );
    tl.handle_event(&meta("@y:s"), &remote("$bad2"), kind);
    assert_eq!(tl.len(), 2);
    match &event_item(&tl.item_at(0)).content {
        TimelineItemContent::FailedToParseMessageLike { event_type, error } => {
            assert_eq!(event_type, "m.room.message");
            assert_eq!(error, "invalid type");
        }
        _ => panic!("message-like parse failure expected"),
    }
    match &event_item(&tl.item_at(1)).content {
        TimelineItemContent::FailedToParseState { event_type, state_key, error } => {
            assert_eq!(event_type, "m.room.topic");
            assert_eq!(state_key, "");
            assert_eq!(error, "missing field");
        }
        _ => panic!("state parse failure expected"),
    }
}

#[test]
fn state_events_are_deferred_no_ops() {
    let mut tl = Timeline::new();
    assert!(!tl.handle_event(&meta("@y:s"), &remote("$s1"), TimelineEventKind::State));
    assert!(!tl.handle_event(&meta("@y:s"), &remote("$s2"), TimelineEventKind::RedactedState));
    let other = TimelineEventKind::Message {
        content: AnyMessageLikeEventContent::Other { event_type: "m.sticker".to_string() },
    };
    assert!(!tl.handle_event(&meta("@y:s"), &remote("$s3"), other));
    assert_eq!(tl.len(), 0);
}

#[test]
fn backfill_prepends_and_live_sync_appends() {
    let mut tl = Timeline::new();
    tl.handle_event(&meta("@y:s"), &remote("$e2"), message_kind("newer"));
    let backfill = Flow::Remote {
        event_id: "$e1".to_string(),
        txn_id: None,
        origin_server_ts: 1,
        raw_event: String::new(),
        position: TimelineItemPosition::Start,
    };
    tl.handle_event(&meta("@y:s"), &backfill, message_kind("older"));
    assert_eq!(tl.len(), 2);
    match &event_item(&tl.item_at(0)).content {
        TimelineItemContent::Message(m) => assert_eq!(m.msgtype.body, "older"),
        _ => panic!("backfilled item first"),
    }
}

#[test]
fn replace_at_index_hint_updates_in_place() {
    let mut tl = Timeline::new();
    tl.handle_event(&meta("@y:s"), &remote("$e1"), message_kind("encrypted once"));
    let reinsert = Flow::Remote {
        event_id: "$e9".to_string(),
        txn_id: None,
        origin_server_ts: 5,
        raw_event: String::new(),
        position: TimelineItemPosition::Update(0),
    };
    tl.handle_event(&meta("@y:s"), &reinsert, message_kind("decrypted now"));
    assert_eq!(tl.len(), 1);
    match &event_item(&tl.item_at(0)).content {
        TimelineItemContent::Message(m) => assert_eq!(m.msgtype.body, "decrypted now"),
        _ => panic!("replaced item expected"),
    }
}

#[test]
fn bundled_annotations_seed_counts_without_senders() {
    let mut tl = Timeline::new();
    let meta_with_relations = TimelineEventMetadata {
        sender: "@y:s".to_string(),
        is_own_event: false,
        relations: Some(BundledRelations {
            replace: Some("$prior-edit".to_string()),
            annotation: Some(vec![BundledAnnotation { key: ":+1:".to_string(), count: 2 }]),
        }),
        encryption_info: None,
    };
    tl.handle_event(&meta_with_relations, &remote("$e"), message_kind("seeded"));
    let item = tl.item_at(0);
    let ev = event_item(&item);
    match &ev.content {
        TimelineItemContent::Message(m) => assert!(m.edited),
        _ => panic!("message expected"),
    }
    let agg = ev.reactions.get(&":+1:".to_string()).expect("seeded aggregate");
    assert_eq!(agg.count, 2);
    match agg.senders {
        TimelineDetails::Unavailable => {}
        TimelineDetails::Ready(_) => panic!("bundled counts carry no senders"),
    }

    // A redaction of a reaction whose senders are unknown may only log; the
    // authoritative count stays untouched.
    tl.handle_event(&meta("@a:s"), &remote("$ra"), reaction_kind("$e", ":+1:"));
    let item = tl.item_at(0);
    assert_eq!(event_item(&item).reactions.get(&":+1:".to_string()).unwrap().count, 3);
    tl.handle_event(&meta("@a:s"), &remote("$xa"), redaction_kind("$ra"));
    let item = tl.item_at(0);
    assert_eq!(event_item(&item).reactions.get(&":+1:".to_string()).unwrap().count, 3);
    assert_eq!(
        tl.diagnostics(),
        &vec![
            Diagnostic::IncompleteSenderList { redacts: "$ra".to_string() },
            Diagnostic::RedactionAffectedNothing { redacts: "$ra".to_string() },
        ],
    );
}

#[test]
fn classifier_covers_every_shape() {
    let redaction = AnySyncTimelineEvent::MessageLike(AnySyncMessageLikeEvent::RoomRedaction(
        Some(OriginalRoomRedaction {
            redacts: "$t".to_string(),
            content: RoomRedactionEventContent { reason: Some("spam".to_string()) },
        }),
    ));
    match TimelineEventKind::from_event(redaction) {
        TimelineEventKind::Redaction { redacts, .. } => assert_eq!(redacts, "$t"),
        _ => panic!("redaction expected"),
    }

    let redacted_redaction =
        AnySyncTimelineEvent::MessageLike(AnySyncMessageLikeEvent::RoomRedaction(None));
    match TimelineEventKind::from_event(redacted_redaction) {
        TimelineEventKind::RedactedMessage => {}
        _ => panic!("redacted message expected"),
    }

    let msg = AnySyncTimelineEvent::MessageLike(AnySyncMessageLikeEvent::Other(Some(
        AnyMessageLikeEventContent::Other { event_type: "m.sticker".to_string() },
    )));
    match TimelineEventKind::from_event(msg) {
        TimelineEventKind::Message { .. } => {}
        _ => panic!("message expected"),
    }

    let redacted = AnySyncTimelineEvent::MessageLike(AnySyncMessageLikeEvent::Other(None));
    match TimelineEventKind::from_event(redacted) {
        TimelineEventKind::RedactedMessage => {}
        _ => panic!("redacted message expected"),
    }

    match TimelineEventKind::from_event(AnySyncTimelineEvent::State { has_content: true }) {
        TimelineEventKind::State => {}
        _ => panic!("state expected"),
    }
    match TimelineEventKind::from_event(AnySyncTimelineEvent::State { has_content: false }) {
        TimelineEventKind::RedactedState => {}
        _ => panic!("redacted state expected"),
    }
}

#[test]
fn new_item_constructors_carry_their_content() {
    let redacted = NewEventTimelineItem::redacted_message();
    match redacted.content {
        TimelineItemContent::RedactedMessage => {}
        _ => panic!("tombstone expected"),
    }
    let from = NewEventTimelineItem::from_content(TimelineItemContent::UnableToDecrypt {
        payload: "xyz".to_string(),
    });
    match from.content {
        TimelineItemContent::UnableToDecrypt { payload } => assert_eq!(payload, "xyz"),
        _ => panic!("content must be kept"),
    }
}

#[test]
fn duplicate_reaction_delivery_counts_once() {
    // A reaction's own identity is tracked in the reverse index, so a second
    // delivery of the same reaction event is caught as a duplicate: the
    // aggregate keeps count 1 and only a diagnostic is recorded.
    let mut tl = Timeline::new();
    tl.handle_event(&meta("@y:s"), &remote("$e"), message_kind("hi"));
    tl.handle_event(&meta("@a:s"), &remote("$ra"), reaction_kind("$e", "x"));
    tl.handle_event(&meta("@a:s"), &remote("$ra"), reaction_kind("$e", "x"));
    let item = tl.item_at(0);
    let agg = event_item(&item).reactions.get(&"x".to_string()).expect("aggregate");
    assert_eq!(agg.count, 1);
    match &agg.senders {
        TimelineDetails::Ready(s) => assert_eq!(s, &vec!["@a:s".to_string()]),
        TimelineDetails::Unavailable => panic!("senders should be known"),
    }
    assert_eq!(
        tl.diagnostics(),
        &vec![Diagnostic::DuplicateDelivery { event_id: "$ra".to_string() }],
    );

    // Redacting the reaction once still removes its whole effect.
    tl.handle_event(&meta("@m:s"), &remote("$rx"), redaction_kind("$ra"));
    let item = tl.item_at(0);
    assert!(event_item(&item).reactions.get(&"x".to_string()).is_none());
}

#[test]
fn redaction_with_no_target_records_a_diagnostic() {
    let mut tl = Timeline::new();
    tl.handle_event(&meta("@y:s"), &remote("$e"), message_kind("hi"));
    tl.handle_event(&meta("@m:s"), &remote("$r"), redaction_kind("$nowhere"));
    assert_eq!(tl.len(), 1);
    assert_eq!(
        tl.diagnostics(),
        &vec![Diagnostic::RedactionAffectedNothing { redacts: "$nowhere".to_string() }],
    );
}

#[test]
fn aggregator_tracks_counts_and_senders() {
    let mut b = BundledReactions::new();
    assert!(b.apply(&"x".to_string(), &"@a:s".to_string()));
    assert!(b.apply(&"x".to_string(), &"@b:s".to_string()));
    let agg = b.get(&"x".to_string()).expect("aggregate");
    assert_eq!(agg.count, 2);
    match &agg.senders {
        TimelineDetails::Ready(s) => assert_eq!(s, &vec!["@a:s".to_string(), "@b:s".to_string()]),
        TimelineDetails::Unavailable => panic!("senders should be known"),
    }
    assert!(matches!(b.retract(&"x".to_string(), &"@a:s".to_string()), RetractOutcome::SenderRemoved));
    let agg = b.get(&"x".to_string()).expect("aggregate");
    assert_eq!(agg.count, 1);
    match &agg.senders {
        TimelineDetails::Ready(s) => assert_eq!(s, &vec!["@b:s".to_string()]),
        TimelineDetails::Unavailable => panic!("senders should be known"),
    }
    assert!(matches!(b.retract(&"x".to_string(), &"@b:s".to_string()), RetractOutcome::Removed));
    assert!(b.get(&"x".to_string()).is_none());
    assert!(matches!(b.retract(&"x".to_string(), &"@b:s".to_string()), RetractOutcome::NoEntry));
}

#[test]
fn redaction_of_stale_reaction_entry_prefers_count_correctness() {
    // A tracked reaction whose sender has dropped out of the (fully known)
    // sender list: redact the message, re-deliver it, and let fresh reactions
    // rebuild the aggregate while the stale index entry survives.
    let mut tl = Timeline::new();
    tl.handle_event(&meta("@y:s"), &remote("$e"), message_kind("hi"));
    tl.handle_event(&meta("@s:s"), &remote("$r1"), reaction_kind("$e", "x"));
    tl.handle_event(&meta("@m:s"), &remote("$rx"), redaction_kind("$e"));
    tl.handle_event(&meta("@y:s"), &remote("$e"), message_kind("hi"));
    tl.handle_event(&meta("@a:s"), &remote("$r2"), reaction_kind("$e", "x"));
    tl.handle_event(&meta("@b:s"), &remote("$r3"), reaction_kind("$e", "x"));

    // Redacting the stale entry still decrements the authoritative count; the
    // sender list, which does not hold the recorded sender, stays as it is.
    tl.handle_event(&meta("@m:s"), &remote("$ry"), redaction_kind("$r1"));
    let item = tl.item_at(0);
    let agg = event_item(&item).reactions.get(&"x".to_string()).expect("aggregate");
    assert_eq!(agg.count, 1);
    match &agg.senders {
        TimelineDetails::Ready(s) => {
            assert_eq!(s, &vec!["@a:s".to_string(), "@b:s".to_string()])
        }
        TimelineDetails::Unavailable => panic!("senders should be known"),
    }
    assert_eq!(
        tl.diagnostics(),
        &vec![
            Diagnostic::DuplicateDelivery { event_id: "$e".to_string() },
            Diagnostic::SenderNotInList { redacts: "$r1".to_string() },
        ],
    );
}
