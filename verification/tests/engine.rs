use foghorn::cache::{Cache, ContactResolution, GroupResolution};
use foghorn::message::{
    Attachment, Chat, Contact, DecodeStep, Message, SignalAction, Thread, decode_content,
};
use foghorn::proto::{
    AttachmentPointer, Content, ContentBody, DataMessage, Delete, EditMessage, Metadata, ProtoQuote,
    Sent, SyncMessage, Sticker,
};
use foghorn::session::{SendTarget, SessionState, StreamItem, StreamStep, compose_send};
use foghorn::store::ThreadStore;

fn key(b: u8) -> Vec<u8> {
    vec![b; 32]
}

fn fill_contact(cache: &mut Cache, uuid: u128, name: &str, is_self: bool, self_uuid: u128) -> Chat {
    match cache.resolve_contact_step(uuid, Some(&key(1))) {
        ContactResolution::Cached(c) => return c,
        ContactResolution::Fetch(u, k) => {
            assert_eq!(u, uuid);
            let r = cache.insert_contact(u, k, Some(name.to_owned()), Some(None), self_uuid);
            assert!(is_self == matches!(&r, Some(Chat::Contact(c)) if c.is_self));
            r.unwrap()
        }
        ContactResolution::Unresolvable => panic!("contact should be resolvable"),
    }
}

fn message(ts: u64, body: &str, sender: &Contact) -> Message {
    Message {
        timestamp: ts,
        body: None,
        attachments: Vec::new(),
        sticker: None,
        sender: Contact {
            key: sender.key.clone(),
            uuid: sender.uuid,
            name: format!("{}{}", sender.name, body),
            avatar: None,
            is_self: sender.is_self,
        },
        quote: None,
    }
}

fn plain_envelope(sender: u128, ts: u64, text: &str, profile_key: Option<Vec<u8>>) -> Content {
    Content {
        metadata: Metadata {
            sender,
            destination: sender,
            timestamp: ts,
        },
        body: ContentBody::DataMessage(DataMessage {
            body: Some(text.to_owned()),
            attachments: Vec::new(),
            group_v2: None,
            profile_key,
            quote: None,
            sticker: None,
            delete: None,
            body_ranges: Vec::new(),
        }),
    }
}

#[test]
fn contact_resolution_is_idempotent() {
    let mut cache = Cache::new();
    // first resolution: a miss that demands exactly one fetch
    let step = cache.resolve_contact_step(7, Some(&key(2)));
    let (u, k) = match step {
        ContactResolution::Fetch(u, k) => (u, k),
        _ => panic!("first resolution must fetch"),
    };
    cache
        .insert_contact(u, k, Some("Ada".to_owned()), Some(None), 1)
        .unwrap();
    // second resolution: answered from the cache, no fetch, even without a key
    match cache.resolve_contact_step(7, None) {
        ContactResolution::Cached(Chat::Contact(c)) => {
            assert_eq!(c.uuid, 7);
            assert_eq!(c.name, "Ada");
            assert!(!c.is_self);
        }
        _ => panic!("second resolution must be cached"),
    }
}

#[test]
fn contact_without_key_is_unresolvable() {
    let cache = Cache::new();
    assert!(matches!(
        cache.resolve_contact_step(7, None),
        ContactResolution::Unresolvable
    ));
    // a malformed (short) profile key is as good as none
    let short = vec![1u8; 5];
    assert!(matches!(
        cache.resolve_contact_step(7, Some(&short)),
        ContactResolution::Unresolvable
    ));
}

#[test]
fn failed_contact_fetch_caches_nothing() {
    let mut cache = Cache::new();
    assert!(cache
        .insert_contact(7, key(2), None, Some(None), 1)
        .is_none());
    assert!(cache.insert_contact(7, key(2), Some("Ada".to_owned()), None, 1).is_none());
    assert!(cache.get(&Thread::Contact(7)).is_none());
}

#[test]
fn group_staleness_by_revision() {
    let mut cache = Cache::new();
    let gk = key(9);
    let ctx = |revision| foghorn::proto::GroupContextV2 {
        master_key: Some(gk.clone()),
        revision: Some(revision),
    };

    // nothing cached: any citation triggers a refresh
    let (k, rev) = match cache.resolve_group_step(&ctx(4)) {
        GroupResolution::Refresh(k, rev) => (k, rev),
        _ => panic!("must refresh"),
    };
    assert_eq!(rev, 4);

    let member = match fill_contact(&mut cache, 7, "Ada", false, 1) {
        Chat::Contact(c) => c,
        _ => unreachable!(),
    };
    cache
        .insert_group(k, rev, "Team".to_owned(), Some(None), vec![Some(member)])
        .unwrap();

    // the cached revision answers without a refresh
    assert!(matches!(
        cache.resolve_group_step(&ctx(4)),
        GroupResolution::Cached(_)
    ));
    // a later revision always triggers a full refresh
    assert!(matches!(
        cache.resolve_group_step(&ctx(5)),
        GroupResolution::Refresh(_, 5)
    ));
}

#[test]
fn group_refresh_is_all_or_nothing() {
    let mut cache = Cache::new();
    let member = match fill_contact(&mut cache, 7, "Ada", false, 1) {
        Chat::Contact(c) => c,
        _ => unreachable!(),
    };
    // one failed member resolution aborts the whole refresh
    let r = cache.insert_group(
        key(9),
        4,
        "Team".to_owned(),
        Some(None),
        vec![Some(member.clone()), None],
    );
    assert!(r.is_none());
    assert!(cache.get(&Thread::Group(key(9))).is_none());
    // a failed avatar fetch aborts it too
    let r = cache.insert_group(key(9), 4, "Team".to_owned(), None, vec![Some(member)]);
    assert!(r.is_none());
    assert!(cache.get(&Thread::Group(key(9))).is_none());
}

#[test]
fn replace_is_atomic() {
    let mut cache = Cache::new();
    let sender = match fill_contact(&mut cache, 7, "Ada", false, 1) {
        Chat::Contact(c) => c,
        _ => unreachable!(),
    };
    let mut store = ThreadStore::new();
    store.insert(message(100, "old", &sender));
    store.insert(message(50, "other", &sender));
    store.apply(SignalAction::Replace(100, message(120, "new", &sender)));
    assert!(!store.contains(100));
    assert!(store.contains(120));
    assert!(store.contains(50));
    assert_eq!(store.len(), 2);
}

#[test]
fn delete_absent_is_a_no_op() {
    let mut cache = Cache::new();
    let sender = match fill_contact(&mut cache, 7, "Ada", false, 1) {
        Chat::Contact(c) => c,
        _ => unreachable!(),
    };
    let mut store = ThreadStore::new();
    store.insert(message(100, "a", &sender));
    store.apply(SignalAction::Delete(999));
    assert_eq!(store.len(), 1);
    assert!(store.contains(100));
    assert_eq!(store.entries[0].0, 100);
    // deleting a present timestamp removes exactly that one
    store.apply(SignalAction::Delete(100));
    assert_eq!(store.len(), 0);
}

#[test]
fn replay_order_is_irrelevant() {
    let mut cache = Cache::new();
    let sender = match fill_contact(&mut cache, 7, "Ada", false, 1) {
        Chat::Contact(c) => c,
        _ => unreachable!(),
    };
    let timestamps = [40u64, 10, 30, 20, 50];
    let mut forward = ThreadStore::new();
    for ts in timestamps {
        forward.apply(SignalAction::Message(message(ts, "m", &sender), false));
    }
    let mut backward = ThreadStore::new();
    let reversed: Vec<_> = timestamps.iter().rev().map(|ts| message(*ts, "m", &sender)).collect();
    backward.replay(reversed);
    assert_eq!(forward.len(), backward.len());
    let sorted: Vec<u64> = forward.entries.iter().map(|e| e.0).collect();
    assert_eq!(sorted, vec![10, 20, 30, 40, 50]);
    for (a, b) in forward.entries.iter().zip(backward.entries.iter()) {
        assert_eq!(a.0, b.0);
        assert_eq!(a.1.sender.name, b.1.sender.name);
    }
}

#[test]
fn self_send_round_trip() {
    let mut cache = Cache::new();
    let me = fill_contact(&mut cache, 1, "Me", true, 1);
    let friend = fill_contact(&mut cache, 7, "Ada", false, 1);

    let plan = compose_send(&friend, "hello".to_owned(), Vec::new(), None, 1234, 1).unwrap();
    assert!(matches!(plan.target, SendTarget::Direct(7)));
    assert_eq!(plan.timestamp, 1234);
    assert!(plan.delete_first.is_none());

    match decode_content(plan.sync_content, &cache, true) {
        DecodeStep::Emit(chat, SignalAction::Message(msg, live), store_delete) => {
            assert!(matches!(chat, Chat::Contact(c) if c.uuid == 7));
            assert!(!live);
            assert!(store_delete.is_none());
            assert!(msg.sender.is_self);
            assert_eq!(msg.timestamp, 1234);
            let spans = msg.body.unwrap();
            let rendered: String = spans.iter().map(|s| s.text.as_str()).collect();
            assert_eq!(rendered, "hello");
        }
        _ => panic!("self-send must decode to an insert"),
    }
    drop(me);
}

#[test]
fn blank_send_composes_nothing() {
    let chat = Chat::Contact(Contact {
        key: key(1),
        uuid: 7,
        name: "Ada".to_owned(),
        avatar: None,
        is_self: false,
    });
    assert!(compose_send(&chat, "   ".to_owned(), Vec::new(), None, 1, 1).is_none());
    assert!(compose_send(&chat, "".to_owned(), Vec::new(), None, 1, 1).is_none());
}

#[test]
fn edit_decodes_to_replace_and_purges_store() {
    let mut cache = Cache::new();
    fill_contact(&mut cache, 1, "Me", true, 1);
    let friend = fill_contact(&mut cache, 7, "Ada", false, 1);

    let plan =
        foghorn::session::compose_edit(&friend, "better".to_owned(), Vec::new(), 1000, 2000, 1)
            .unwrap();
    match &plan.delete_first {
        Some((Thread::Contact(7), 1000)) => {}
        other => panic!("edit must delete the superseded record first: {other:?}"),
    }

    match decode_content(plan.sync_content, &cache, false) {
        DecodeStep::Emit(chat, SignalAction::Replace(target, msg), store_delete) => {
            assert!(matches!(chat, Chat::Contact(c) if c.uuid == 7));
            assert_eq!(target, 1000);
            assert_eq!(msg.timestamp, 2000);
            assert!(msg.sender.is_self);
            match store_delete {
                Some((Thread::Contact(7), 1000)) => {}
                other => panic!("decode must delete the stored record: {other:?}"),
            }
        }
        _ => panic!("edit transcript must decode to a replace"),
    }
}

#[test]
fn received_delete_decodes() {
    let mut cache = Cache::new();
    fill_contact(&mut cache, 7, "Ada", false, 1);
    let content = Content {
        metadata: Metadata {
            sender: 7,
            destination: 1,
            timestamp: 5000,
        },
        body: ContentBody::DataMessage(DataMessage {
            body: None,
            attachments: Vec::new(),
            group_v2: None,
            profile_key: Some(key(1)),
            quote: None,
            sticker: None,
            delete: Some(Delete {
                target_sent_timestamp: Some(777),
            }),
            body_ranges: Vec::new(),
        }),
    };
    match decode_content(content, &cache, true) {
        DecodeStep::Emit(_, SignalAction::Delete(777), None) => {}
        other => panic!("must decode to a delete: {other:?}"),
    }
}

#[test]
fn unknown_sender_demands_one_fetch() {
    let cache = Cache::new();
    let content = plain_envelope(7, 5000, "hi", Some(key(1)));
    match decode_content(content, &cache, false) {
        DecodeStep::NeedContact(7, k) => assert_eq!(k, key(1)),
        other => panic!("must demand a contact fetch: {other:?}"),
    }
    // without a profile key the envelope is silently dropped
    let content = plain_envelope(7, 5000, "hi", None);
    assert!(matches!(
        decode_content(content, &cache, false),
        DecodeStep::Skip
    ));
}

#[test]
fn receipts_are_skipped() {
    let cache = Cache::new();
    let content = Content {
        metadata: Metadata {
            sender: 7,
            destination: 1,
            timestamp: 1,
        },
        body: ContentBody::Other,
    };
    assert!(matches!(
        decode_content(content, &cache, true),
        DecodeStep::Skip
    ));
}

#[test]
fn quote_of_unknown_author_degrades_gracefully() {
    let mut cache = Cache::new();
    fill_contact(&mut cache, 7, "Ada", false, 1);
    let quote = ProtoQuote {
        id: Some(42),
        author_aci: Some("00000000-0000-0000-0000-0000000000ff".to_owned()),
        text: Some("quoted".to_owned()),
        attachments: Vec::new(),
        body_ranges: Vec::new(),
    };
    let q = foghorn::message::Quote::new(quote, &cache);
    assert_eq!(q.timestamp, 42);
    assert!(q.sender.is_none());
}

#[test]
fn quote_of_cached_author_is_resolved() {
    let mut cache = Cache::new();
    // uuid 7 printed in canonical form
    let aci = "00000000-0000-0000-0000-000000000007";
    fill_contact(&mut cache, 7, "Ada", false, 1);
    let quote = ProtoQuote {
        id: Some(42),
        author_aci: Some(aci.to_owned()),
        text: None,
        attachments: Vec::new(),
        body_ranges: Vec::new(),
    };
    let q = foghorn::message::Quote::new(quote, &cache);
    let sender = q.sender.expect("cached author must resolve");
    assert_eq!(sender.uuid, 7);
    assert_eq!(sender.name, "Ada");
    assert!(q.body.is_none());
}

#[test]
fn attachment_image_decision() {
    let png = Attachment::new(AttachmentPointer {
        content_type: Some("image/png".to_owned()),
    });
    assert!(png.is_image);
    let text = Attachment::new(AttachmentPointer {
        content_type: Some("text/plain".to_owned()),
    });
    assert!(!text.is_image);
    let garbage = Attachment::new(AttachmentPointer {
        content_type: Some("not a mime".to_owned()),
    });
    assert!(!garbage.is_image);
    let missing = Attachment::new(AttachmentPointer { content_type: None });
    assert!(!missing.is_image);
}

#[test]
fn stream_machine_flips_synced_once() {
    let mut state = SessionState::new();
    state.complete_registration(1);
    assert!(!state.synced);

    // an envelope before the queue drains is not live
    state.cache.insert_contact(7, key(1), Some("Ada".to_owned()), Some(None), 1);
    match state.on_stream_item(StreamItem::Content(plain_envelope(7, 10, "early", Some(key(1))))) {
        StreamStep::Forward(_, SignalAction::Message(_, live), _) => assert!(!live),
        other => panic!("must forward: {other:?}"),
    }

    assert!(matches!(
        state.on_stream_item(StreamItem::QueueEmpty),
        StreamStep::Synced
    ));
    assert!(state.synced);

    // after the drain marker, inserts are live
    match state.on_stream_item(StreamItem::Content(plain_envelope(7, 20, "late", Some(key(1))))) {
        StreamStep::Forward(_, SignalAction::Message(_, live), _) => assert!(live),
        other => panic!("must forward: {other:?}"),
    }

    assert!(matches!(
        state.on_stream_item(StreamItem::Contacts),
        StreamStep::Resync
    ));
}

#[test]
fn sync_insert_is_never_live() {
    let mut cache = Cache::new();
    fill_contact(&mut cache, 1, "Me", true, 1);
    fill_contact(&mut cache, 7, "Ada", false, 1);
    let content = Content {
        metadata: Metadata {
            sender: 1,
            destination: 1,
            timestamp: 60,
        },
        body: ContentBody::SynchronizeMessage(SyncMessage {
            sent: Some(Sent {
                destination_service_id: Some("00000000-0000-0000-0000-000000000007".to_owned()),
                message: Some(DataMessage {
                    body: Some("sent elsewhere".to_owned()),
                    attachments: Vec::new(),
                    group_v2: None,
                    profile_key: None,
                    quote: None,
                    sticker: Some(Sticker { data: None }),
                    delete: None,
                    body_ranges: Vec::new(),
                }),
                edit_message: None,
            }),
        }),
    };
    match decode_content(content, &cache, true) {
        DecodeStep::Emit(_, SignalAction::Message(msg, live), _) => {
            assert!(!live);
            assert!(msg.sender.is_self);
            assert!(msg.sticker.is_none());
        }
        other => panic!("must decode to an insert: {other:?}"),
    }
}

#[test]
fn edit_without_payload_falls_through() {
    let cache = Cache::new();
    // an edit without data decodes nothing
    let content = Content {
        metadata: Metadata {
            sender: 7,
            destination: 1,
            timestamp: 1,
        },
        body: ContentBody::EditMessage(EditMessage {
            target_sent_timestamp: Some(5),
            data_message: None,
        }),
    };
    assert!(matches!(
        decode_content(content, &cache, false),
        DecodeStep::Skip
    ));
}

#[test]
fn send_with_quote_round_trips() {
    let mut cache = Cache::new();
    fill_contact(&mut cache, 1, "Me", true, 1);
    let friend = fill_contact(&mut cache, 7, "Ada", false, 1);
    let quoted = foghorn::message::Quote {
        timestamp: 900,
        body: Some(vec![foghorn::span::SignalSpan {
            text: "earlier words".to_owned(),
            flags: 0,
            link: None,
            mention: None,
            spoiler_tag: None,
        }]),
        attachments: vec![Attachment::new(AttachmentPointer {
            content_type: Some("image/jpeg".to_owned()),
        })],
        sender: friend.contact(),
    };
    let plan = compose_send(&friend, "reply".to_owned(), Vec::new(), Some(quoted), 2000, 1)
        .unwrap();
    match decode_content(plan.sync_content, &cache, false) {
        DecodeStep::Emit(_, SignalAction::Message(msg, _), _) => {
            let q = msg.quote.expect("the quote must survive the round trip");
            assert_eq!(q.timestamp, 900);
            let sender = q.sender.expect("the quoted author is cached");
            assert_eq!(sender.uuid, 7);
            let body = q.body.expect("the quoted text must survive");
            let rendered: String = body.iter().map(|s| s.text.as_str()).collect();
            assert_eq!(rendered, "earlier words");
            // the attachment came back as its thumbnail, still an image
            assert_eq!(q.attachments.len(), 1);
            assert_eq!(
                q.attachments[0].ptr.content_type.as_deref(),
                Some("image/jpeg")
            );
            assert!(q.attachments[0].is_image);
        }
        other => panic!("must decode to an insert: {other:?}"),
    }
}

#[test]
fn message_freezes_into_quote() {
    let mut cache = Cache::new();
    let sender = match fill_contact(&mut cache, 7, "Ada", false, 1) {
        Chat::Contact(c) => c,
        _ => unreachable!(),
    };
    let m = message(123, "x", &sender);
    let q: foghorn::message::Quote = m.into();
    assert_eq!(q.timestamp, 123);
    assert_eq!(q.sender.unwrap().uuid, 7);
}

#[test]
fn quote_keeps_only_thumbnails_in_order() {
    let cache = Cache::new();
    let quote = ProtoQuote {
        id: Some(5),
        author_aci: None,
        text: None,
        attachments: vec![
            foghorn::proto::QuotedAttachment {
                content_type: Some("application/pdf".to_owned()),
                thumbnail: Some(AttachmentPointer {
                    content_type: Some("image/png".to_owned()),
                }),
            },
            foghorn::proto::QuotedAttachment {
                content_type: Some("text/plain".to_owned()),
                thumbnail: None,
            },
            foghorn::proto::QuotedAttachment {
                content_type: None,
                thumbnail: Some(AttachmentPointer {
                    content_type: Some("text/plain".to_owned()),
                }),
            },
        ],
        body_ranges: Vec::new(),
    };
    let q = foghorn::message::Quote::new(quote, &cache);
    assert_eq!(q.attachments.len(), 2);
    assert_eq!(q.attachments[0].ptr.content_type.as_deref(), Some("image/png"));
    assert!(q.attachments[0].is_image);
    assert_eq!(q.attachments[1].ptr.content_type.as_deref(), Some("text/plain"));
    assert!(!q.attachments[1].is_image);
}

#[test]
fn decoded_attachments_keep_their_order() {
    let mut cache = Cache::new();
    fill_contact(&mut cache, 7, "Ada", false, 1);
    let mut content = plain_envelope(7, 42, "with files", Some(key(1)));
    if let ContentBody::DataMessage(dm) = &mut content.body {
        dm.attachments = vec![
            AttachmentPointer {
                content_type: Some("image/png".to_owned()),
            },
            AttachmentPointer {
                content_type: Some("application/pdf".to_owned()),
            },
        ];
    }
    match decode_content(content, &cache, false) {
        DecodeStep::Emit(_, SignalAction::Message(msg, _), _) => {
            assert_eq!(msg.attachments.len(), 2);
            assert_eq!(msg.attachments[0].ptr.content_type.as_deref(), Some("image/png"));
            assert!(msg.attachments[0].is_image);
            assert_eq!(
                msg.attachments[1].ptr.content_type.as_deref(),
                Some("application/pdf")
            );
            assert!(!msg.attachments[1].is_image);
        }
        other => panic!("must decode to an insert: {other:?}"),
    }
}
