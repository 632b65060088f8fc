//! The session actor's decisions.
//!
//! One cooperative event loop per session owns the backend handle and the
//! cache, and serializes every state-mutating operation. The loop itself —
//! channels, spawned sub-tasks, backend I/O — lives in the embedding
//! program; this module owns what the loop decides: command dispatch, the
//! synced-flag stream machine, and the composition of outgoing sends and
//! edits, whose transcript round-trips through the same decoder as inbound
//! traffic.

use vstd::prelude::*;

use crate::cache::Cache;
use crate::ids::{uuid_text_of, uuid_to_string, uuid_value_of};
use crate::message::{clone_bytes, Chat, ChatV, ContactV, DecodeStep, Message, Quote, SignalAction,
    StepShape, ActionShape, Thread, ThreadV, decode_content, decoded_payload, emitted_message_ok,
    spec_decode_shape};
use crate::proto::{AttachmentPointer, BodyRange, Content, ContentBody, DataMessage, EditMessage, Metadata,
    ProtoQuote, QuotedAttachment, Sent, SyncMessage};
use crate::span::rendered_text;

verus! {

/// What a string trims to: its characters with leading and trailing
/// whitespace removed.
pub uninterp spec fn trimmed_of(s: Seq<char>) -> Seq<char>;

/// A string is blank when it trims to nothing.
pub open spec fn blank(s: Seq<char>) -> bool {
    trimmed_of(s).len() == 0
}

/// Relies on std's `str::trim`: what a string trims to depends on its
/// characters alone, and an empty string trims to itself.
#[verifier::external_body]
fn trim(s: &str) -> (r: &str)
    ensures
        r@ == trimmed_of(s@),
        s@.len() == 0 ==> r@.len() == 0,
{
    s.trim()
}

/// Whether a string is empty after trimming leading and trailing
/// whitespace.
fn trims_to_empty(s: &str) -> (r: bool)
    ensures
        r == blank(s@),
        s@.len() == 0 ==> r,
{
    trim(s).is_empty()
}

/// The commands the front end submits over the command queue.
pub enum Command {
    /// Load a previously registered session.
    LoadSession,
    /// Initiate device linking; the one-time URL is pushed to the caller.
    LinkDevice,
    /// Begin full synchronization, then forward live events indefinitely.
    StreamEvents,
    /// Compose, transmit, persist and decode an outgoing message.
    SendMessage(Chat, String, Option<Quote>),
    /// Same, but replacing the message at the given timestamp.
    EditMessage(Chat, String, u64),
    /// Terminate the loop.
    Shutdown,
}

/// The backend-facing work the loop spawns for a command.
pub enum Dispatch {
    StartLoad,
    StartLink,
    StartStream,
    StartSend(Chat, String, Option<Quote>),
    StartEdit(Chat, String, u64),
    Stop,
}

/// One unit from the backend's live message stream.
pub enum StreamItem {
    /// A decrypted envelope.
    Content(Content),
    /// The catch-up queue has drained: subsequent inserts are live.
    QueueEmpty,
    /// The contact list changed: re-run the contact warm-up.
    Contacts,
}

/// What the stream loop must do with one item.
#[derive(Debug)]
pub enum StreamStep {
    /// Delete the stored record, if one is named, then push the pair to the
    /// front end.
    Forward(Chat, SignalAction, Option<(Thread, u64)>),
    /// Fetch this contact's profile and avatar, apply them to the cache,
    /// and decode the envelope again.
    FetchContact(u128, Vec<u8>),
    /// Refresh this group in full at the cited revision, and decode the
    /// envelope again.
    RefreshGroup(Vec<u8>, u32),
    /// Unsupported or failed decode: log it and move on.
    Drop,
    /// The synced flag flipped: nothing to forward.
    Synced,
    /// Re-run the contact warm-up.
    Resync,
}

/// The state the session actor owns.
pub struct SessionState {
    /// Whether a registered handle has been loaded or linked.
    pub registered: bool,
    /// This account's identifier, known once a handle exists.
    pub self_uuid: Option<u128>,
    /// The chat cache, confined to the actor.
    pub cache: Cache,
    /// Whether the catch-up replay has completed.
    pub synced: bool,
}

impl SessionState {
    pub open spec fn wf(self) -> bool {
        &&& self.cache.wf()
        &&& (self.registered ==> self.self_uuid is Some)
    }

    /// A fresh session: no handle, an empty cache, catch-up not yet done.
    pub fn new() -> (s: Self)
        ensures
            s.wf(),
            !s.registered,
            !s.synced,
            s.cache.as_map() == Map::<ThreadV, ChatV>::empty(),
    {
        SessionState { registered: false, self_uuid: None, cache: Cache::new(), synced: false }
    }

    /// Records that loading or linking produced a handle for this account.
    /// Idempotent once succeeded: a second success leaves the session
    /// registered.
    pub fn complete_registration(&mut self, self_uuid: u128)
        requires
            old(self).wf(),
        ensures
            final(self).wf(),
            final(self).registered,
            final(self).self_uuid == Some(self_uuid),
            final(self).cache == old(self).cache,
            final(self).synced == old(self).synced,
    {
        self.registered = true;
        self.self_uuid = Some(self_uuid);
    }

    /// Decides what to spawn for one command. The loop never blocks here:
    /// every unit of backend I/O runs as a sub-task. Streaming may only be
    /// requested once a handle exists; requesting it earlier is a caller
    /// error.
    pub fn dispatch(&self, command: Command) -> (d: Dispatch)
        requires
            self.wf(),
            command is StreamEvents ==> self.registered,
        ensures
            d == match command {
                Command::LoadSession => Dispatch::StartLoad,
                Command::LinkDevice => Dispatch::StartLink,
                Command::StreamEvents => Dispatch::StartStream,
                Command::SendMessage(chat, text, quote) => Dispatch::StartSend(chat, text, quote),
                Command::EditMessage(chat, text, target) => Dispatch::StartEdit(chat, text, target),
                Command::Shutdown => Dispatch::Stop,
            },
    {
        match command {
            Command::LoadSession => Dispatch::StartLoad,
            Command::LinkDevice => Dispatch::StartLink,
            Command::StreamEvents => Dispatch::StartStream,
            Command::SendMessage(chat, text, quote) => Dispatch::StartSend(chat, text, quote),
            Command::EditMessage(chat, text, target) => Dispatch::StartEdit(chat, text, target),
            Command::Shutdown => Dispatch::Stop,
        }
    }

    /// Consumes one item of the live stream: envelopes go through the
    /// decoder against the current cache and synced flag, the queue-empty
    /// marker flips the synced flag from false to true, and the contacts
    /// marker asks for a new warm-up.
    pub fn on_stream_item(&mut self, item: StreamItem) -> (s: StreamStep)
        requires
            old(self).wf(),
            old(self).registered,
        ensures
            final(self).wf(),
            final(self).registered,
            final(self).cache == old(self).cache,
            final(self).self_uuid == old(self).self_uuid,
            item is QueueEmpty ==> final(self).synced && s is Synced,
            !(item is QueueEmpty) ==> final(self).synced == old(self).synced,
            item is Contacts ==> s is Resync,
            item matches StreamItem::Content(c) ==> match spec_decode_shape(
                c,
                old(self).cache.as_map(),
                old(self).synced,
            ) {
                StepShape::Skip => s is Drop,
                StepShape::NeedContact(u, k) => s matches StreamStep::FetchContact(u2, k2) && u2
                    == u && k2.deep_view() == k,
                StepShape::NeedGroup(k, rev) => s matches StreamStep::RefreshGroup(k2, rev2)
                    && k2.deep_view() == k && rev2 == rev,
                StepShape::Emit { chat, action, store_delete } => s
                    matches StreamStep::Forward(c2, a2, sd2) && c2.deep_view() == chat && a2.shape()
                    == action && (match sd2 {
                    Some((t, ts)) => store_delete == Some((t.deep_view(), ts)),
                    None => store_delete is None,
                }) && (a2 matches SignalAction::Message(msg, l) ==> (decoded_payload(
                    c,
                ) matches Some(dm) && emitted_message_ok(old(self).cache.as_map(), dm, msg))) && (
                a2 matches SignalAction::Replace(t, msg) ==> (decoded_payload(c) matches Some(dm)
                    && emitted_message_ok(old(self).cache.as_map(), dm, msg))),
            },
    {
        match item {
            StreamItem::Content(c) => match decode_content(c, &self.cache, self.synced) {
                DecodeStep::Skip => StreamStep::Drop,
                DecodeStep::NeedContact(u, k) => StreamStep::FetchContact(u, k),
                DecodeStep::NeedGroup(k, rev) => StreamStep::RefreshGroup(k, rev),
                DecodeStep::Emit(chat, action, sd) => StreamStep::Forward(chat, action, sd),
            },
            StreamItem::QueueEmpty => {
                self.synced = true;
                StreamStep::Synced
            },
            StreamItem::Contacts => StreamStep::Resync,
        }
    }
}

/// Where an outgoing message is transmitted.
pub enum SendTarget {
    /// Directly to the contact with this identifier.
    Direct(u128),
    /// To the group with this 32-byte master key.
    Group(Vec<u8>),
}

/// Everything the send sub-task needs: what to transmit, where, which
/// stored record to delete first (for edits), and the transcript envelope
/// to persist and feed back through the decoder.
pub struct SendPlan {
    /// The destination of the transmission.
    pub target: SendTarget,
    /// For edits: the superseded stored record to delete before sending,
    /// so a restart never re-surfaces the pre-edit copy.
    pub delete_first: Option<(Thread, u64)>,
    /// The self-sync envelope: persisted under `thread` and decoded through
    /// the same path as inbound messages.
    pub sync_content: Content,
    /// The timestamp stamped on the outgoing message.
    pub timestamp: u64,
    /// The thread the transcript is persisted under.
    pub thread: Thread,
}

/// Turns a quote back into its wire form for retransmission: the quoted
/// text is the rendering of the quote's spans.
#[verifier::loop_isolation(false)]
fn quote_to_proto(quote: Quote) -> (r: ProtoQuote)
    ensures
        composed_quote_ok(quote, r),
{
    let Quote { timestamp, body, attachments, sender } = quote;
    let author_aci = match sender {
        Some(c) => Some(uuid_to_string(c.uuid)),
        None => None,
    };
    let text = match &body {
        Some(spans) => {
            let mut out = String::new();
            let mut i: usize = 0;
            while i < spans.len()
                invariant
                    i <= spans@.len(),
                    out@ == rendered_text(spans.deep_view().subrange(0, i as int)),
                decreases spans.len() - i,
            {
                out.append(spans[i].text.as_str());
                i += 1;
                proof {
                    crate::message::lemma_vec_deep_view(*spans);
                    let prefix = spans.deep_view().subrange(0, i as int);
                    assert(prefix.drop_last() =~= spans.deep_view().subrange(0, i as int - 1));
                    assert(out@ == rendered_text(prefix));
                }
            }
            proof {
                assert(spans.deep_view().subrange(0, spans@.len() as int) =~= spans.deep_view());
            }
            Some(out)
        },
        None => None,
    };
    let mut quoted: Vec<QuotedAttachment> = Vec::new();
    let mut i: usize = 0;
    while i < attachments.len()
        invariant
            i <= attachments@.len(),
            quoted@.len() == i,
            forall|j: int| 0 <= j < i ==> composed_attachment_ok(
                attachments@[j],
                #[trigger] quoted@[j],
            ),
        decreases attachments.len() - i,
    {
        let content_type = match &attachments[i].ptr.content_type {
            Some(ct) => Some(ct.clone()),
            None => None,
        };
        let thumbnail_type = match &attachments[i].ptr.content_type {
            Some(ct) => Some(ct.clone()),
            None => None,
        };
        quoted.push(
            QuotedAttachment {
                content_type,
                thumbnail: Some(AttachmentPointer { content_type: thumbnail_type }),
            },
        );
        i += 1;
    }
    ProtoQuote { id: Some(timestamp), author_aci, text, attachments: quoted, body_ranges: Vec::new() }
}

/// How one kept attachment reappears in a composed wire quote: its declared
/// content type both as the quoted attachment's type and on its thumbnail
/// pointer.
pub open spec fn composed_attachment_ok(a: crate::message::Attachment, qa: QuotedAttachment) -> bool {
    &&& qa.content_type.deep_view() == a.ptr.content_type.deep_view()
    &&& (qa.thumbnail matches Some(t) && t.content_type.deep_view() == a.ptr.content_type.deep_view())
}

/// What the wire form of a composed quote preserves: the quoted timestamp
/// as its id, the quoted author's identifier as text (parsing back to the
/// same value), the rendering of the quoted spans as its text, one quoted
/// attachment per kept attachment in order, and no ranges.
pub open spec fn composed_quote_ok(q: Quote, pq: ProtoQuote) -> bool {
    &&& pq.id == Some(q.timestamp)
    &&& (q.sender is None ==> pq.author_aci is None)
    &&& (q.sender matches Some(c) ==> (pq.author_aci matches Some(a) && a@ == uuid_text_of(c.uuid)
        && uuid_value_of(a@) == Some(c.uuid)))
    &&& (q.body is None ==> pq.text is None)
    &&& (q.body matches Some(spans) ==> (pq.text matches Some(t) && t@ == rendered_text(
        spans.deep_view(),
    )))
    &&& pq.body_ranges@.len() == 0
    &&& pq.attachments@.len() == q.attachments@.len()
    &&& (forall|i: int| 0 <= i < q.attachments@.len() ==> composed_attachment_ok(
        q.attachments@[i],
        #[trigger] pq.attachments@[i],
    ))
}

/// What the payload of a composed message promises: the given body and
/// ranges, no deletion, no sticker, no attachments, and the chat's own
/// group context.
pub open spec fn composed_payload_ok(chat: ChatV, dm: DataMessage, body: Seq<char>,
    ranges: Seq<BodyRange>) -> bool {
    &&& (dm.body matches Some(b) && b@ == body)
    &&& dm.body_ranges@ == ranges
    &&& dm.delete is None
    &&& dm.sticker is None
    &&& dm.attachments@.len() == 0
    &&& (chat is Contact ==> dm.group_v2 is None)
    &&& (chat matches ChatV::Group(g) ==> (dm.group_v2 matches Some(ctx) && (
    ctx.master_key matches Some(mk) && mk.deep_view() == g.key) && ctx.revision == Some(
        g.revision,
    )))
}

/// What the transcript destination of a composed message promises: the
/// contact's identifier as text for direct chats, absent for groups.
pub open spec fn composed_destination_ok(chat: ChatV, dest: Option<String>) -> bool {
    &&& (chat matches ChatV::Contact(c) ==> (dest matches Some(d) && d@ == uuid_text_of(c.uuid)
        && uuid_value_of(d@) == Some(c.uuid)))
    &&& (chat is Group ==> dest is None)
}

/// Where a composed message is transmitted: directly to the contact, or to
/// the group by its master key.
pub open spec fn composed_target_ok(chat: ChatV, target: SendTarget) -> bool {
    &&& (chat matches ChatV::Contact(c) ==> (target matches SendTarget::Direct(u) && u == c.uuid))
    &&& (chat matches ChatV::Group(g) ==> (target matches SendTarget::Group(k) && k.deep_view()
        == g.key))
}

/// Composes an outgoing message for a chat: the payload to transmit, and
/// the self-sync transcript that is persisted and decoded through the same
/// path as inbound messages. A body that trims to nothing composes nothing
/// and the command is silently dropped.
pub fn compose_send(chat: &Chat, body: String, body_ranges: Vec<BodyRange>,
    quote: Option<Quote>, now_ms: u64, self_uuid: u128) -> (r: Option<SendPlan>)
    ensures
        r is Some <==> !blank(body@),
        r is Some ==> body@.len() > 0,
        r matches Some(plan) ==> {
            &&& plan.timestamp == now_ms
            &&& plan.delete_first is None
            &&& plan.thread.deep_view() == chat.deep_view().thread()
            &&& composed_target_ok(chat.deep_view(), plan.target)
            &&& plan.sync_content.metadata == (Metadata {
                sender: self_uuid,
                destination: self_uuid,
                timestamp: now_ms,
            })
            &&& (plan.sync_content.body matches ContentBody::SynchronizeMessage(sm) && (
            sm.sent matches Some(sent) && sent.edit_message is None && composed_destination_ok(
                chat.deep_view(),
                sent.destination_service_id,
            ) && (sent.message matches Some(dm) && composed_payload_ok(
                chat.deep_view(),
                dm,
                body@,
                body_ranges@,
            ) && (quote is None ==> dm.quote is None) && (quote matches Some(q) ==> (
            dm.quote matches Some(pq) && composed_quote_ok(q, pq))))))
        },
{
    if trims_to_empty(body.as_str()) {
        return None;
    }

    let data = DataMessage {
        body: Some(body),
        attachments: Vec::new(),
        group_v2: chat.group_context(),
        profile_key: chat.profile_key(),
        quote: match quote {
            Some(q) => Some(quote_to_proto(q)),
            None => None,
        },
        sticker: None,
        delete: None,
        body_ranges,
    };

    let target = match chat {
        Chat::Contact(contact) => SendTarget::Direct(contact.uuid),
        Chat::Group(group) => SendTarget::Group(clone_bytes(&group.key)),
    };

    let destination_service_id = match chat.uuid() {
        Some(u) => Some(uuid_to_string(u)),
        None => None,
    };

    let sync_content = Content {
        metadata: Metadata { sender: self_uuid, destination: self_uuid, timestamp: now_ms },
        body: ContentBody::SynchronizeMessage(
            SyncMessage {
                sent: Some(
                    Sent { destination_service_id, message: Some(data), edit_message: None },
                ),
            },
        ),
    };

    Some(
        SendPlan {
            target,
            delete_first: None,
            sync_content,
            timestamp: now_ms,
            thread: chat.thread(),
        },
    )
}

/// Composes the replacement of an earlier message: like a send, but the
/// transcript carries an edit of the target timestamp, and the superseded
/// stored record is deleted before transmission.
pub fn compose_edit(chat: &Chat, body: String, body_ranges: Vec<BodyRange>, target_ts: u64,
    now_ms: u64, self_uuid: u128) -> (r: Option<SendPlan>)
    ensures
        r is Some <==> !blank(body@),
        r is Some ==> body@.len() > 0,
        r matches Some(plan) ==> {
            &&& plan.timestamp == now_ms
            &&& plan.thread.deep_view() == chat.deep_view().thread()
            &&& (plan.delete_first matches Some((t, ts)) && t.deep_view()
                == chat.deep_view().thread() && ts == target_ts)
            &&& composed_target_ok(chat.deep_view(), plan.target)
            &&& plan.sync_content.metadata == (Metadata {
                sender: self_uuid,
                destination: self_uuid,
                timestamp: now_ms,
            })
            &&& (plan.sync_content.body matches ContentBody::SynchronizeMessage(sm) && (
            sm.sent matches Some(sent) && sent.message is None && composed_destination_ok(
                chat.deep_view(),
                sent.destination_service_id,
            ) && (sent.edit_message matches Some(em) && em.target_sent_timestamp == Some(target_ts)
                && (em.data_message matches Some(dm) && composed_payload_ok(
                chat.deep_view(),
                dm,
                body@,
                body_ranges@,
            ) && dm.quote is None))))
        },
{
    if trims_to_empty(body.as_str()) {
        return None;
    }

    let data = DataMessage {
        body: Some(body),
        attachments: Vec::new(),
        group_v2: chat.group_context(),
        profile_key: chat.profile_key(),
        quote: None,
        sticker: None,
        delete: None,
        body_ranges,
    };

    let target = match chat {
        Chat::Contact(contact) => SendTarget::Direct(contact.uuid),
        Chat::Group(group) => SendTarget::Group(clone_bytes(&group.key)),
    };

    let destination_service_id = match chat.uuid() {
        Some(u) => Some(uuid_to_string(u)),
        None => None,
    };

    let thread = chat.thread();
    let delete_thread = thread.clone();

    let sync_content = Content {
        metadata: Metadata { sender: self_uuid, destination: self_uuid, timestamp: now_ms },
        body: ContentBody::SynchronizeMessage(
            SyncMessage {
                sent: Some(
                    Sent {
                        destination_service_id,
                        message: None,
                        edit_message: Some(
                            EditMessage {
                                target_sent_timestamp: Some(target_ts),
                                data_message: Some(data),
                            },
                        ),
                    },
                ),
            },
        ),
    };

    Some(
        SendPlan {
            target,
            delete_first: Some((delete_thread, target_ts)),
            sync_content,
            timestamp: now_ms,
            thread,
        },
    )
}

/// Self-send round trip: the transcript of a composed direct message, fed
/// through the decoder against a cache that holds both the destination and
/// the account's own contact, decodes to a plain insert of the composed
/// timestamp, sent by the account itself and never flagged live; and any
/// message decoded from that transcript has a sender marked as self and a
/// body rendering to exactly the composed text.
pub proof fn lemma_self_send_round_trip(
    content: Content,
    dm: DataMessage,
    m: Map<ThreadV, ChatV>,
    self_uuid: u128,
    dest_uuid: u128,
    self_c: ContactV,
    synced: bool,
)
    requires
        content.metadata.sender == self_uuid,
        content.body matches ContentBody::SynchronizeMessage(sm) && (sm.sent matches Some(sent) && {
            &&& sent.edit_message is None
            &&& (sent.destination_service_id matches Some(d) && uuid_value_of(d@) == Some(
                dest_uuid,
            ))
            &&& sent.message == Some(dm)
        }),
        dm.group_v2 is None,
        dm.delete is None,
        dm.body matches Some(b) && b@.len() > 0,
        dm.body_ranges@.len() == 0,
        m.contains_key(ThreadV::Contact(dest_uuid)),
        m.contains_key(ThreadV::Contact(self_uuid)),
        m[ThreadV::Contact(self_uuid)] == ChatV::Contact(self_c),
        self_c.is_self,
    ensures
        spec_decode_shape(content, m, synced) == (StepShape::Emit {
            chat: m[ThreadV::Contact(dest_uuid)],
            action: ActionShape::Insert {
                timestamp: content.metadata.timestamp,
                sender: self_uuid,
                live: false,
            },
            store_delete: None,
        }),
        decoded_payload(content) == Some(dm),
        forall|msg: Message| #[trigger] emitted_message_ok(m, dm, msg) && msg.sender.uuid
            == self_uuid ==> msg.sender.deep_view().is_self && (msg.body matches Some(spans)
            && rendered_text(spans.deep_view()) == dm.body->0@),
{
    assert forall|msg: Message| #[trigger] emitted_message_ok(m, dm, msg) && msg.sender.uuid
        == self_uuid implies msg.sender.deep_view().is_self && (msg.body matches Some(spans)
        && rendered_text(spans.deep_view()) == dm.body->0@) by {
        assert(ChatV::Contact(msg.sender.deep_view()) == m[ThreadV::Contact(self_uuid)]);
        let single = crate::span::SpanV {
            text: dm.body->0@,
            flags: 0,
            link: None,
            mention: None,
            spoiler_tag: None,
        };
        let spans = msg.body->0;
        assert(spans.deep_view() =~= seq![single]);
        assert(seq![single].drop_last() =~= Seq::<crate::span::SpanV>::empty());
        assert(rendered_text(seq![single]) =~= single.text);
    }
}


/// One outcome of warming the cache for a stored contact or group
/// (the synchronization procedure's cache warm-up): either a synthetic
/// cache-population emission, or the fetch that must complete first.
#[derive(Debug)]
pub enum WarmupItem {
    /// Push this pair to the front end.
    Discovered(Chat, SignalAction),
    /// Fetch this contact's profile and avatar, apply them, and warm up
    /// again.
    FetchContact(u128, Vec<u8>),
    /// Refresh this group at its stored revision, and warm up again.
    RefreshGroup(Vec<u8>, u32),
    /// Unresolvable with what is stored: skipped.
    Skipped,
}

impl WarmupItem {
    /// Whether this outcome emits the given cached chat.
    pub open spec fn discovers(self, chat: ChatV) -> bool {
        self matches WarmupItem::Discovered(c, a) && c.deep_view() == chat && a is Contact
    }
}

/// The per-item decision of the contact warm-up: how one stored contact
/// record resolves against the cache.
fn warmup_contact(cache: &Cache, uuid: u128, profile_key: &Vec<u8>) -> (r: WarmupItem)
    requires
        cache.wf(),
    ensures
        match crate::cache::spec_resolve_contact(cache.as_map(), uuid, Some(profile_key.deep_view())) {
            crate::cache::ContactResolutionV::Cached(c) => r.discovers(c),
            crate::cache::ContactResolutionV::Fetch(u, k) => r matches WarmupItem::FetchContact(
                u2,
                k2,
            ) && u2 == u && k2.deep_view() == k,
            crate::cache::ContactResolutionV::Unresolvable => r is Skipped,
        },
{
    match cache.resolve_contact_step(uuid, Some(profile_key)) {
        crate::cache::ContactResolution::Cached(c) => WarmupItem::Discovered(
            c,
            SignalAction::Contact,
        ),
        crate::cache::ContactResolution::Fetch(u, k) => WarmupItem::FetchContact(u, k),
        crate::cache::ContactResolution::Unresolvable => WarmupItem::Skipped,
    }
}

/// The per-item decision of the contact warm-up for one stored group
/// record, cited at its stored revision.
fn warmup_group(cache: &Cache, key: &Vec<u8>, revision: u32) -> (r: WarmupItem)
    requires
        cache.wf(),
    ensures
        match crate::cache::spec_resolve_group(cache.as_map(), Some(key.deep_view()), revision) {
            crate::cache::GroupResolutionV::Cached(c) => r.discovers(c),
            crate::cache::GroupResolutionV::Refresh(k, rev) => r matches WarmupItem::RefreshGroup(
                k2,
                rev2,
            ) && k2.deep_view() == k && rev2 == rev,
            crate::cache::GroupResolutionV::Unresolvable => r is Skipped,
        },
{
    let context = crate::proto::GroupContextV2 {
        master_key: Some(crate::message::clone_bytes(key)),
        revision: Some(revision),
    };
    proof {
        crate::message::lemma_bytes_deep_view(*key);
        match &context.master_key {
            Some(k) => crate::message::lemma_bytes_deep_view(*k),
            None => (),
        }
    }
    match cache.resolve_group_step(&context) {
        crate::cache::GroupResolution::Cached(c) => WarmupItem::Discovered(
            c,
            SignalAction::Contact,
        ),
        crate::cache::GroupResolution::Refresh(k, rev) => WarmupItem::RefreshGroup(k, rev),
        crate::cache::GroupResolution::Unresolvable => WarmupItem::Skipped,
    }
}

/// The cache warm-up of the synchronization procedure: a synthetic
/// cache-population emission for the account itself and for every
/// resolvable stored contact and group, independent of message history.
/// Stored records that the cache cannot answer come back as the fetches
/// the warm-up is waiting for; the embedding program completes them and
/// runs the warm-up again.
#[verifier::loop_isolation(false)]
pub fn sync_contacts(
    cache: &Cache,
    me: u128,
    my_key: &Vec<u8>,
    contacts: &Vec<(u128, Vec<u8>)>,
    groups: &Vec<(Vec<u8>, u32)>,
) -> (r: Vec<WarmupItem>)
    requires
        cache.wf(),
    ensures
        r@.len() == 1 + contacts@.len() + groups@.len(),
        match crate::cache::spec_resolve_contact(cache.as_map(), me, Some(my_key.deep_view())) {
            crate::cache::ContactResolutionV::Cached(c) => r@[0].discovers(c),
            crate::cache::ContactResolutionV::Fetch(u, k) => r@[0] matches WarmupItem::FetchContact(
                u2,
                k2,
            ) && u2 == u && k2.deep_view() == k,
            crate::cache::ContactResolutionV::Unresolvable => r@[0] is Skipped,
        },
        forall|i: int| 0 <= i < contacts@.len() ==> match crate::cache::spec_resolve_contact(
            cache.as_map(),
            contacts@[i].0,
            Some(contacts@[i].1.deep_view()),
        ) {
            crate::cache::ContactResolutionV::Cached(c) => (#[trigger] r@[1 + i]).discovers(c),
            crate::cache::ContactResolutionV::Fetch(u, k) => r@[1 + i]
                matches WarmupItem::FetchContact(u2, k2) && u2 == u && k2.deep_view() == k,
            crate::cache::ContactResolutionV::Unresolvable => r@[1 + i] is Skipped,
        },
        forall|i: int| 0 <= i < groups@.len() ==> match crate::cache::spec_resolve_group(
            cache.as_map(),
            Some(groups@[i].0.deep_view()),
            groups@[i].1,
        ) {
            crate::cache::GroupResolutionV::Cached(c) => (#[trigger] r@[1 + contacts@.len() + i]).discovers(
                c,
            ),
            crate::cache::GroupResolutionV::Refresh(k, rev) => r@[1 + contacts@.len() + i]
                matches WarmupItem::RefreshGroup(k2, rev2) && k2.deep_view() == k && rev2 == rev,
            crate::cache::GroupResolutionV::Unresolvable => r@[1 + contacts@.len() + i] is Skipped,
        },
{
    let mut r: Vec<WarmupItem> = Vec::new();
    r.push(warmup_contact(cache, me, my_key));

    let mut i: usize = 0;
    while i < contacts.len()
        invariant
            cache.wf(),
            i <= contacts@.len(),
            r@.len() == 1 + i,
            match crate::cache::spec_resolve_contact(cache.as_map(), me, Some(my_key.deep_view())) {
                crate::cache::ContactResolutionV::Cached(c) => r@[0].discovers(c),
                crate::cache::ContactResolutionV::Fetch(u, k) => r@[0]
                    matches WarmupItem::FetchContact(u2, k2) && u2 == u && k2.deep_view() == k,
                crate::cache::ContactResolutionV::Unresolvable => r@[0] is Skipped,
            },
            forall|j: int| 0 <= j < i ==> match crate::cache::spec_resolve_contact(
                cache.as_map(),
                contacts@[j].0,
                Some(contacts@[j].1.deep_view()),
            ) {
                crate::cache::ContactResolutionV::Cached(c) => (#[trigger] r@[1 + j]).discovers(c),
                crate::cache::ContactResolutionV::Fetch(u, k) => r@[1 + j]
                    matches WarmupItem::FetchContact(u2, k2) && u2 == u && k2.deep_view() == k,
                crate::cache::ContactResolutionV::Unresolvable => r@[1 + j] is Skipped,
            },
        decreases contacts.len() - i,
    {
        r.push(warmup_contact(cache, contacts[i].0, &contacts[i].1));
        i += 1;
    }

    let ghost after_contacts = r@;
    proof {
        assert(forall|j: int| 0 <= j < contacts@.len() ==> match crate::cache::spec_resolve_contact(
            cache.as_map(),
            contacts@[j].0,
            Some(contacts@[j].1.deep_view()),
        ) {
            crate::cache::ContactResolutionV::Cached(c) => (#[trigger] after_contacts[1 + j]).discovers(
                c,
            ),
            crate::cache::ContactResolutionV::Fetch(u, k) => after_contacts[1 + j]
                matches WarmupItem::FetchContact(u2, k2) && u2 == u && k2.deep_view() == k,
            crate::cache::ContactResolutionV::Unresolvable => after_contacts[1 + j] is Skipped,
        });
        assert(match crate::cache::spec_resolve_contact(cache.as_map(), me, Some(my_key.deep_view())) {
            crate::cache::ContactResolutionV::Cached(c) => after_contacts[0].discovers(c),
            crate::cache::ContactResolutionV::Fetch(u, k) => after_contacts[0]
                matches WarmupItem::FetchContact(u2, k2) && u2 == u && k2.deep_view() == k,
            crate::cache::ContactResolutionV::Unresolvable => after_contacts[0] is Skipped,
        });
    }
    let mut g: usize = 0;
    while g < groups.len()
        invariant
            cache.wf(),
            g <= groups@.len(),
            r@.len() == 1 + contacts@.len() + g,
            r@.subrange(0, 1 + contacts@.len() as int) =~= after_contacts,
            after_contacts.len() == 1 + contacts@.len(),
            forall|j: int| 0 <= j < g ==> match crate::cache::spec_resolve_group(
                cache.as_map(),
                Some(groups@[j].0.deep_view()),
                groups@[j].1,
            ) {
                crate::cache::GroupResolutionV::Cached(c) => (#[trigger] r@[1 + contacts@.len()
                    + j]).discovers(c),
                crate::cache::GroupResolutionV::Refresh(k, rev) => r@[1 + contacts@.len() + j]
                    matches WarmupItem::RefreshGroup(k2, rev2) && k2.deep_view() == k && rev2
                    == rev,
                crate::cache::GroupResolutionV::Unresolvable => r@[1 + contacts@.len() + j] is Skipped,
            },
        decreases groups.len() - g,
    {
        r.push(warmup_group(cache, &groups[g].0, groups[g].1));
        g += 1;
    }
    proof {
        assert(r@.subrange(0, 1 + contacts@.len() as int) =~= after_contacts);
        assert(r@[0] == after_contacts[0]) by {
            assert(r@.subrange(0, 1 + contacts@.len() as int)[0] == r@[0]);
        }
        assert forall|j: int| 0 <= j < contacts@.len() implies match crate::cache::spec_resolve_contact(
            cache.as_map(),
            contacts@[j].0,
            Some(contacts@[j].1.deep_view()),
        ) {
            crate::cache::ContactResolutionV::Cached(c) => (#[trigger] r@[1 + j]).discovers(c),
            crate::cache::ContactResolutionV::Fetch(u, k) => r@[1 + j]
                matches WarmupItem::FetchContact(u2, k2) && u2 == u && k2.deep_view() == k,
            crate::cache::ContactResolutionV::Unresolvable => r@[1 + j] is Skipped,
        } by {
            assert(r@.subrange(0, 1 + contacts@.len() as int)[1 + j] == r@[1 + j]);
            assert(r@[1 + j] == after_contacts[1 + j]);
        }
    }
    r
}

/// The history replay of the synchronization procedure: every persisted
/// envelope of a thread is fed through the decoder, tagged as coming from
/// the local store (never live), and its outcome collected in order.
/// Delivery order to the front end is deliberately not guaranteed: the
/// receiving side orders by timestamp, which
/// [`crate::store::lemma_replay_order_independent`] shows is enough.
pub fn sync_messages(cache: &Cache, stored: Vec<Content>) -> (r: Vec<DecodeStep>)
    requires
        cache.wf(),
    ensures
        r@.len() == stored@.len(),
        forall|i: int| 0 <= i < stored@.len() ==> (#[trigger] r@[i]).shape()
            == spec_decode_shape(stored@[i], cache.as_map(), false),
{
    let mut stored = stored;
    let ghost all = stored@;
    let mut r: Vec<DecodeStep> = Vec::new();
    while stored.len() > 0
        invariant
            cache.wf(),
            r@.len() + stored@.len() == all.len(),
            stored@ =~= all.subrange(r@.len() as int, all.len() as int),
            forall|i: int| 0 <= i < r@.len() ==> (#[trigger] r@[i]).shape() == spec_decode_shape(
                all[i],
                cache.as_map(),
                false,
            ),
        decreases stored.len(),
    {
        let content = stored.remove(0);
        proof {
            assert(content == all[r@.len() as int]);
        }
        r.push(decode_content(content, cache, false));
        proof {
            assert(stored@ =~= all.subrange(r@.len() as int, all.len() as int));
        }
    }
    r
}

} // verus!
