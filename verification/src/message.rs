//! Conversation entities: contacts, groups, chats, messages and the actions
//! the decoder emits about them.

use vstd::prelude::*;

use crate::cache::{Cache, ContactResolution, ContactResolutionV, GroupResolution,
    GroupResolutionV, spec_resolve_contact, spec_resolve_group};
use crate::parse::{body_ranges_to_signal_spans, no_mention_ranges};
use crate::proto::{AttachmentPointer, BodyRange, Content, ContentBody, DataMessage,
    GroupContextV2, ProtoQuote, QuotedAttachment, Sent, Sticker};
use crate::span::{rendered_text, SignalSpan, SpanV};

verus! {

/// Number of bytes in a profile key and in a group master key.
pub const KEY_LEN: usize = 32;

/// Copies a byte vector; the result has the same view.
pub fn clone_bytes(v: &Vec<u8>) -> (r: Vec<u8>)
    ensures
        r@ == v@,
{
    let mut r: Vec<u8> = Vec::new();
    let mut i: usize = 0;
    while i < v.len()
        invariant
            i <= v.len(),
            r@ =~= v@.subrange(0, i as int),
        decreases v.len() - i,
    {
        r.push(v[i]);
        i += 1;
    }
    proof {
        assert(r@ =~= v@);
    }
    r
}

/// Byte vectors' mathematical image is the byte sequence itself.
pub proof fn lemma_bytes_deep_view(v: Vec<u8>)
    ensures
        v.deep_view() =~= v@,
{
}

/// Index-wise bridge between a vector and its mathematical image.
pub proof fn lemma_vec_deep_view<T: DeepView>(v: Vec<T>)
    ensures
        v.deep_view().len() == v@.len(),
        forall|i: int| 0 <= i < v@.len() ==> #[trigger] v.deep_view()[i] == v@[i].deep_view(),
{
}

/// Stable identity of a conversation: the cache key and the per-conversation
/// message-store key.
#[derive(Debug)]
pub enum Thread {
    /// A direct conversation, by contact identifier.
    Contact(u128),
    /// A group conversation, by 32-byte group master key.
    Group(Vec<u8>),
}

/// Mathematical image of a [`Thread`].
pub enum ThreadV {
    Contact(u128),
    Group(Seq<u8>),
}

impl DeepView for Thread {
    type V = ThreadV;

    open spec fn deep_view(&self) -> ThreadV {
        match self {
            Thread::Contact(u) => ThreadV::Contact(*u),
            Thread::Group(k) => ThreadV::Group(k.deep_view()),
        }
    }
}

impl Clone for Thread {
    /// A copy of the identity, equal at the view level.
    fn clone(&self) -> (r: Self)
        ensures
            r.deep_view() == self.deep_view(),
    {
        match self {
            Thread::Contact(u) => Thread::Contact(*u),
            Thread::Group(k) => Thread::Group(clone_bytes(k)),
        }
    }
}

impl Thread {
    /// Whether two thread identities are the same.
    #[verifier::loop_isolation(false)]
    pub fn same(&self, other: &Self) -> (r: bool)
        ensures
            r == (self.deep_view() == other.deep_view()),
    {
        match (self, other) {
            (Thread::Contact(a), Thread::Contact(b)) => a == b,
            (Thread::Group(a), Thread::Group(b)) => {
                proof {
                    lemma_bytes_deep_view(*a);
                    lemma_bytes_deep_view(*b);
                }
                if a.len() != b.len() {
                    return false;
                }
                let mut i: usize = 0;
                while i < a.len()
                    invariant
                        i <= a.len(),
                        a@.len() == b@.len(),
                        a.deep_view() =~= a@,
                        b.deep_view() =~= b@,
                        forall|j: int| 0 <= j < i ==> a@[j] == b@[j],
                    decreases a.len() - i,
                {
                    if a[i] != b[i] {
                        return false;
                    }
                    i += 1;
                }
                proof {
                    assert(a@ =~= b@);
                }
                true
            },
            _ => false,
        }
    }
}

/// A resolved contact. Immutable once resolved: name and avatar are assumed
/// not to change after the first fetch.
#[derive(Debug)]
pub struct Contact {
    /// 32-byte profile key.
    pub key: Vec<u8>,
    /// Contact identifier.
    pub uuid: u128,
    /// Profile name.
    pub name: String,
    /// Raw avatar image bytes, when one exists.
    pub avatar: Option<Vec<u8>>,
    /// Whether this contact is the account itself.
    pub is_self: bool,
}

/// Mathematical image of a [`Contact`].
pub struct ContactV {
    pub key: Seq<u8>,
    pub uuid: u128,
    pub name: Seq<char>,
    pub avatar: Option<Seq<u8>>,
    pub is_self: bool,
}

impl DeepView for Contact {
    type V = ContactV;

    open spec fn deep_view(&self) -> ContactV {
        ContactV {
            key: self.key.deep_view(),
            uuid: self.uuid,
            name: self.name.deep_view(),
            avatar: self.avatar.deep_view(),
            is_self: self.is_self,
        }
    }
}

/// Copies an optional byte vector; the result has the same view.
fn clone_avatar(v: &Option<Vec<u8>>) -> (r: Option<Vec<u8>>)
    ensures
        r.deep_view() == v.deep_view(),
{
    match v {
        Some(bytes) => Some(clone_bytes(bytes)),
        None => None,
    }
}

impl Clone for Contact {
    /// A copy of the contact, equal at the view level.
    fn clone(&self) -> (r: Self)
        ensures
            r.deep_view() == self.deep_view(),
    {
        Contact {
            key: clone_bytes(&self.key),
            uuid: self.uuid,
            name: self.name.clone(),
            avatar: clone_avatar(&self.avatar),
            is_self: self.is_self,
        }
    }
}

/// A resolved group. Valid only while its stored revision equals the
/// revision an incoming envelope cites.
#[derive(Debug)]
pub struct Group {
    /// 32-byte group master key.
    pub key: Vec<u8>,
    /// Monotonically increasing version stamped by the backend.
    pub revision: u32,
    /// Group title.
    pub title: String,
    /// Raw avatar image bytes, when one exists.
    pub avatar: Option<Vec<u8>>,
    /// Resolved members.
    pub members: Vec<Contact>,
}

/// Mathematical image of a [`Group`].
pub struct GroupV {
    pub key: Seq<u8>,
    pub revision: u32,
    pub title: Seq<char>,
    pub avatar: Option<Seq<u8>>,
    pub members: Seq<ContactV>,
}

impl DeepView for Group {
    type V = GroupV;

    open spec fn deep_view(&self) -> GroupV {
        GroupV {
            key: self.key.deep_view(),
            revision: self.revision,
            title: self.title.deep_view(),
            avatar: self.avatar.deep_view(),
            members: self.members.deep_view(),
        }
    }
}

impl Clone for Group {
    /// A copy of the group, equal at the view level.
    fn clone(&self) -> (r: Self)
        ensures
            r.deep_view() == self.deep_view(),
    {
        let mut members: Vec<Contact> = Vec::new();
        let mut i: usize = 0;
        while i < self.members.len()
            invariant
                i <= self.members.len(),
                members@.len() == i,
                forall|j: int| 0 <= j < i ==> #[trigger] members@[j].deep_view()
                    == self.members@[j].deep_view(),
            decreases self.members.len() - i,
        {
            members.push(self.members[i].clone());
            i += 1;
        }
        proof {
            assert(members.deep_view() =~= self.members.deep_view());
        }
        Group {
            key: clone_bytes(&self.key),
            revision: self.revision,
            title: self.title.clone(),
            avatar: clone_avatar(&self.avatar),
            members,
        }
    }
}

/// A resolved conversation party: a contact or a group.
#[derive(Debug)]
pub enum Chat {
    Contact(Contact),
    Group(Group),
}

/// Mathematical image of a [`Chat`].
pub enum ChatV {
    Contact(ContactV),
    Group(GroupV),
}

impl DeepView for Chat {
    type V = ChatV;

    open spec fn deep_view(&self) -> ChatV {
        match self {
            Chat::Contact(c) => ChatV::Contact(c.deep_view()),
            Chat::Group(g) => ChatV::Group(g.deep_view()),
        }
    }
}

impl Clone for Chat {
    /// A copy of the chat, equal at the view level.
    fn clone(&self) -> (r: Self)
        ensures
            r.deep_view() == self.deep_view(),
    {
        match self {
            Chat::Contact(c) => Chat::Contact(c.clone()),
            Chat::Group(g) => Chat::Group(g.clone()),
        }
    }
}

impl ChatV {
    /// The thread identity of a chat image.
    pub open spec fn thread(self) -> ThreadV {
        match self {
            ChatV::Contact(c) => ThreadV::Contact(c.uuid),
            ChatV::Group(g) => ThreadV::Group(g.key),
        }
    }

    pub open spec fn wf(self) -> bool {
        match self {
            ChatV::Contact(c) => c.key.len() == KEY_LEN,
            ChatV::Group(g) => g.key.len() == KEY_LEN,
        }
    }
}

impl Chat {
    pub open spec fn wf(self) -> bool {
        self.deep_view().wf()
    }

    /// Display name of the chat: the contact's profile name or the group
    /// title.
    pub fn name(&self) -> (r: &str)
        ensures
            r@ == match self.deep_view() {
                ChatV::Contact(c) => c.name,
                ChatV::Group(g) => g.title,
            },
    {
        match self {
            Chat::Contact(contact) => contact.name.as_str(),
            Chat::Group(group) => group.title.as_str(),
        }
    }

    /// The thread identity of this chat.
    pub fn thread(&self) -> (t: Thread)
        ensures
            t.deep_view() == self.deep_view().thread(),
    {
        match self {
            Chat::Contact(contact) => Thread::Contact(contact.uuid),
            Chat::Group(group) => Thread::Group(clone_bytes(&group.key)),
        }
    }

    /// The contact identifier, for direct chats.
    pub fn uuid(&self) -> (r: Option<u128>)
        ensures
            r == match self.deep_view() {
                ChatV::Contact(c) => Some(c.uuid),
                ChatV::Group(_) => None::<u128>,
            },
    {
        match self {
            Chat::Contact(contact) => Some(contact.uuid),
            Chat::Group(_) => None,
        }
    }

    /// The contact's profile key, for direct chats.
    pub fn profile_key(&self) -> (r: Option<Vec<u8>>)
        ensures
            r.deep_view() == match self.deep_view() {
                ChatV::Contact(c) => Some(c.key),
                ChatV::Group(_) => None::<Seq<u8>>,
            },
    {
        match self {
            Chat::Contact(contact) => Some(clone_bytes(&contact.key)),
            Chat::Group(_) => None,
        }
    }

    /// The group context this chat would stamp on an outgoing message, for
    /// group chats.
    pub fn group_context(&self) -> (r: Option<GroupContextV2>)
        ensures
            match self.deep_view() {
                ChatV::Contact(_) => r is None,
                ChatV::Group(g) => r matches Some(c) && c.master_key.deep_view() == Some(g.key)
                    && c.revision == Some(g.revision),
            },
    {
        match self {
            Chat::Contact(_) => None,
            Chat::Group(group) => Some(
                GroupContextV2 {
                    master_key: Some(clone_bytes(&group.key)),
                    revision: Some(group.revision),
                },
            ),
        }
    }

    /// The contact of a direct chat.
    pub fn contact(&self) -> (r: Option<Contact>)
        ensures
            r.deep_view() == match self.deep_view() {
                ChatV::Contact(c) => Some(c),
                ChatV::Group(_) => None::<ContactV>,
            },
    {
        match self {
            Chat::Contact(contact) => Some(contact.clone()),
            Chat::Group(_) => None,
        }
    }
}

/// An attachment kept by the decoder: the opaque pointer plus whether its
/// declared MIME type is an image (only those are eagerly downloaded).
#[derive(Debug)]
pub struct Attachment {
    /// The opaque attachment pointer, as the envelope carried it.
    pub ptr: AttachmentPointer,
    /// Whether the declared MIME type parses and has top-level type `image`.
    pub is_image: bool,
}

/// Mathematical image of an [`Attachment`].
pub struct AttachmentV {
    pub content_type: Option<Seq<char>>,
    pub is_image: bool,
}

impl DeepView for Attachment {
    type V = AttachmentV;

    open spec fn deep_view(&self) -> AttachmentV {
        AttachmentV {
            content_type: self.ptr.content_type.deep_view(),
            is_image: self.is_image,
        }
    }
}

/// One chat message as the front end consumes it.
#[derive(Debug)]
pub struct Message {
    /// Unique key of the message within its thread, in milliseconds.
    pub timestamp: u64,
    /// Styled body spans, absent for attachment-only messages.
    pub body: Option<Vec<SignalSpan>>,
    pub attachments: Vec<Attachment>,
    pub sticker: Option<Attachment>,
    pub sender: Contact,
    pub quote: Option<Quote>,
}

/// Mathematical image of a [`Message`].
pub struct MessageV {
    pub timestamp: u64,
    pub body: Option<Seq<crate::span::SpanV>>,
    pub attachments: Seq<AttachmentV>,
    pub sticker: Option<AttachmentV>,
    pub sender: ContactV,
    pub quote: Option<QuoteV>,
}

impl DeepView for Message {
    type V = MessageV;

    open spec fn deep_view(&self) -> MessageV {
        MessageV {
            timestamp: self.timestamp,
            body: self.body.deep_view(),
            attachments: self.attachments.deep_view(),
            sticker: self.sticker.deep_view(),
            sender: self.sender.deep_view(),
            quote: self.quote.deep_view(),
        }
    }
}

/// A frozen reference copy of a prior message, not a live pointer.
#[derive(Debug)]
pub struct Quote {
    /// Timestamp of the quoted message, in milliseconds.
    pub timestamp: u64,
    pub body: Option<Vec<SignalSpan>>,
    pub attachments: Vec<Attachment>,
    /// The quoted author, when already known to the cache.
    pub sender: Option<Contact>,
}

/// Mathematical image of a [`Quote`].
pub struct QuoteV {
    pub timestamp: u64,
    pub body: Option<Seq<crate::span::SpanV>>,
    pub attachments: Seq<AttachmentV>,
    pub sender: Option<ContactV>,
}

impl DeepView for Quote {
    type V = QuoteV;

    open spec fn deep_view(&self) -> QuoteV {
        QuoteV {
            timestamp: self.timestamp,
            body: self.body.deep_view(),
            attachments: self.attachments.deep_view(),
            sender: self.sender.deep_view(),
        }
    }
}

impl From<Message> for Quote {
    /// Freezes a message into a quote of it: same timestamp, body and
    /// attachments, its sender kept as the quoted author.
    fn from(value: Message) -> (r: Self) {
        Quote {
            timestamp: value.timestamp,
            body: value.body,
            attachments: value.attachments,
            sender: Some(value.sender),
        }
    }
}

impl vstd::std_specs::convert::FromSpecImpl<Message> for Quote {
    open spec fn obeys_from_spec() -> bool {
        true
    }

    open spec fn from_spec(value: Message) -> Quote {
        Quote {
            timestamp: value.timestamp,
            body: value.body,
            attachments: value.attachments,
            sender: Some(value.sender),
        }
    }
}

/// What one decoded envelope asks the front end to do to its chat history.
#[derive(Debug)]
pub enum SignalAction {
    /// Cache-population signal with no history effect.
    Contact,
    /// Insert a message; the flag says whether it arrived live after the
    /// catch-up replay (and so deserves a notification).
    Message(Message, bool),
    /// Replace the message at the given timestamp by the new message.
    Replace(u64, Message),
    /// Remove the message at the given timestamp, if present.
    Delete(u64),
}

/// Mathematical image of a [`SignalAction`].
pub enum ActionV {
    Contact,
    Message(MessageV, bool),
    Replace(u64, MessageV),
    Delete(u64),
}

impl DeepView for SignalAction {
    type V = ActionV;

    open spec fn deep_view(&self) -> ActionV {
        match self {
            SignalAction::Contact => ActionV::Contact,
            SignalAction::Message(m, live) => ActionV::Message(m.deep_view(), *live),
            SignalAction::Replace(t, m) => ActionV::Replace(*t, m.deep_view()),
            SignalAction::Delete(t) => ActionV::Delete(*t),
        }
    }
}


/// The decision mime's parser takes on a declared content type: absent when
/// the string is not a valid MIME type, else whether its top-level type is
/// `image`.
pub uninterp spec fn image_mime(s: Seq<char>) -> Option<bool>;

/// Relies on mime's `FromStr for Mime` and `Mime::type_`: whether a content
/// type parses, and which top-level type it has, depend on the string
/// alone.
#[verifier::external_body]
fn content_type_is_image(s: &str) -> (r: Option<bool>)
    ensures
        r == image_mime(s@),
{
    match s.parse::<mime::Mime>() {
        Ok(m) => Some(m.type_() == mime::IMAGE),
        Err(_) => None,
    }
}

/// Whether an attachment with this declared content type counts as an
/// image: its type must parse and have top-level type `image`. An absent
/// content type is read as the empty string, as the wire format's getter
/// does.
pub open spec fn spec_is_image(content_type: Option<Seq<char>>) -> bool {
    image_mime(
        match content_type {
            Some(c) => c,
            None => Seq::empty(),
        },
    ) == Some(true)
}

impl Attachment {
    /// Wraps an attachment pointer, deciding from its declared MIME type
    /// whether it is an image (only those are eagerly downloaded).
    pub fn new(ptr: AttachmentPointer) -> (a: Self)
        ensures
            a.ptr == ptr,
            a.is_image == spec_is_image(ptr.content_type.deep_view()),
    {
        let is_image = match &ptr.content_type {
            Some(ct) => match content_type_is_image(ct.as_str()) {
                Some(b) => b,
                None => false,
            },
            None => {
                let empty = "";
                proof {
                    reveal_strlit("");
                    assert(empty@ =~= Seq::<char>::empty());
                }
                match content_type_is_image(empty) {
                    Some(b) => b,
                    None => false,
                }
            },
        };
        Attachment { ptr, is_image }
    }
}

/// Wraps each attachment pointer of an envelope in order.
fn attachments_from_pointers(ptrs: Vec<AttachmentPointer>) -> (r: Vec<Attachment>)
    ensures
        r@.len() == ptrs@.len(),
        forall|i: int| 0 <= i < ptrs@.len() ==> (#[trigger] r@[i]).ptr == ptrs@[i] && r@[i].is_image
            == spec_is_image(ptrs@[i].content_type.deep_view()),
{
    let mut r: Vec<Attachment> = Vec::new();
    let mut ptrs = ptrs;
    let ghost all = ptrs@;
    while ptrs.len() > 0
        invariant
            r@.len() + ptrs@.len() == all.len(),
            ptrs@ =~= all.subrange(r@.len() as int, all.len() as int),
            forall|j: int| 0 <= j < r@.len() ==> (#[trigger] r@[j]).ptr == all[j] && r@[j].is_image
                == spec_is_image(all[j].content_type.deep_view()),
        decreases ptrs.len(),
    {
        let ptr = ptrs.remove(0);
        proof {
            assert(ptr == all[r@.len() as int]);
        }
        r.push(Attachment::new(ptr));
        proof {
            assert(ptrs@ =~= all.subrange(r@.len() as int, all.len() as int));
        }
    }
    r
}

/// The attachment thumbnails a wire quote carries, in order: the thumbnail
/// pointer of each quoted attachment that has one.
pub open spec fn spec_thumbnails(atts: Seq<QuotedAttachment>) -> Seq<AttachmentPointer>
    decreases atts.len(),
{
    if atts.len() == 0 {
        Seq::empty()
    } else {
        spec_thumbnails(atts.drop_last()) + (match atts.last().thumbnail {
            Some(t) => seq![t],
            None => Seq::empty(),
        })
    }
}

/// What decoding a wire quote against a cache yields: the quoted timestamp
/// (absent read as zero); the quoted author exactly when its identifier
/// parses and is cached as a contact — otherwise the sender is left empty
/// rather than failing the message; the body through the span conversion
/// (absent text gives no body, plain text one unstyled span, mention-free
/// ranges render to exactly the text); and one kept attachment per
/// thumbnail the wire quote carried, in order, each with its image
/// decision.
pub open spec fn decoded_quote_ok(quote: ProtoQuote, r: Quote, m: Map<ThreadV, ChatV>) -> bool {
    &&& r.timestamp == match quote.id {
        Some(t) => t,
        None => 0,
    }
    &&& (r.sender is Some <==> (quote.author_aci matches Some(aci) && (crate::ids::uuid_value_of(
        aci@,
    ) matches Some(u) && m.contains_key(ThreadV::Contact(u)))))
    &&& (r.sender matches Some(c) ==> ChatV::Contact(c.deep_view()) == m[ThreadV::Contact(c.uuid)])
    &&& (quote.text is None ==> r.body is None)
    &&& ((quote.text is Some && quote.text->0@.len() > 0 && quote.body_ranges@.len() == 0) ==> (
    r.body matches Some(spans) && spans.deep_view() =~= seq![
        SpanV {
            text: quote.text->0@,
            flags: 0,
            link: None,
            mention: None,
            spoiler_tag: None,
        },
    ]))
    &&& ((quote.text is Some && quote.text->0@.len() > 0 && no_mention_ranges(
        quote.body_ranges@,
    )) ==> (r.body matches Some(spans) && rendered_text(spans.deep_view()) == quote.text->0@))
    &&& r.attachments@.len() == spec_thumbnails(quote.attachments@).len()
    &&& (forall|i: int| 0 <= i < r.attachments@.len() ==> (
    #[trigger] r.attachments@[i]).ptr.content_type.deep_view() == spec_thumbnails(
        quote.attachments@,
    )[i].content_type.deep_view() && r.attachments@[i].is_image == spec_is_image(
        spec_thumbnails(quote.attachments@)[i].content_type.deep_view(),
    ))
}

impl Quote {
    /// Decodes an embedded quote: the body through the span conversion, the
    /// quoted author through the cache — an author not yet cached leaves the
    /// quote's sender empty rather than failing the message — and the
    /// attachment thumbnails kept in order.
    #[verifier::loop_isolation(false)]
    pub fn new(quote: ProtoQuote, cache: &Cache) -> (r: Self)
        requires
            cache.wf(),
        ensures
            decoded_quote_ok(quote, r, cache.as_map()),
    {
        let ProtoQuote { id, author_aci, text, attachments, body_ranges } = quote;
        let sender = match &author_aci {
            Some(aci) => match crate::ids::parse_uuid(aci.as_str()) {
                Some(uuid) => match cache.get(&Thread::Contact(uuid)) {
                    Some(chat) => {
                        proof {
                            contact_thread_holds_contact(*cache, uuid);
                        }
                        chat.contact()
                    },
                    None => None,
                },
                None => None,
            },
            None => None,
        };
        let mut thumbs: Vec<AttachmentPointer> = Vec::new();
        let mut i: usize = 0;
        while i < attachments.len()
            invariant
                i <= attachments@.len(),
                thumbs@.len() == spec_thumbnails(attachments@.subrange(0, i as int)).len(),
                forall|j: int| 0 <= j < thumbs@.len() ==> (
                #[trigger] thumbs@[j]).content_type.deep_view() == spec_thumbnails(
                    attachments@.subrange(0, i as int),
                )[j].content_type.deep_view(),
            decreases attachments.len() - i,
        {
            let ghost prefix = attachments@.subrange(0, i as int);
            match &attachments[i].thumbnail {
                Some(t) => {
                    thumbs.push(
                        AttachmentPointer {
                            content_type: match &t.content_type {
                                Some(ct) => Some(ct.clone()),
                                None => None,
                            },
                        },
                    );
                },
                None => {},
            }
            i += 1;
            proof {
                let now = attachments@.subrange(0, i as int);
                assert(now.drop_last() =~= prefix);
                assert(now.last() == attachments@[i - 1]);
            }
        }
        proof {
            assert(attachments@.subrange(0, attachments@.len() as int) =~= attachments@);
        }
        Quote {
            timestamp: match id {
                Some(t) => t,
                None => 0,
            },
            body: body_ranges_to_signal_spans(text, &body_ranges, cache),
            attachments: attachments_from_pointers(thumbs),
            sender,
        }
    }
}

/// In a well-formed cache, what sits under a contact thread identity is a
/// contact chat carrying that identifier.
pub proof fn contact_thread_holds_contact(cache: Cache, uuid: u128)
    requires
        cache.wf(),
        cache.as_map().contains_key(ThreadV::Contact(uuid)),
    ensures
        cache.as_map()[ThreadV::Contact(uuid)] matches ChatV::Contact(c) && c.uuid == uuid,
{
    crate::cache::lemma_assoc_map_characterize(cache.entry_views());
    let i = choose|i: int| 0 <= i < cache.entry_views().len() && #[trigger] cache.entry_views()[i].0
        == ThreadV::Contact(uuid);
    assert(cache.as_map()[cache.entry_views()[i].0] == cache.entry_views()[i].1);
    assert(cache.entry_views()[i].1.thread() == ThreadV::Contact(uuid));
}

impl Message {
    /// Builds one consumable message from the decoded envelope parts: the
    /// sender resolved through the cache (a sender not yet cached fails the
    /// decode), the body through the span conversion, attachments and
    /// sticker wrapped with their image decision, the quote decoded
    /// gracefully.
    pub fn new(
        timestamp: u64,
        body: Option<String>,
        attachments: Vec<AttachmentPointer>,
        sender: u128,
        sticker: Option<Sticker>,
        quote: Option<ProtoQuote>,
        cache: &Cache,
        body_ranges: &Vec<BodyRange>,
    ) -> (r: Option<Self>)
        requires
            cache.wf(),
        ensures
            r is Some <==> cache.as_map().contains_key(ThreadV::Contact(sender)),
            r matches Some(m) ==> {
                &&& m.timestamp == timestamp
                &&& ChatV::Contact(m.sender.deep_view()) == cache.as_map()[ThreadV::Contact(sender)]
                &&& m.sender.uuid == sender
                &&& (body is None ==> m.body is None)
                &&& ((body is Some && body->0@.len() > 0 && body_ranges@.len() == 0) ==> (
                m.body matches Some(spans) && spans.deep_view() =~= seq![
                    SpanV {
                        text: body->0@,
                        flags: 0,
                        link: None,
                        mention: None,
                        spoiler_tag: None,
                    },
                ]))
                &&& ((body is Some && body->0@.len() > 0 && no_mention_ranges(body_ranges@)) ==> (
                m.body matches Some(spans) && rendered_text(spans.deep_view()) == body->0@))
                &&& m.attachments@.len() == attachments@.len()
                &&& (forall|i: int| 0 <= i < attachments@.len() ==> (
                #[trigger] m.attachments@[i]).ptr == attachments@[i] && m.attachments@[i].is_image
                    == spec_is_image(attachments@[i].content_type.deep_view()))
                &&& (m.quote is Some <==> quote is Some)
                &&& (quote matches Some(q) ==> (m.quote matches Some(mq) && decoded_quote_ok(
                    q,
                    mq,
                    cache.as_map(),
                )))
                &&& (m.sticker is Some <==> (sticker matches Some(st) && st.data is Some))
                &&& ((sticker matches Some(st) && st.data is Some) ==> (m.sticker matches Some(a)
                    && a.ptr == sticker->0.data->0 && a.is_image == spec_is_image(
                    sticker->0.data->0.content_type.deep_view(),
                )))
            },
    {
        let sender_contact = match cache.get(&Thread::Contact(sender)) {
            Some(chat) => match chat.contact() {
                Some(c) => c,
                None => {
                    proof {
                        contact_thread_holds_contact(*cache, sender);
                    }
                    return None;
                },
            },
            None => {
                return None;
            },
        };
        proof {
            contact_thread_holds_contact(*cache, sender);
        }

        let sticker = match sticker {
            Some(st) => match st.data {
                Some(ptr) => Some(Attachment::new(ptr)),
                None => None,
            },
            None => None,
        };

        let quote = match quote {
            Some(q) => Some(Quote::new(q, cache)),
            None => None,
        };

        Some(
            Message {
                timestamp,
                body: body_ranges_to_signal_spans(body, body_ranges, cache),
                attachments: attachments_from_pointers(attachments),
                sender: sender_contact,
                sticker,
                quote,
            },
        )
    }
}


/// The shape of a decoded action: everything but the message contents.
pub enum ActionShape {
    /// Cache-population signal.
    Discovered,
    Insert { timestamp: u64, sender: u128, live: bool },
    Replace { target: u64, timestamp: u64, sender: u128 },
    Delete { target: u64 },
}

/// The shape of one decode step: which arm won, which chat it concerns,
/// what kind of action it emits and which stored record it deletes first.
pub enum StepShape {
    /// Nothing to emit: unsupported or failed decode, silently skipped.
    Skip,
    /// A contact must be fetched with this profile key and applied to the
    /// cache, then the envelope decoded again.
    NeedContact(u128, Seq<u8>),
    /// The group with this key must be refreshed at this cited revision,
    /// then the envelope decoded again.
    NeedGroup(Seq<u8>, u32),
    Emit { chat: ChatV, action: ActionShape, store_delete: Option<(ThreadV, u64)> },
}

/// What one decode step asks the session to do.
#[derive(Debug)]
pub enum DecodeStep {
    /// Nothing to emit: unsupported or failed decode, silently skipped.
    Skip,
    /// A contact must be fetched with this profile key and applied to the
    /// cache, then the envelope decoded again.
    NeedContact(u128, Vec<u8>),
    /// The group with this key must be refreshed at this cited revision,
    /// then the envelope decoded again.
    NeedGroup(Vec<u8>, u32),
    /// The decoded emission: the resolved chat, the action for the front
    /// end, and the stored record to delete before forwarding it.
    Emit(Chat, SignalAction, Option<(Thread, u64)>),
}

impl SignalAction {
    /// The shape of an action.
    pub open spec fn shape(self) -> ActionShape {
        match self {
            SignalAction::Contact => ActionShape::Discovered,
            SignalAction::Message(m, live) => ActionShape::Insert {
                timestamp: m.timestamp,
                sender: m.sender.uuid,
                live,
            },
            SignalAction::Replace(t, m) => ActionShape::Replace {
                target: t,
                timestamp: m.timestamp,
                sender: m.sender.uuid,
            },
            SignalAction::Delete(t) => ActionShape::Delete { target: t },
        }
    }
}

impl DecodeStep {
    /// The shape of a step.
    pub open spec fn shape(self) -> StepShape {
        match self {
            DecodeStep::Skip => StepShape::Skip,
            DecodeStep::NeedContact(u, k) => StepShape::NeedContact(u, k.deep_view()),
            DecodeStep::NeedGroup(k, r) => StepShape::NeedGroup(k.deep_view(), r),
            DecodeStep::Emit(chat, action, sd) => StepShape::Emit {
                chat: chat.deep_view(),
                action: action.shape(),
                store_delete: match sd {
                    Some((t, ts)) => Some((t.deep_view(), ts)),
                    None => None,
                },
            },
        }
    }
}

/// How a chat reference in an envelope resolves against the cache.
pub enum ResolveShape {
    Resolved(ChatV),
    NeedContact(u128, Seq<u8>),
    NeedGroup(Seq<u8>, u32),
    Fail,
}

/// Resolving the chat an envelope payload addresses: by its group context
/// when it has one, else by the given contact identifier and profile key.
pub open spec fn spec_resolve_chat(
    m: Map<ThreadV, ChatV>,
    group_v2: Option<GroupContextV2>,
    uuid: Option<u128>,
    profile_key: Option<Vec<u8>>,
) -> ResolveShape {
    match group_v2 {
        Some(ctx) => match spec_resolve_group(
            m,
            match ctx.master_key {
                Some(k) => Some(k.deep_view()),
                None => None,
            },
            match ctx.revision {
                Some(r) => r,
                None => 0,
            },
        ) {
            GroupResolutionV::Cached(c) => ResolveShape::Resolved(c),
            GroupResolutionV::Refresh(k, r) => ResolveShape::NeedGroup(k, r),
            GroupResolutionV::Unresolvable => ResolveShape::Fail,
        },
        None => match uuid {
            Some(u) => match spec_resolve_contact(
                m,
                u,
                match profile_key {
                    Some(k) => Some(k.deep_view()),
                    None => None,
                },
            ) {
                ContactResolutionV::Cached(c) => ResolveShape::Resolved(c),
                ContactResolutionV::Fetch(u2, k) => ResolveShape::NeedContact(u2, k),
                ContactResolutionV::Unresolvable => ResolveShape::Fail,
            },
            None => ResolveShape::Fail,
        },
    }
}

/// The shape of decoding an edit payload: resolve the chat, decode the
/// replacement (its sender must be cached), and replace the message at the
/// target timestamp, deleting the superseded stored record first.
pub open spec fn spec_edit_shape(
    m: Map<ThreadV, ChatV>,
    sender: u128,
    timestamp: u64,
    dm: DataMessage,
    target: Option<u64>,
    uuid: Option<u128>,
) -> StepShape {
    match spec_resolve_chat(m, dm.group_v2, uuid, dm.profile_key) {
        ResolveShape::Resolved(chat) => {
            if !m.contains_key(ThreadV::Contact(sender)) {
                StepShape::Skip
            } else {
                match target {
                    Some(t) => StepShape::Emit {
                        chat,
                        action: ActionShape::Replace { target: t, timestamp, sender },
                        store_delete: Some((chat.thread(), t)),
                    },
                    None => StepShape::Skip,
                }
            }
        },
        ResolveShape::NeedContact(u, k) => StepShape::NeedContact(u, k),
        ResolveShape::NeedGroup(k, r) => StepShape::NeedGroup(k, r),
        ResolveShape::Fail => StepShape::Skip,
    }
}

/// The shape of decoding a deletion payload: resolve the chat and emit the
/// removal of the target timestamp.
pub open spec fn spec_delete_shape(
    m: Map<ThreadV, ChatV>,
    dm: DataMessage,
    uuid: Option<u128>,
) -> StepShape {
    match spec_resolve_chat(m, dm.group_v2, uuid, dm.profile_key) {
        ResolveShape::Resolved(chat) => match dm.delete {
            Some(del) => match del.target_sent_timestamp {
                Some(t) => StepShape::Emit {
                    chat,
                    action: ActionShape::Delete { target: t },
                    store_delete: None,
                },
                None => StepShape::Skip,
            },
            None => StepShape::Skip,
        },
        ResolveShape::NeedContact(u, k) => StepShape::NeedContact(u, k),
        ResolveShape::NeedGroup(k, r) => StepShape::NeedGroup(k, r),
        ResolveShape::Fail => StepShape::Skip,
    }
}

/// The shape of decoding a plain message payload: resolve the chat, decode
/// the message (its sender must be cached) and insert it.
pub open spec fn spec_insert_shape(
    m: Map<ThreadV, ChatV>,
    sender: u128,
    timestamp: u64,
    dm: DataMessage,
    uuid: Option<u128>,
    live: bool,
) -> StepShape {
    match spec_resolve_chat(m, dm.group_v2, uuid, dm.profile_key) {
        ResolveShape::Resolved(chat) => {
            if m.contains_key(ThreadV::Contact(sender)) {
                StepShape::Emit {
                    chat,
                    action: ActionShape::Insert { timestamp, sender, live },
                    store_delete: None,
                }
            } else {
                StepShape::Skip
            }
        },
        ResolveShape::NeedContact(u, k) => StepShape::NeedContact(u, k),
        ResolveShape::NeedGroup(k, r) => StepShape::NeedGroup(k, r),
        ResolveShape::Fail => StepShape::Skip,
    }
}

/// The shape of decoding the transcript of a sent payload that is not an
/// edit: a deletion when it carries one, else a plain insert that is never
/// live.
pub open spec fn spec_sync_message_shape(
    m: Map<ThreadV, ChatV>,
    sender: u128,
    timestamp: u64,
    message: Option<DataMessage>,
    dest: Option<u128>,
) -> StepShape {
    match message {
        Some(dm) => {
            if dm.delete is Some {
                spec_delete_shape(m, dm, dest)
            } else {
                spec_insert_shape(m, sender, timestamp, dm, dest, false)
            }
        },
        None => StepShape::Skip,
    }
}

/// What one envelope decodes to, shape for shape, in the decoder's
/// precedence order: received edits, self-originated edits, received
/// deletions, self-originated deletions, received plain messages,
/// self-originated plain messages; anything else is skipped.
pub open spec fn spec_decode_shape(content: Content, m: Map<ThreadV, ChatV>, synced: bool)
    -> StepShape {
    let meta = content.metadata;
    match content.body {
        ContentBody::EditMessage(em) => match em.data_message {
            Some(dm) => spec_edit_shape(
                m,
                meta.sender,
                meta.timestamp,
                dm,
                em.target_sent_timestamp,
                Some(meta.sender),
            ),
            None => StepShape::Skip,
        },
        ContentBody::SynchronizeMessage(sm) => match sm.sent {
            Some(sent) => {
                let dest = match sent.destination_service_id {
                    Some(d) => crate::ids::uuid_value_of(d@),
                    None => None,
                };
                match sent.edit_message {
                    Some(em) => match em.data_message {
                        Some(dm) => spec_edit_shape(
                            m,
                            meta.sender,
                            meta.timestamp,
                            dm,
                            em.target_sent_timestamp,
                            dest,
                        ),
                        None => spec_sync_message_shape(
                            m,
                            meta.sender,
                            meta.timestamp,
                            sent.message,
                            dest,
                        ),
                    },
                    None => spec_sync_message_shape(
                        m,
                        meta.sender,
                        meta.timestamp,
                        sent.message,
                        dest,
                    ),
                }
            },
            None => StepShape::Skip,
        },
        ContentBody::DataMessage(dm) => {
            if dm.delete is Some {
                spec_delete_shape(m, dm, Some(meta.sender))
            } else {
                spec_insert_shape(m, meta.sender, meta.timestamp, dm, Some(meta.sender), synced)
            }
        },
        ContentBody::Other => StepShape::Skip,
    }
}

/// The data payload the winning arm decodes, when it decodes one.
pub open spec fn decoded_payload(content: Content) -> Option<DataMessage> {
    match content.body {
        ContentBody::EditMessage(em) => em.data_message,
        ContentBody::SynchronizeMessage(sm) => match sm.sent {
            Some(sent) => match sent.edit_message {
                Some(em) => match em.data_message {
                    Some(dm) => Some(dm),
                    None => sent.message,
                },
                None => sent.message,
            },
            None => None,
        },
        ContentBody::DataMessage(dm) => Some(dm),
        ContentBody::Other => None,
    }
}

/// Resolves the chat an envelope payload addresses.
fn resolve_chat(cache: &Cache, group_v2: &Option<GroupContextV2>, uuid: Option<u128>,
    profile_key: &Option<Vec<u8>>) -> (r: DecodeStep)
    requires
        cache.wf(),
    ensures
        match spec_resolve_chat(cache.as_map(), *group_v2, uuid, *profile_key) {
            ResolveShape::Resolved(c) => r matches DecodeStep::Emit(chat, a, sd) && chat.deep_view()
                == c && a is Contact && sd is None,
            ResolveShape::NeedContact(u, k) => r.shape() == StepShape::NeedContact(u, k),
            ResolveShape::NeedGroup(k, rev) => r.shape() == StepShape::NeedGroup(k, rev),
            ResolveShape::Fail => r is Skip,
        },
{
    match group_v2 {
        Some(ctx) => match cache.resolve_group_step(ctx) {
            GroupResolution::Cached(chat) => DecodeStep::Emit(chat, SignalAction::Contact, None),
            GroupResolution::Refresh(k, rev) => DecodeStep::NeedGroup(k, rev),
            GroupResolution::Unresolvable => DecodeStep::Skip,
        },
        None => match uuid {
            Some(u) => match cache.resolve_contact_step(u, profile_key.as_ref()) {
                ContactResolution::Cached(chat) => DecodeStep::Emit(
                    chat,
                    SignalAction::Contact,
                    None,
                ),
                ContactResolution::Fetch(u2, k) => DecodeStep::NeedContact(u2, k),
                ContactResolution::Unresolvable => DecodeStep::Skip,
            },
            None => DecodeStep::Skip,
        },
    }
}

/// Extra facts about an emitted message the shape does not carry: its
/// sender is the cached contact under the sender identifier, its body spans
/// follow the payload's body and ranges, its attachments keep the payload's
/// pointers in order with their image decisions, and its sticker and quote
/// are decoded from the payload's.
pub open spec fn emitted_message_ok(m: Map<ThreadV, ChatV>, dm: DataMessage, msg: Message) -> bool {
    &&& ChatV::Contact(msg.sender.deep_view()) == m[ThreadV::Contact(msg.sender.uuid)]
    &&& (dm.body is None ==> msg.body is None)
    &&& ((dm.body is Some && dm.body->0@.len() > 0 && dm.body_ranges@.len() == 0) ==> (
    msg.body matches Some(spans) && spans.deep_view() =~= seq![
        SpanV { text: dm.body->0@, flags: 0, link: None, mention: None, spoiler_tag: None },
    ]))
    &&& ((dm.body is Some && dm.body->0@.len() > 0 && no_mention_ranges(dm.body_ranges@)) ==> (
    msg.body matches Some(spans) && rendered_text(spans.deep_view()) == dm.body->0@))
    &&& msg.attachments@.len() == dm.attachments@.len()
    &&& (forall|i: int| 0 <= i < dm.attachments@.len() ==> (#[trigger] msg.attachments@[i]).ptr
        == dm.attachments@[i] && msg.attachments@[i].is_image == spec_is_image(
        dm.attachments@[i].content_type.deep_view(),
    ))
    &&& (msg.quote is Some <==> dm.quote is Some)
    &&& (dm.quote matches Some(q) ==> (msg.quote matches Some(mq) && decoded_quote_ok(q, mq, m)))
    &&& (msg.sticker is Some <==> (dm.sticker matches Some(st) && st.data is Some))
    &&& ((dm.sticker matches Some(st) && st.data is Some) ==> (msg.sticker matches Some(a) && a.ptr
        == dm.sticker->0.data->0 && a.is_image == spec_is_image(
        dm.sticker->0.data->0.content_type.deep_view(),
    )))
}


/// Decodes an edit payload, received or self-originated.
fn decode_edit(cache: &Cache, sender: u128, timestamp: u64, dm: DataMessage,
    target: Option<u64>, uuid: Option<u128>) -> (r: DecodeStep)
    requires
        cache.wf(),
    ensures
        r.shape() == spec_edit_shape(cache.as_map(), sender, timestamp, dm, target, uuid),
        r matches DecodeStep::Emit(chat, action, sd) ==> (action matches SignalAction::Replace(
            t,
            msg,
        ) ==> emitted_message_ok(cache.as_map(), dm, msg)),
{
    let step = resolve_chat(cache, &dm.group_v2, uuid, &dm.profile_key);
    match step {
        DecodeStep::Emit(chat, _, _) => {
            let DataMessage {
                body,
                attachments,
                group_v2: _,
                profile_key: _,
                quote,
                sticker,
                delete: _,
                body_ranges,
            } = dm;
            match Message::new(timestamp, body, attachments, sender, sticker, quote, cache,
                &body_ranges) {
                Some(msg) => match target {
                    Some(t) => {
                        let thread = chat.thread();
                        DecodeStep::Emit(chat, SignalAction::Replace(t, msg), Some((thread, t)))
                    },
                    None => DecodeStep::Skip,
                },
                None => DecodeStep::Skip,
            }
        },
        other => other,
    }
}

/// Decodes a deletion payload, received or self-originated.
fn decode_delete(cache: &Cache, dm: DataMessage, uuid: Option<u128>) -> (r: DecodeStep)
    requires
        cache.wf(),
    ensures
        r.shape() == spec_delete_shape(cache.as_map(), dm, uuid),
{
    let step = resolve_chat(cache, &dm.group_v2, uuid, &dm.profile_key);
    match step {
        DecodeStep::Emit(chat, _, _) => match &dm.delete {
            Some(del) => match del.target_sent_timestamp {
                Some(t) => DecodeStep::Emit(chat, SignalAction::Delete(t), None),
                None => DecodeStep::Skip,
            },
            None => DecodeStep::Skip,
        },
        other => other,
    }
}

/// Decodes a plain message payload, received or self-originated.
fn decode_insert(cache: &Cache, sender: u128, timestamp: u64, dm: DataMessage,
    uuid: Option<u128>, live: bool) -> (r: DecodeStep)
    requires
        cache.wf(),
    ensures
        r.shape() == spec_insert_shape(cache.as_map(), sender, timestamp, dm, uuid, live),
        r matches DecodeStep::Emit(chat, action, sd) ==> (action matches SignalAction::Message(
            msg,
            l,
        ) ==> emitted_message_ok(cache.as_map(), dm, msg)),
{
    let step = resolve_chat(cache, &dm.group_v2, uuid, &dm.profile_key);
    match step {
        DecodeStep::Emit(chat, _, _) => {
            let DataMessage {
                body,
                attachments,
                group_v2: _,
                profile_key: _,
                quote,
                sticker,
                delete: _,
                body_ranges,
            } = dm;
            match Message::new(timestamp, body, attachments, sender, sticker, quote, cache,
                &body_ranges) {
                Some(msg) => DecodeStep::Emit(chat, SignalAction::Message(msg, live), None),
                None => DecodeStep::Skip,
            }
        },
        other => other,
    }
}

/// Decodes the transcript of a sent payload that is not an edit.
fn decode_sync_message(cache: &Cache, sender: u128, timestamp: u64,
    message: Option<DataMessage>, dest: Option<u128>) -> (r: DecodeStep)
    requires
        cache.wf(),
    ensures
        r.shape() == spec_sync_message_shape(cache.as_map(), sender, timestamp, message, dest),
        r matches DecodeStep::Emit(chat, action, sd) ==> (action matches SignalAction::Message(
            msg,
            l,
        ) ==> (message matches Some(dm) && emitted_message_ok(cache.as_map(), dm, msg))),
{
    match message {
        Some(dm) => {
            if dm.delete.is_some() {
                decode_delete(cache, dm, dest)
            } else {
                decode_insert(cache, sender, timestamp, dm, dest, false)
            }
        },
        None => DecodeStep::Skip,
    }
}

/// Turns one backend envelope, against the current cache, into zero or one
/// emission — or into the fetch it is waiting for. The arms are tried in
/// this precedence order: received edits, self-originated edits, received
/// deletions, self-originated deletions, received plain messages,
/// self-originated plain messages; receipts, typing indicators and other
/// payloads are skipped, as is anything whose decode fails.
pub fn decode_content(content: Content, cache: &Cache, synced: bool) -> (r: DecodeStep)
    requires
        cache.wf(),
    ensures
        r.shape() == spec_decode_shape(content, cache.as_map(), synced),
        r matches DecodeStep::Emit(chat, action, sd) ==> {
            &&& (action matches SignalAction::Message(msg, l) ==> (decoded_payload(
                content,
            ) matches Some(dm) && emitted_message_ok(cache.as_map(), dm, msg)))
            &&& (action matches SignalAction::Replace(t, msg) ==> (decoded_payload(
                content,
            ) matches Some(dm) && emitted_message_ok(cache.as_map(), dm, msg)))
        },
{
    let ghost whole = content;
    let Content { metadata, body } = content;
    let sender = metadata.sender;
    let timestamp = metadata.timestamp;
    match body {
        ContentBody::EditMessage(em) => match em.data_message {
            Some(dm) => decode_edit(cache, sender, timestamp, dm, em.target_sent_timestamp,
                Some(sender)),
            None => DecodeStep::Skip,
        },
        ContentBody::SynchronizeMessage(sm) => match sm.sent {
            Some(sent) => {
                let Sent { destination_service_id, message, edit_message } = sent;
                let dest = match &destination_service_id {
                    Some(d) => crate::ids::parse_uuid(d.as_str()),
                    None => None,
                };
                match edit_message {
                    Some(em) => match em.data_message {
                        Some(dm) => decode_edit(cache, sender, timestamp, dm,
                            em.target_sent_timestamp, dest),
                        None => decode_sync_message(cache, sender, timestamp, message, dest),
                    },
                    None => decode_sync_message(cache, sender, timestamp, message, dest),
                }
            },
            None => DecodeStep::Skip,
        },
        ContentBody::DataMessage(dm) => {
            if dm.delete.is_some() {
                decode_delete(cache, dm, Some(sender))
            } else {
                decode_insert(cache, sender, timestamp, dm, Some(sender), synced)
            }
        },
        ContentBody::Other => DecodeStep::Skip,
    }
}

} // verus!
