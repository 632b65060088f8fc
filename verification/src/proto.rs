//! Plain-value model of the protocol envelopes the backend delivers.
//!
//! One `Content` is one decrypted unit of the backend's message stream. The
//! embedding program translates the backend's wire structures into these
//! types, field for field; every field the decoder reads is held here as a
//! plain value (identifiers as 128-bit integers, keys as byte vectors,
//! timestamps as milliseconds).

use vstd::prelude::*;

verus! {

/// Envelope metadata: who sent it and when.
#[derive(Clone, Debug)]
pub struct Metadata {
    /// Sender identifier.
    pub sender: u128,
    /// Destination identifier.
    pub destination: u128,
    /// Server timestamp of the envelope, in milliseconds.
    pub timestamp: u64,
}

/// Reference to a group and the revision the envelope was built against.
#[derive(Clone, Debug)]
pub struct GroupContextV2 {
    /// 32-byte group master key.
    pub master_key: Option<Vec<u8>>,
    /// Group revision cited by the sender.
    pub revision: Option<u32>,
}

/// A styled or mention range over the body text, in codepoints.
#[derive(Clone, Debug, PartialEq)]
pub struct BodyRange {
    pub start: Option<u32>,
    pub length: Option<u32>,
    pub associated_value: Option<AssociatedValue>,
}

/// What a [`BodyRange`] attaches to its span of text.
#[derive(Clone, Debug, PartialEq)]
pub enum AssociatedValue {
    /// A mention of the contact with the given textual identifier.
    MentionAci(String),
    /// A numbered style: 1 bold, 2 italic, 3 spoiler, 4 strikethrough,
    /// 5 monospace.
    Style(i32),
}

/// An attachment as referenced by an envelope: an opaque pointer plus its
/// declared media type.
#[derive(Clone, Debug)]
pub struct AttachmentPointer {
    /// Declared MIME type, when present.
    pub content_type: Option<String>,
}

/// A sticker body: an attachment pointer to its image data.
#[derive(Clone, Debug)]
pub struct Sticker {
    pub data: Option<AttachmentPointer>,
}

/// A quoted earlier message embedded in an envelope.
#[derive(Clone, Debug)]
pub struct ProtoQuote {
    /// Timestamp of the quoted message, in milliseconds.
    pub id: Option<u64>,
    /// Textual identifier of the quoted author.
    pub author_aci: Option<String>,
    pub text: Option<String>,
    pub attachments: Vec<QuotedAttachment>,
    pub body_ranges: Vec<BodyRange>,
}

/// Frozen thumbnail reference inside a quote.
#[derive(Clone, Debug)]
pub struct QuotedAttachment {
    pub content_type: Option<String>,
    pub thumbnail: Option<AttachmentPointer>,
}

/// Remote deletion of an earlier message.
#[derive(Clone, Debug)]
pub struct Delete {
    pub target_sent_timestamp: Option<u64>,
}

/// The data payload of a plain message.
#[derive(Clone, Debug)]
pub struct DataMessage {
    pub body: Option<String>,
    pub attachments: Vec<AttachmentPointer>,
    pub group_v2: Option<GroupContextV2>,
    /// Sender's 32-byte profile key, when attached.
    pub profile_key: Option<Vec<u8>>,
    pub quote: Option<ProtoQuote>,
    pub sticker: Option<Sticker>,
    pub delete: Option<Delete>,
    pub body_ranges: Vec<BodyRange>,
}

/// Replacement of an earlier message by new content.
#[derive(Clone, Debug)]
pub struct EditMessage {
    pub target_sent_timestamp: Option<u64>,
    pub data_message: Option<DataMessage>,
}

/// The transcript of a message this account sent from some device.
#[derive(Clone, Debug)]
pub struct Sent {
    /// Textual identifier of the destination contact, absent for groups.
    pub destination_service_id: Option<String>,
    pub message: Option<DataMessage>,
    pub edit_message: Option<EditMessage>,
}

/// A synchronization payload between this account's devices.
#[derive(Clone, Debug)]
pub struct SyncMessage {
    pub sent: Option<Sent>,
}

/// The typed body of an envelope.
#[derive(Clone, Debug)]
pub enum ContentBody {
    DataMessage(DataMessage),
    SynchronizeMessage(SyncMessage),
    EditMessage(EditMessage),
    /// Receipts, typing indicators and other payloads the decoder skips.
    Other,
}

/// One decrypted unit from the backend's message stream.
#[derive(Clone, Debug)]
pub struct Content {
    pub metadata: Metadata,
    pub body: ContentBody,
}

} // verus!
