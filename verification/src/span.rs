//! Styled spans of message text.
//!
//! A message body is a sequence of spans; each span carries a run of text
//! plus style flags, an optional link, an optional mention and an optional
//! spoiler group tag.

use vstd::prelude::*;

verus! {

/// Flag bit: the span stands for a mention.
pub const MENTION: u8 = 1;

/// Flag bit: bold.
pub const BOLD: u8 = 2;

/// Flag bit: italic.
pub const ITALIC: u8 = 4;

/// Flag bit: spoiler.
pub const SPOILER: u8 = 8;

/// Flag bit: strikethrough.
pub const STRIKETHROUGH: u8 = 16;

/// Flag bit: monospace.
pub const MONOSPACE: u8 = 32;

/// A span of text.
#[derive(Debug)]
pub struct SignalSpan {
    /// The run of text.
    pub text: String,
    /// The style flags of the span.
    pub flags: u8,
    /// The link of the span.
    pub link: Option<String>,
    /// The mentioned contact, by identifier.
    pub mention: Option<u128>,
    /// Allows adjacent spoiler spans to be revealed as one.
    pub spoiler_tag: Option<usize>,
}

/// Mathematical image of a [`SignalSpan`].
pub struct SpanV {
    pub text: Seq<char>,
    pub flags: u8,
    pub link: Option<Seq<char>>,
    pub mention: Option<u128>,
    pub spoiler_tag: Option<usize>,
}

impl DeepView for SignalSpan {
    type V = SpanV;

    open spec fn deep_view(&self) -> SpanV {
        SpanV {
            text: self.text.deep_view(),
            flags: self.flags,
            link: self.link.deep_view(),
            mention: self.mention,
            spoiler_tag: self.spoiler_tag,
        }
    }
}

impl Clone for SignalSpan {
    /// A copy of the span, equal at the view level.
    fn clone(&self) -> (r: Self)
        ensures
            r.deep_view() == self.deep_view(),
    {
        SignalSpan {
            text: self.text.clone(),
            flags: self.flags,
            link: match &self.link {
                Some(l) => Some(l.clone()),
                None => None,
            },
            mention: self.mention,
            spoiler_tag: self.spoiler_tag,
        }
    }
}

impl PartialEq for SignalSpan {
    /// Spans compare by text and flags, as the rendering does.
    fn eq(&self, other: &Self) -> (r: bool) {
        self.text == other.text && self.flags == other.flags
    }
}

impl vstd::std_specs::cmp::PartialEqSpecImpl for SignalSpan {
    open spec fn obeys_eq_spec() -> bool {
        true
    }

    open spec fn eq_spec(&self, other: &Self) -> bool {
        self.text@ == other.text@ && self.flags == other.flags
    }
}

impl SignalSpan {
    /// Creates a new span with the given text and no styling.
    pub fn new(text: String) -> (s: Self)
        ensures
            s.text@ == text@,
            s.flags == 0,
            s.link is None,
            s.mention is None,
            s.spoiler_tag is None,
    {
        SignalSpan { text, flags: 0, link: None, mention: None, spoiler_tag: None }
    }

    /// Sets the flags of the span.
    pub fn flags(self, flags: u8) -> (s: Self)
        ensures
            s == (SignalSpan { flags, ..self }),
    {
        SignalSpan { flags, ..self }
    }

    /// Sets the link of the span.
    pub fn link(self, link: String) -> (s: Self)
        ensures
            s == (SignalSpan { link: Some(link), ..self }),
    {
        SignalSpan { link: Some(link), ..self }
    }

    /// Sets the link of the span, if any.
    pub fn link_maybe(self, link: Option<String>) -> (s: Self)
        ensures
            s == (SignalSpan { link, ..self }),
    {
        SignalSpan { link, ..self }
    }

    /// Sets the mention of the span.
    pub fn set_mention(self, mention: u128) -> (s: Self)
        ensures
            s == (SignalSpan { mention: Some(mention), ..self }),
    {
        SignalSpan { mention: Some(mention), ..self }
    }

    /// Sets the mention of the span, if any.
    pub fn set_mention_maybe(self, mention: Option<u128>) -> (s: Self)
        ensures
            s == (SignalSpan { mention, ..self }),
    {
        SignalSpan { mention, ..self }
    }

    /// Sets the spoiler tag of the span.
    pub fn spoiler_tag(self, tag: usize) -> (s: Self)
        ensures
            s == (SignalSpan { spoiler_tag: Some(tag), ..self }),
    {
        SignalSpan { spoiler_tag: Some(tag), ..self }
    }

    /// Sets the spoiler tag of the span, if any.
    pub fn spoiler_tag_maybe(self, tag: Option<usize>) -> (s: Self)
        ensures
            s == (SignalSpan { spoiler_tag: tag, ..self }),
    {
        SignalSpan { spoiler_tag: tag, ..self }
    }

    /// Whether the `mention` flag is set.
    pub fn mention(&self) -> (r: bool)
        ensures
            r == (self.flags & MENTION != 0),
    {
        self.flags & MENTION != 0
    }

    /// Whether the `bold` flag is set.
    pub fn bold(&self) -> (r: bool)
        ensures
            r == (self.flags & BOLD != 0),
    {
        self.flags & BOLD != 0
    }

    /// Whether the `italic` flag is set.
    pub fn italic(&self) -> (r: bool)
        ensures
            r == (self.flags & ITALIC != 0),
    {
        self.flags & ITALIC != 0
    }

    /// Whether the `spoiler` flag is set.
    pub fn spoiler(&self) -> (r: bool)
        ensures
            r == (self.flags & SPOILER != 0),
    {
        self.flags & SPOILER != 0
    }

    /// Whether the `strikethrough` flag is set.
    pub fn strikethrough(&self) -> (r: bool)
        ensures
            r == (self.flags & STRIKETHROUGH != 0),
    {
        self.flags & STRIKETHROUGH != 0
    }

    /// Whether the `monospace` flag is set.
    pub fn monospace(&self) -> (r: bool)
        ensures
            r == (self.flags & MONOSPACE != 0),
    {
        self.flags & MONOSPACE != 0
    }

    /// A span that renders as plain text: no spoiler, no mention, no
    /// strikethrough, no link.
    pub fn is_simple_text(&self) -> (r: bool)
        ensures
            r == (self.flags & SPOILER == 0 && self.flags & MENTION == 0 && self.flags
                & STRIKETHROUGH == 0 && self.link is None),
    {
        self.flags & SPOILER == 0 && self.flags & MENTION == 0 && self.flags & STRIKETHROUGH == 0
            && self.link.is_none()
    }
}

/// The text a sequence of spans renders to: the concatenation of the spans'
/// runs of text.
pub open spec fn rendered_text(spans: Seq<SpanV>) -> Seq<char>
    decreases spans.len(),
{
    if spans.len() == 0 {
        Seq::empty()
    } else {
        rendered_text(spans.drop_last()) + spans.last().text
    }
}

} // verus!
