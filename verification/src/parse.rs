//! Between wire body ranges and styled spans.
//!
//! A message body travels as plain text plus a list of ranges (in
//! codepoints) carrying styles and mentions. The front end consumes styled
//! spans. This module converts the ranges into spans, resolving mention
//! names through the cache.

use vstd::prelude::*;

use crate::cache::Cache;
use crate::ids::parse_uuid;
use crate::message::Thread;
use crate::proto::{AssociatedValue, BodyRange};
use crate::span::{rendered_text, SignalSpan, SpanV, MENTION, SPOILER};

verus! {

/// Collects the characters of a string slice.
pub(crate) fn str_to_chars(s: &str) -> (v: Vec<char>)
    ensures
        v@ == s@,
{
    broadcast use vstd::string::axiom_spec_iter;
    broadcast use vstd::string::next_postcondition;

    let mut it = s.chars();
    let mut v: Vec<char> = Vec::new();
    loop
        invariant
            vstd::std_specs::iter::IteratorSpec::obeys_prophetic_iter_laws(&it),
            v@ + vstd::std_specs::iter::IteratorSpec::remaining(&it) == s@,
            vstd::std_specs::iter::IteratorSpec::decrease(&it) is Some,
        decreases vstd::std_specs::iter::IteratorSpec::decrease(&it)->0,
    {
        match it.next() {
            Some(c) => {
                v.push(c);
                proof {
                    assert(v@ + vstd::std_specs::iter::IteratorSpec::remaining(&it) =~= s@);
                }
            },
            None => {
                proof {
                    assert(v@ =~= s@);
                }
                return v;
            },
        }
    }
}

/// Builds a string from a sequence of characters. Relies on std's
/// `FromIterator for String`: collecting characters concatenates exactly
/// those characters.
#[verifier::external_body]
pub(crate) fn chars_to_string(v: &Vec<char>) -> (s: String)
    ensures
        s@ == v@,
{
    v.iter().collect()
}


/// Whether no range attaches a mention.
pub open spec fn no_mention_ranges(ranges: Seq<BodyRange>) -> bool {
    forall|i: int| 0 <= i < ranges.len() ==> !((#[trigger] ranges[i]).associated_value matches Some(
        AssociatedValue::MentionAci(_),
    ))
}

/// Appending a span extends the rendered text by that span's text.
pub proof fn lemma_rendered_push(spans: Seq<SpanV>, span: SpanV)
    ensures
        rendered_text(spans.push(span)) == rendered_text(spans) + span.text,
{
    assert(spans.push(span).drop_last() =~= spans);
    assert(spans.push(span).last() == span);
}

/// Setting a style bit leaves the mention bit alone.
proof fn lemma_style_bit_keeps_mention(f: u8, s: u32)
    requires
        1 <= s <= 5,
    ensures
        (f | (1u8 << s)) & 1 == f & 1,
{
    assert((f | (1u8 << s)) & 1 == f & 1) by (bit_vector)
        requires 1 <= s <= 5;
}

/// Looks a key up in a small association vector.
fn vecmap_get_tag(v: &Vec<(usize, usize)>, k: usize) -> (r: Option<usize>)
    ensures
        v@.len() == 0 ==> r is None,
{
    let mut i: usize = 0;
    while i < v.len()
        decreases v.len() - i,
    {
        if v[i].0 == k {
            return Some(v[i].1);
        }
        i += 1;
    }
    None
}

/// Stores a value under a key in a small association vector, overwriting
/// the previous value of that key.
fn vecmap_put_tag(v: &mut Vec<(usize, usize)>, k: usize, val: usize)
    ensures
        final(v)@.len() >= 1,
{
    let mut i: usize = 0;
    while i < v.len()
        invariant
            i <= v@.len(),
            v@ == old(v)@,
        decreases v.len() - i,
    {
        if v[i].0 == k {
            replace_tag(v, i, (k, val));
            return ;
        }
        i += 1;
    }
    v.push((k, val));
}

/// Replaces one entry of a small association vector.
fn replace_tag(v: &mut Vec<(usize, usize)>, i: usize, e: (usize, usize))
    requires
        i < old(v)@.len(),
    ensures
        final(v)@ == old(v)@.update(i as int, e),
{
    v.remove(i);
    v.insert(i, e);
    proof {
        assert(v@ =~= old(v)@.update(i as int, e));
    }
}

/// Looks a mention up in the mention association vector.
fn vecmap_get_mention<'a>(v: &'a Vec<(usize, u128, String)>, k: usize) -> (r: Option<
    &'a (usize, u128, String)>)
    ensures
        v@.len() == 0 ==> r is None,
        r matches Some(e) ==> exists|i: int| 0 <= i < v@.len() && v@[i] == *e,
    decreases v@.len(),
{
    let mut i: usize = 0;
    while i < v.len()
        decreases v.len() - i,
    {
        if v[i].0 == k {
            return Some(&v[i]);
        }
        i += 1;
    }
    None
}

/// Turns a body and its wire ranges into styled spans, resolving mention
/// names through the cache.
///
/// An empty or absent body yields no spans. A mention whose contact is not
/// yet cached makes the whole conversion fail, and the message then carries
/// no body. Malformed ranges (unknown styles, spans past the end of the
/// body) are skipped. When no range is a mention, the spans render to
/// exactly the body text; with no ranges at all the body becomes one
/// unstyled span.
#[verifier::loop_isolation(false)]
#[verifier::rlimit(60)]
pub fn body_ranges_to_signal_spans(body: Option<String>, body_ranges: &Vec<BodyRange>,
    cache: &Cache) -> (r: Option<Vec<SignalSpan>>)
    requires
        cache.wf(),
    ensures
        body is None ==> r is None,
        body is Some && body->0@.len() == 0 ==> r is None,
        r matches Some(spans) ==> spans@.len() >= 1,
        (body is Some && body->0@.len() > 0 && no_mention_ranges(body_ranges@)) ==> (r matches Some(
            spans,
        ) && rendered_text(spans.deep_view()) == body->0@),
        (body is Some && body->0@.len() > 0 && body_ranges@.len() == 0) ==> (r matches Some(spans)
            && spans.deep_view() =~= seq![
            SpanV {
                text: body->0@,
                flags: 0,
                link: None,
                mention: None,
                spoiler_tag: None,
            },
        ]),
{
    let body = match body {
        Some(b) => b,
        None => {
            return None;
        },
    };
    if body.as_str().is_empty() {
        return None;
    }
    let chars = str_to_chars(body.as_str());
    let n = chars.len();
    proof {
        assert(n > 0) by {
            if body@.len() == 0 {
                assert(body@ =~= Seq::<char>::empty());
            }
        }
    }

    // one flag byte per codepoint
    let mut flags: Vec<u8> = Vec::new();
    let mut i: usize = 0;
    while i < n
        invariant
            i <= n,
            flags@.len() == i,
            forall|j: int| 0 <= j < i ==> flags@[j] == 0,
        decreases n - i,
    {
        flags.push(0);
        i += 1;
    }

    proof {
        assert(0u8 & 1u8 == 0u8) by (bit_vector);
        assert forall|j: int| 0 <= j < n implies (#[trigger] flags@[j]) & 1 == 0 by {
            assert(flags@[j] == 0);
        }
    }
    let mut mentions: Vec<(usize, u128, String)> = Vec::new();
    let mut spoiler_tags: Vec<(usize, usize)> = Vec::new();
    let mut next_spoiler_tag: usize = 0;

    let mut ri: usize = 0;
    while ri < body_ranges.len()
        invariant
            flags@.len() == n,
            no_mention_ranges(body_ranges@) ==> mentions@.len() == 0,
            no_mention_ranges(body_ranges@) ==> forall|j: int| 0 <= j < n ==> (
            #[trigger] flags@[j]) & 1 == 0,
            body_ranges@.len() == 0 ==> spoiler_tags@.len() == 0,
            body_ranges@.len() == 0 ==> forall|j: int| 0 <= j < n ==> flags@[j] == 0,
        decreases body_ranges.len() - ri,
    {
        let range = &body_ranges[ri];
        ri += 1;

        let start64 = match range.start {
            Some(s) => s as u64,
            None => 0,
        };
        let len64 = match range.length {
            Some(l) => l as u64,
            None => 0,
        };
        if start64 + len64 > n as u64 {
            continue ;
        }
        let start = start64 as usize;
        let end = (start64 + len64) as usize;

        let mut mention: Option<u128> = None;
        let style: u32 = match &range.associated_value {
            None => {
                continue ;
            },
            Some(AssociatedValue::MentionAci(aci)) => {
                mention = parse_uuid(aci.as_str());
                0
            },
            Some(AssociatedValue::Style(s)) => {
                if 1 <= *s && *s <= 5 {
                    *s as u32
                } else {
                    continue ;
                }
            },
        };

        if style == 3 {
            vecmap_put_tag(&mut spoiler_tags, start, next_spoiler_tag);
            next_spoiler_tag = next_spoiler_tag.wrapping_add(1);
        }

        if let Some(uuid) = mention {
            let cached = match cache.get(&Thread::Contact(uuid)) {
                Some(chat) => chat,
                None => {
                    return None;
                },
            };
            if let Some(contact) = cached.contact() {
                mentions.push((start, uuid, contact.name));
            }
        }

        let bit: u8 = 1u8 << style;
        let mut j: usize = start;
        while j < end
            invariant
                start <= j <= end <= n,
                flags@.len() == n,
                no_mention_ranges(body_ranges@) ==> forall|jj: int| 0 <= jj < n ==> (
                #[trigger] flags@[jj]) & 1 == 0,
            decreases end - j,
        {
            let updated = flags[j] | bit;
            proof {
                if no_mention_ranges(body_ranges@) {
                    assert(!(body_ranges@[ri - 1].associated_value matches Some(
                        AssociatedValue::MentionAci(_),
                    )));
                    lemma_style_bit_keeps_mention(flags@[j as int], style);
                }
            }
            let ghost prior_flags = flags@;
            flags.remove(j);
            flags.insert(j, updated);
            proof {
                assert(flags@ =~= prior_flags.update(j as int, updated));
            }
            j += 1;
        }
    }

    // group equal-flag runs into spans
    let mut spans: Vec<SignalSpan> = Vec::new();
    let mut last_flag: u8 = flags[0];
    let mut in_progress: Vec<char> = Vec::new();
    let mut spoiler_tag: Option<usize> = None;
    let mut mention: Option<u128> = None;

    let ghost chars_seq = chars@;
    let mut index: usize = 0;
    while index < n
        invariant
            index <= n,
            body_ranges@.len() == 0 ==> (spans@.len() == 0 && last_flag == 0 && in_progress@
                == chars_seq.subrange(0, index as int) && spoiler_tag is None && mention is None),
            no_mention_ranges(body_ranges@) ==> (mention is None && rendered_text(spans.deep_view())
                + in_progress@ == chars_seq.subrange(0, index as int)),
        decreases n - index,
    {
        let flag = flags[index];
        let c = chars[index];

        if last_flag != flag {
            let text = chars_to_string(&in_progress);
            in_progress = Vec::new();
            let span = SignalSpan::new(text).flags(last_flag).set_mention_maybe(
                match mention {
                    Some(u) => {
                        mention = None;
                        Some(u)
                    },
                    None => None,
                },
            ).spoiler_tag_maybe(spoiler_tag);
            proof {
                crate::message::lemma_vec_deep_view(spans);
                lemma_rendered_push(spans.deep_view(), span.deep_view());
            }
            let ghost prior = spans.deep_view();
            spans.push(span);
            proof {
                crate::message::lemma_vec_deep_view(spans);
                assert(spans.deep_view() =~= prior.push(span.deep_view()));
            }
            last_flag = flag;
        }

        match vecmap_get_tag(&spoiler_tags, index) {
            Some(tag) => {
                spoiler_tag = Some(tag);
            },
            None => {
                if flag & SPOILER == 0 {
                    spoiler_tag = None;
                }
            },
        }

        match vecmap_get_mention(&mentions, index) {
            Some(entry) => {
                let name_chars = str_to_chars(entry.2.as_str());
                let mut k: usize = 0;
                while k < name_chars.len()
                    invariant
                        no_mention_ranges(body_ranges@) ==> mentions@.len() == 0,
                    decreases name_chars.len() - k,
                {
                    in_progress.push(name_chars[k]);
                    k += 1;
                }
                mention = Some(entry.1);
            },
            None => {
                if flag & MENTION == 0 {
                    in_progress.push(c);
                    proof {
                        if body_ranges@.len() == 0 {
                            assert(in_progress@ =~= chars_seq.subrange(0, index as int + 1));
                        }
                        if no_mention_ranges(body_ranges@) {
                            assert(rendered_text(spans.deep_view()) + in_progress@
                                =~= chars_seq.subrange(0, index as int + 1));
                        }
                    }
                } else {
                    proof {
                        if no_mention_ranges(body_ranges@) {
                            assert(flags@[index as int] & 1 == 0);
                            assert(false);
                        }
                    }
                }
            },
        }

        index += 1;
    }

    let text = chars_to_string(&in_progress);
    let span = SignalSpan::new(text).flags(last_flag).spoiler_tag_maybe(spoiler_tag);
    proof {
        crate::message::lemma_vec_deep_view(spans);
        lemma_rendered_push(spans.deep_view(), span.deep_view());
    }
    let ghost prior = spans.deep_view();
    spans.push(span);
    proof {
        crate::message::lemma_vec_deep_view(spans);
        assert(spans.deep_view() =~= prior.push(span.deep_view()));
        assert(chars_seq.subrange(0, n as int) =~= chars_seq);
        if body_ranges@.len() == 0 {
            assert(spans.deep_view() =~= seq![
                SpanV { text: body@, flags: 0, link: None, mention: None, spoiler_tag: None },
            ]);
        }
    }
    Some(spans)
}


/// The wire styles, as the protocol numbers them.
pub const STYLE_BOLD: i32 = 1;

pub const STYLE_ITALIC: i32 = 2;

pub const STYLE_SPOILER: i32 = 3;

pub const STYLE_STRIKETHROUGH: i32 = 4;

pub const STYLE_MONOSPACE: i32 = 5;

/// Whether a character plays no part in the markdown syntax: not a marker,
/// not a backslash.
pub open spec fn plain_char(c: char) -> bool {
    c != '*' && c != '|' && c != '~' && c != '`' && c != '\\'
}

/// Ranges that address the first `count` codepoints: every range carries a
/// start, a length and a value, and ends within bounds.
pub open spec fn ranges_within(ranges: Seq<BodyRange>, count: int) -> bool {
    forall|i: int| 0 <= i < ranges.len() ==> ((#[trigger] ranges[i]).start is Some
        && ranges[i].length is Some && ranges[i].associated_value is Some && ranges[i].start->0
        + ranges[i].length->0 <= count)
}

/// Appends a style range covering `pos..count`.
fn push_range(ranges: &mut Vec<BodyRange>, count: u32, pos: u32, style: i32)
    requires
        pos <= count,
        ranges_within(old(ranges)@, count as int),
    ensures
        ranges_within(final(ranges)@, count as int),
        final(ranges)@.len() == old(ranges)@.len() + 1,
{
    ranges.push(
        BodyRange {
            start: Some(pos),
            length: Some(count - pos),
            associated_value: Some(AssociatedValue::Style(style)),
        },
    );
}

/// Re-inserts an unconsumed marker at codepoint `pos` of the output.
#[verifier::loop_isolation(false)]
fn insert_marker(output: &mut Vec<char>, pos: u32, marker: &Vec<char>)
    requires
        old(output)@.len() + marker@.len() < usize::MAX,
    ensures
        final(output)@.len() == old(output)@.len() + marker@.len(),
{
    let mut idx: usize = if (pos as usize) < output.len() {
        pos as usize
    } else {
        output.len()
    };
    let mut k: usize = 0;
    while k < marker.len()
        invariant
            output@.len() == old(output)@.len() + k,
            idx <= output@.len(),
            k <= marker@.len(),
        decreases marker.len() - k,
    {
        output.insert(idx, marker[k]);
        idx += 1;
        k += 1;
    }
}

/// Shifts a pending marker position that sits past the insertion point.
fn update_pos(last: &mut Option<u32>, pos: u32, diff: u32, Ghost(count): Ghost<u32>)
    requires
        *old(last) matches Some(p) ==> p <= count,
        count + diff <= u32::MAX,
    ensures
        *final(last) is Some <==> *old(last) is Some,
        *final(last) matches Some(p) ==> p <= count + diff,
{
    match last {
        Some(p) => {
            if *p > pos {
                *p += diff;
            }
        },
        None => {},
    }
}

/// Stretches or shifts the recorded ranges across an insertion of `diff`
/// codepoints at `pos`: ranges starting at or after the point move, ranges
/// spanning it grow.
#[verifier::loop_isolation(false)]
fn update_ranges(ranges: &mut Vec<BodyRange>, pos: u32, diff: u32, Ghost(count): Ghost<u32>)
    requires
        ranges_within(old(ranges)@, count as int),
        count + diff <= u32::MAX,
    ensures
        ranges_within(final(ranges)@, count as int + diff as int),
        final(ranges)@.len() == old(ranges)@.len(),
{
    let ghost orig = ranges@;
    let mut i: usize = 0;
    while i < ranges.len()
        invariant
            i <= ranges@.len(),
            ranges@.len() == orig.len(),
            forall|j: int| 0 <= j < i ==> {
                let r = #[trigger] ranges@[j];
                &&& r.start is Some
                &&& r.length is Some
                &&& r.associated_value is Some
                &&& r.start->0 + r.length->0 <= count + diff
            },
            forall|j: int| i <= j < ranges@.len() ==> ranges@[j] == orig[j],
        decreases ranges.len() - i,
    {
        proof {
            assert(ranges@[i as int] == orig[i as int]);
        }
        let (start, length) = match (&ranges[i].start, &ranges[i].length) {
            (Some(s), Some(l)) => (*s, *l),
            _ => {
                proof {
                    assert(false);
                }
                (0, 0)
            },
        };
        if start >= pos {
            let updated = BodyRange {
                start: Some(start + diff),
                length: Some(length),
                associated_value: clone_value(&ranges[i].associated_value),
            };
            replace_range(ranges, i, updated);
        } else if start + length > pos {
            let updated = BodyRange {
                start: Some(start),
                length: Some(length + diff),
                associated_value: clone_value(&ranges[i].associated_value),
            };
            replace_range(ranges, i, updated);
        }
        i += 1;
    }
}

/// Copies a range's attached value; presence is preserved.
fn clone_value(v: &Option<AssociatedValue>) -> (r: Option<AssociatedValue>)
    ensures
        r is Some <==> v is Some,
{
    match v {
        Some(AssociatedValue::Style(st)) => Some(AssociatedValue::Style(*st)),
        Some(AssociatedValue::MentionAci(a)) => Some(AssociatedValue::MentionAci(a.clone())),
        None => None,
    }
}

/// Replaces one recorded range.
fn replace_range(ranges: &mut Vec<BodyRange>, i: usize, r: BodyRange)
    requires
        i < old(ranges)@.len(),
    ensures
        final(ranges)@ == old(ranges)@.update(i as int, r),
{
    ranges.remove(i);
    ranges.insert(i, r);
    proof {
        assert(ranges@ =~= old(ranges)@.update(i as int, r));
    }
}

/// Encodes lightweight markdown into plain text plus wire style ranges:
/// `**bold**`, `*italic*`, `||spoiler||`, `~~strikethrough~~`,
/// `` `monospace` ``, with backslash escaping. Markers of spans left
/// unfinished are re-inserted into the output as literal text, and ranges
/// already recorded are stretched or shifted around them. Every returned
/// range has a start, a positive length and a style, and ends within the
/// returned text.
#[verifier::loop_isolation(false)]
#[verifier::rlimit(60)]
pub fn markdown_to_body_ranges(input: &str) -> (r: (String, Vec<BodyRange>))
    requires
        input@.len() + 16 <= u32::MAX,
    ensures
        ranges_within(r.1@, r.0@.len() as int),
        forall|i: int| 0 <= i < r.1@.len() ==> (#[trigger] r.1@[i]).length->0 >= 1,
        input@.len() == 0 ==> r.0@.len() == 0 && r.1@.len() == 0,
        (forall|i: int| 0 <= i < input@.len() ==> plain_char(#[trigger] input@[i])) ==> (r.0@
            == input@ && r.1@.len() == 0),
{
    let chars = str_to_chars(input);
    let n = chars.len();

    let mut bold: Option<u32> = None;
    let mut italic: Option<u32> = None;
    let mut spoiler: Option<u32> = None;
    let mut strikethrough: Option<u32> = None;
    let mut monospace: Option<u32> = None;

    let mut output: Vec<char> = Vec::new();
    let mut count: u32 = 0;
    let mut ranges: Vec<BodyRange> = Vec::new();

    let mut i: usize = 0;
    while i < n
        invariant
            count as int == output@.len(),
            output@.len() <= i <= n,
            ranges@.len() <= i,
            i == 0 ==> (bold is None && italic is None && spoiler is None && strikethrough is None
                && monospace is None),
            (forall|j: int| 0 <= j < n ==> plain_char(#[trigger] chars@[j])) ==> (output@
                == chars@.subrange(0, i as int) && ranges@.len() == 0 && bold is None
                && italic is None && spoiler is None && strikethrough is None && monospace is None),
            ranges_within(ranges@, count as int),
            bold matches Some(p) ==> p <= count,
            italic matches Some(p) ==> p <= count,
            spoiler matches Some(p) ==> p <= count,
            strikethrough matches Some(p) ==> p <= count,
            monospace matches Some(p) ==> p <= count,
        decreases n - i,
    {
        let c = chars[i];
        if c == '*' && i + 1 < n && chars[i + 1] == '*' {
            i += 2;
            match bold {
                Some(pos) => {
                    push_range(&mut ranges, count, pos, STYLE_BOLD);
                    bold = None;
                },
                None => {
                    bold = Some(count);
                },
            }
        } else if c == '*' {
            i += 1;
            match italic {
                Some(pos) => {
                    push_range(&mut ranges, count, pos, STYLE_ITALIC);
                    italic = None;
                },
                None => {
                    italic = Some(count);
                },
            }
        } else if c == '|' && i + 1 < n && chars[i + 1] == '|' {
            i += 2;
            match spoiler {
                Some(pos) => {
                    push_range(&mut ranges, count, pos, STYLE_SPOILER);
                    spoiler = None;
                },
                None => {
                    spoiler = Some(count);
                },
            }
        } else if c == '~' && i + 1 < n && chars[i + 1] == '~' {
            i += 2;
            match strikethrough {
                Some(pos) => {
                    push_range(&mut ranges, count, pos, STYLE_STRIKETHROUGH);
                    strikethrough = None;
                },
                None => {
                    strikethrough = Some(count);
                },
            }
        } else if c == '`' {
            i += 1;
            match monospace {
                Some(pos) => {
                    push_range(&mut ranges, count, pos, STYLE_MONOSPACE);
                    monospace = None;
                },
                None => {
                    monospace = Some(count);
                },
            }
        } else if c == '\\' && i + 1 < n && (chars[i + 1] == '*' || chars[i + 1] == '|' || chars[i
            + 1] == '~' || chars[i + 1] == '\u{b8}' || chars[i + 1] == '\\') {
            output.push(chars[i + 1]);
            count += 1;
            i += 2;
        } else {
            output.push(c);
            count += 1;
            i += 1;
            proof {
                if forall|j: int| 0 <= j < n ==> plain_char(#[trigger] chars@[j]) {
                    assert(output@ =~= chars@.subrange(0, i as int));
                }
            }
        }
    }
    proof {
        if forall|j: int| 0 <= j < n ==> plain_char(#[trigger] chars@[j]) {
            assert(output@ =~= chars@);
        }
    }

    // markers of unfinished spans are re-inserted as literal text
    if let Some(pos) = bold {
        let marker = two_chars('*', '*');
        insert_marker(&mut output, pos, &marker);
        count += 2;
        update_pos(&mut italic, pos, 2, Ghost((count - 2) as u32));
        update_pos(&mut spoiler, pos, 2, Ghost((count - 2) as u32));
        update_pos(&mut strikethrough, pos, 2, Ghost((count - 2) as u32));
        update_pos(&mut monospace, pos, 2, Ghost((count - 2) as u32));
        update_ranges(&mut ranges, pos, 2, Ghost((count - 2) as u32));
    }
    if let Some(pos) = italic {
        let marker = one_char('*');
        insert_marker(&mut output, pos, &marker);
        count += 1;
        update_pos(&mut spoiler, pos, 1, Ghost((count - 1) as u32));
        update_pos(&mut strikethrough, pos, 1, Ghost((count - 1) as u32));
        update_pos(&mut monospace, pos, 1, Ghost((count - 1) as u32));
        update_ranges(&mut ranges, pos, 1, Ghost((count - 1) as u32));
    }
    if let Some(pos) = spoiler {
        let marker = two_chars('|', '|');
        insert_marker(&mut output, pos, &marker);
        count += 2;
        update_pos(&mut strikethrough, pos, 2, Ghost((count - 2) as u32));
        update_pos(&mut monospace, pos, 2, Ghost((count - 2) as u32));
        update_ranges(&mut ranges, pos, 2, Ghost((count - 2) as u32));
    }
    if let Some(pos) = strikethrough {
        let marker = two_chars('~', '~');
        insert_marker(&mut output, pos, &marker);
        count += 2;
        update_pos(&mut monospace, pos, 2, Ghost((count - 2) as u32));
        update_ranges(&mut ranges, pos, 2, Ghost((count - 2) as u32));
    }
    if let Some(pos) = monospace {
        let marker = one_char('`');
        insert_marker(&mut output, pos, &marker);
        count += 1;
        update_ranges(&mut ranges, pos, 1, Ghost((count - 1) as u32));
    }

    // zero-length ranges came from markers that closed immediately
    let mut kept: Vec<BodyRange> = Vec::new();
    let mut ri: usize = 0;
    while ri < ranges.len()
        invariant
            ri <= ranges@.len(),
            kept@.len() <= ri,
            ranges_within(ranges@, count as int),
            ranges_within(kept@, count as int),
            forall|j: int| 0 <= j < kept@.len() ==> (#[trigger] kept@[j]).length->0 >= 1,
        decreases ranges.len() - ri,
    {
        let keep = match &ranges[ri].length {
            Some(l) => *l != 0,
            None => false,
        };
        if keep {
            let entry = BodyRange {
                start: ranges[ri].start,
                length: ranges[ri].length,
                associated_value: clone_value(&ranges[ri].associated_value),
            };
            kept.push(entry);
        }
        ri += 1;
    }

    (chars_to_string(&output), kept)
}

/// A one-character marker.
fn one_char(a: char) -> (v: Vec<char>)
    ensures
        v@.len() == 1,
{
    let mut v: Vec<char> = Vec::new();
    v.push(a);
    v
}

/// A two-character marker.
fn two_chars(a: char, b: char) -> (v: Vec<char>)
    ensures
        v@.len() == 2,
{
    let mut v: Vec<char> = Vec::new();
    v.push(a);
    v.push(b);
    v
}

} // verus!
