use foghorn::backoff::Backoff;
use foghorn::cache::Cache;
use foghorn::dialog::{Action, Dialog};
use foghorn::parse::{
    STYLE_BOLD, STYLE_ITALIC, STYLE_MONOSPACE, STYLE_SPOILER, STYLE_STRIKETHROUGH,
    body_ranges_to_signal_spans, markdown_to_body_ranges,
};
use foghorn::proto::{AssociatedValue, BodyRange};
use foghorn::selection::{Direction, Selection, SelectionEnd};
use foghorn::span::{BOLD, ITALIC, MONOSPACE, SPOILER, STRIKETHROUGH, SignalSpan};

fn span(text: &str, flags: u8, spoiler_tag: Option<usize>) -> SignalSpan {
    SignalSpan {
        text: text.to_owned(),
        flags,
        link: None,
        mention: None,
        spoiler_tag,
    }
}

fn style_range(start: u32, length: u32, style: i32) -> BodyRange {
    BodyRange {
        start: Some(start),
        length: Some(length),
        associated_value: Some(AssociatedValue::Style(style)),
    }
}

#[test]
fn test_happy() {
    let (output, ranges) = markdown_to_body_ranges(
        r"testing ***rich text*** ~~(fancy \\\*\* escaping)~~ ||this is a `monospace spoiler||`||*italic* **bold** ~~strikethrough~~ spoiler||",
    );

    assert_eq!(
        output,
        r"testing rich text (fancy \** escaping) this is a monospace spoileritalic bold strikethrough spoiler"
    );

    assert_eq!(
        ranges,
        [
            style_range(8, 9, STYLE_BOLD),
            style_range(8, 9, STYLE_ITALIC),
            style_range(18, 20, STYLE_STRIKETHROUGH),
            style_range(39, 27, STYLE_SPOILER),
            style_range(49, 17, STYLE_MONOSPACE),
            style_range(66, 6, STYLE_ITALIC),
            style_range(73, 4, STYLE_BOLD),
            style_range(78, 13, STYLE_STRIKETHROUGH),
            style_range(66, 33, STYLE_SPOILER),
        ]
    );

    let output = body_ranges_to_signal_spans(Some(output), &ranges, &Cache::new()).unwrap();

    assert_eq!(
        output,
        [
            span(r"testing ", 0, None),
            span(r"rich text", BOLD | ITALIC, None),
            span(r" ", 0, None),
            span(r"(fancy \** escaping)", STRIKETHROUGH, None),
            span(r" ", 0, None),
            span(r"this is a ", SPOILER, Some(0)),
            span(r"monospace spoiler", SPOILER | MONOSPACE, Some(0)),
            span(r"italic", SPOILER | ITALIC, Some(1)),
            span(r" ", SPOILER, Some(1)),
            span(r"bold", SPOILER | BOLD, Some(1)),
            span(r" ", SPOILER, Some(1)),
            span(r"strikethrough", SPOILER | STRIKETHROUGH, Some(1)),
            span(r" spoiler", SPOILER, Some(1)),
        ]
    );
}

#[test]
fn markdown_of_plain_text_is_identity() {
    let (output, ranges) = markdown_to_body_ranges("hello");
    assert_eq!(output, "hello");
    assert!(ranges.is_empty());
}

#[test]
fn markdown_of_empty_input_is_empty() {
    let (output, ranges) = markdown_to_body_ranges("");
    assert_eq!(output, "");
    assert!(ranges.is_empty());
}

#[test]
fn unfinished_marker_is_reinserted() {
    let (output, ranges) = markdown_to_body_ranges("a **b");
    assert_eq!(output, "a **b");
    assert!(ranges.is_empty());
}

#[test]
fn empty_body_has_no_spans() {
    assert!(body_ranges_to_signal_spans(None, &Vec::new(), &Cache::new()).is_none());
    assert!(body_ranges_to_signal_spans(Some(String::new()), &Vec::new(), &Cache::new()).is_none());
}

#[test]
fn plain_body_is_one_span() {
    let spans =
        body_ranges_to_signal_spans(Some("hi there".to_owned()), &Vec::new(), &Cache::new())
            .unwrap();
    assert_eq!(spans.len(), 1);
    assert_eq!(spans[0].text, "hi there");
    assert_eq!(spans[0].flags, 0);
    assert!(spans[0].spoiler_tag.is_none());
    assert!(spans[0].mention.is_none());
}

#[test]
fn out_of_bounds_range_is_skipped() {
    let ranges = vec![style_range(3, 50, STYLE_BOLD)];
    let spans = body_ranges_to_signal_spans(Some("abc".to_owned()), &ranges, &Cache::new()).unwrap();
    assert_eq!(spans.len(), 1);
    assert_eq!(spans[0].flags, 0);
}

#[test]
fn span_flag_queries() {
    let s = SignalSpan::new("x".to_owned()).flags(BOLD | SPOILER);
    assert!(s.bold());
    assert!(s.spoiler());
    assert!(!s.italic());
    assert!(!s.strikethrough());
    assert!(!s.monospace());
    assert!(!s.mention());
    assert!(!s.is_simple_text());
    let plain = SignalSpan::new("y".to_owned());
    assert!(plain.is_simple_text());
}

#[test]
fn span_builders() {
    let s = SignalSpan::new("x".to_owned())
        .link("https://example.invalid".to_owned())
        .set_mention(7)
        .spoiler_tag(2);
    assert_eq!(s.link.as_deref(), Some("https://example.invalid"));
    assert_eq!(s.mention, Some(7));
    assert_eq!(s.spoiler_tag, Some(2));
    let cleared = s.link_maybe(None).set_mention_maybe(None).spoiler_tag_maybe(None);
    assert!(cleared.link.is_none());
    assert!(cleared.mention.is_none());
    assert!(cleared.spoiler_tag.is_none());
}

#[test]
fn selection_range_is_normalized() {
    let mut selection = Selection::default();

    let start = SelectionEnd::new(5, 17);
    let end = SelectionEnd::new(2, 8);

    selection.select_range(start, end);

    assert_eq!(selection.start, end);
    assert_eq!(selection.end, start);
}

#[test]
fn change_selection_flips_direction() {
    let mut selection = Selection::default();

    let start = SelectionEnd::new(5, 17);
    let end = SelectionEnd::new(2, 8);

    selection.select_range(start, end);

    assert_eq!(selection.start, end);
    assert_eq!(selection.end, start);
    assert_eq!(selection.direction, Direction::Right);

    let new_end = SelectionEnd::new(2, 2);

    selection.change_selection(new_end);

    assert_eq!(selection.start, new_end);
    assert_eq!(selection.end, end);
    assert_eq!(selection.direction, Direction::Left);
}

#[test]
fn empty_selection() {
    let s = Selection::new();
    assert!(s.is_empty());
    assert_eq!(s.active_end(), SelectionEnd::new(0, 0));
    let mut s = s;
    s.change_selection(SelectionEnd::new(0, 4));
    assert!(!s.is_empty());
    assert_eq!(s.active_end(), SelectionEnd::new(0, 4));
}

#[test]
fn select_line_beginning_moves_active_end() {
    let mut s = Selection::new();
    s.select_range(SelectionEnd::new(1, 3), SelectionEnd::new(1, 7));
    s.select_line_beginning();
    assert_eq!(s.start, SelectionEnd::new(1, 0));
    assert_eq!(s.end, SelectionEnd::new(1, 3));
    assert_eq!(s.direction, Direction::Left);
}

#[test]
fn select_beginning_selects_to_start() {
    let mut s = Selection::new();
    s.select_range(SelectionEnd::new(2, 1), SelectionEnd::new(3, 4));
    s.select_beginning();
    assert_eq!(s.start, SelectionEnd::new(0, 0));
    assert_eq!(s.end, SelectionEnd::new(2, 1));
    assert_eq!(s.direction, Direction::Left);
}

#[test]
fn backoff_delays_are_fibonacci_capped() {
    let mut b = Backoff::new();
    let mut delays: Vec<u64> = Vec::new();
    for _ in 0..40 {
        delays.push(b.advance());
    }
    assert_eq!(&delays[..7], &[100, 100, 200, 300, 500, 800, 1300]);
    let mut previous = 0u64;
    let mut capped = false;
    for d in delays {
        assert!(d >= previous);
        assert!(d <= 1_000_000);
        if d == 1_000_000 {
            capped = true;
        }
        previous = d;
    }
    assert!(capped);
}

#[test]
fn dialog_lifecycle() {
    let mut d = Dialog::new(
        "Link your device".to_owned(),
        "Scan the QR code below to link your device.".to_owned(),
        true,
        Action::NoButton,
    );
    assert!(d.is_open);
    assert!(d.has_qr_code);
    assert!(!d.monospace);
    d.close();
    assert!(!d.is_open);

    let e = Dialog::new(
        "Oops! Something went wrong.".to_owned(),
        "connection refused".to_owned(),
        false,
        Action::RetryLinking,
    )
    .monospace();
    assert!(e.monospace);
    assert!(matches!(e.action, Action::RetryLinking));
    assert!(matches!(Action::default(), Action::NoButton));
}

#[test]
fn select_movements_wrap_lines() {
    // a paragraph of three lines with 5, 2 and 4 graphemes
    let lens = vec![5usize, 2, 4];

    let mut s = Selection::new();
    s.select_range(SelectionEnd::new(1, 0), SelectionEnd::new(1, 0));
    s.select_left(&lens);
    // wrapped to the end of the previous line
    assert_eq!(s.active_end(), SelectionEnd::new(0, 5));

    let mut s = Selection::new();
    s.select_range(SelectionEnd::new(0, 5), SelectionEnd::new(0, 5));
    s.select_right(&lens);
    // wrapped to the start of the next line
    assert_eq!(s.active_end(), SelectionEnd::new(1, 0));

    let mut s = Selection::new();
    s.select_range(SelectionEnd::new(2, 2), SelectionEnd::new(2, 2));
    s.select_right(&lens);
    assert_eq!(s.active_end(), SelectionEnd::new(2, 3));
}

#[test]
fn select_up_remembers_column() {
    let lens = vec![5usize, 2, 4];
    let mut s = Selection::new();
    s.select_range(SelectionEnd::new(2, 4), SelectionEnd::new(2, 4));
    // the middle line is shorter: the index clips to 2, the column is kept
    s.select_up(&lens);
    assert_eq!(s.active_end(), SelectionEnd::new(1, 2));
    assert_eq!(s.moving_line_index, Some(4));
    // moving on restores the remembered column where it fits
    s.select_up(&lens);
    assert_eq!(s.active_end(), SelectionEnd::new(0, 4));
    assert_eq!(s.moving_line_index, None);
    // at the top, up selects to the start of the line
    s.select_up(&lens);
    assert_eq!(s.active_end(), SelectionEnd::new(0, 0));
}

#[test]
fn select_down_clips_to_last_line() {
    let lens = vec![5usize, 2, 4];
    let mut s = Selection::new();
    s.select_range(SelectionEnd::new(1, 1), SelectionEnd::new(1, 1));
    s.select_down(&lens);
    assert_eq!(s.active_end(), SelectionEnd::new(2, 1));
    // at the bottom, down selects to the end of the line
    s.select_down(&lens);
    assert_eq!(s.active_end(), SelectionEnd::new(2, 4));
}

#[test]
fn select_line_and_all() {
    let lens = vec![5usize, 2, 4];
    let mut s = Selection::new();
    s.select_line(1, &lens);
    assert_eq!(s.start, SelectionEnd::new(1, 0));
    assert_eq!(s.end, SelectionEnd::new(1, 2));

    s.select_all(&lens);
    assert_eq!(s.start, SelectionEnd::new(0, 0));
    assert_eq!(s.end, SelectionEnd::new(2, 4));

    let mut s = Selection::new();
    s.select_line_end(&lens);
    assert_eq!(s.active_end(), SelectionEnd::new(0, 5));
    s.select_end(&lens);
    assert_eq!(s.active_end(), SelectionEnd::new(2, 4));
}

#[test]
fn selected_text_joins_lines() {
    let lines: Vec<Vec<char>> = ["first line", "mid", "last one"]
        .iter()
        .map(|l| l.chars().collect())
        .collect();

    let mut s = Selection::new();
    s.select_range(SelectionEnd::new(0, 6), SelectionEnd::new(2, 4));
    assert_eq!(s.text(&lines), "line\nmid\nlast");

    let mut s = Selection::new();
    s.select_range(SelectionEnd::new(1, 1), SelectionEnd::new(1, 3));
    assert_eq!(s.text(&lines), "id");

    let empty = Selection::new();
    assert_eq!(empty.text(&lines), "");
}
