use sticky::markdown::{markdown_spans, wrap_selection, Emphasis, Span, SpanStyle};
use sticky::text::chars_of;

fn sp(style: SpanStyle, start: usize, end: usize) -> Span {
    Span { style, start, end }
}

#[test]
fn bold_and_italic_runs() {
    let spans = markdown_spans(&chars_of("**b** *i*"));
    assert_eq!(
        spans,
        vec![
            sp(SpanStyle::Hidden, 0, 2),
            sp(SpanStyle::Bold, 2, 3),
            sp(SpanStyle::Hidden, 3, 5),
            sp(SpanStyle::Hidden, 6, 7),
            sp(SpanStyle::Italic, 7, 8),
            sp(SpanStyle::Hidden, 8, 9),
        ]
    );
}

#[test]
fn unclosed_markers_are_plain_text() {
    assert!(markdown_spans(&chars_of("**unclosed")).is_empty());
    assert!(markdown_spans(&chars_of("a*b")).is_empty());
    assert!(markdown_spans(&chars_of("**")).is_empty());
}

#[test]
fn empty_bold_run_is_marked_but_empty_italic_is_not() {
    assert_eq!(
        markdown_spans(&chars_of("****")),
        vec![sp(SpanStyle::Hidden, 0, 2), sp(SpanStyle::Bold, 2, 2), sp(SpanStyle::Hidden, 2, 4)]
    );
    assert_eq!(
        markdown_spans(&chars_of("x**y")),
        Vec::<Span>::new()
    );
}

#[test]
fn offsets_count_characters_not_bytes() {
    assert_eq!(
        markdown_spans(&chars_of("é*ü*")),
        vec![sp(SpanStyle::Hidden, 1, 2), sp(SpanStyle::Italic, 2, 3), sp(SpanStyle::Hidden, 3, 4)]
    );
}

#[test]
fn shortcut_keys() {
    assert_eq!(Emphasis::for_key('B'), Some(Emphasis::Bold));
    assert_eq!(Emphasis::for_key('i'), Some(Emphasis::Italic));
    assert_eq!(Emphasis::for_key('U'), Some(Emphasis::Underline));
    assert_eq!(Emphasis::for_key('h'), Some(Emphasis::Highlight));
    assert_eq!(Emphasis::for_key('x'), None);
    assert_eq!(Emphasis::Highlight.opening(), "<mark>");
    assert_eq!(Emphasis::Highlight.closing(), "</mark>");
    assert_eq!(Emphasis::Bold.opening(), "**");
}

#[test]
fn wrapping_a_selection() {
    let edit = wrap_selection(Some((2, 5, "abc")), 0, "**", "**");
    assert_eq!((edit.start, edit.end), (2, 5));
    assert_eq!(edit.insert, "**abc**");
    assert_eq!(edit.cursor, None);
}

#[test]
fn wrapping_at_the_cursor_puts_it_between_the_markers() {
    let edit = wrap_selection(None, 4, "<u>", "</u>");
    assert_eq!((edit.start, edit.end), (4, 4));
    assert_eq!(edit.insert, "<u></u>");
    assert_eq!(edit.cursor, Some(7));
}

#[test]
fn hidden_spans_cover_only_markers() {
    let text = chars_of("a **b** and *c* **d*");
    for span in markdown_spans(&text) {
        assert!(span.start <= span.end && span.end <= text.len());
        if span.style == SpanStyle::Hidden {
            assert!(text[span.start..span.end].iter().all(|c| *c == '*'));
        }
    }
}

#[test]
fn spans_come_in_runs_of_three() {
    let text = chars_of("**a** b *c* ****");
    let spans = markdown_spans(&text);
    assert_eq!(spans.len() % 3, 0);
    let mut last_end = 0;
    for run in spans.chunks(3) {
        assert_eq!(run[0].style, SpanStyle::Hidden);
        assert_eq!(run[2].style, SpanStyle::Hidden);
        assert!(run[0].start >= last_end);
        assert_eq!(run[0].end, run[1].start);
        assert_eq!(run[1].end, run[2].start);
        last_end = run[2].end;
    }
    assert_eq!(markdown_spans(&text), spans);
}
