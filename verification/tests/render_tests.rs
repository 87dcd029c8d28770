use diff_render::render::{format_diff, render_diff};
use diff_render::spans::{Span, Style};

/// The unstyled text of one rendered line.
fn line_text(line: &Vec<Span>) -> String {
    let mut s = String::new();
    for sp in line {
        for c in &sp.text {
            s.push(*c);
        }
    }
    s
}

fn all_texts(out: &Vec<Vec<Span>>) -> Vec<String> {
    out.iter().map(line_text).collect()
}

fn span_texts_with_style(line: &Vec<Span>, style: Style) -> Vec<String> {
    line.iter()
        .filter(|sp| sp.style == style)
        .map(|sp| sp.text.iter().collect())
        .collect()
}

fn has_any_styled_span(out: &Vec<Vec<Span>>) -> bool {
    out.iter()
        .any(|line| line.iter().any(|sp| !matches!(sp.style, Style::Plain)))
}

fn has_skip_message(out: &Vec<Vec<Span>>) -> bool {
    all_texts(out).iter().any(|t| t.contains("lines skipped"))
}

#[test]
fn equal_inputs_render_only_plain_lines() {
    let text = b"alpha\nbeta\ngamma\n";
    let out = render_diff(text, text);
    assert!(!has_any_styled_span(&out));
}

#[test]
fn equal_long_inputs_render_only_plain_lines() {
    let text = b"a\nb\nc\nd\ne\nf\ng\nh\ni\nj\n";
    let out = render_diff(text, text);
    assert!(!has_any_styled_span(&out));
    assert!(has_skip_message(&out));
}

#[test]
fn empty_inputs_render_only_the_trailing_blank_line() {
    let out = render_diff(b"", b"");
    let texts = all_texts(&out);
    assert_eq!(texts, vec![String::new()]);
}

#[test]
fn first_region_summarizes_all_but_trailing_context() {
    // Seven unchanged lines before the first change: everything except the
    // last two is summarized with its count, then the two context lines.
    let expected = b"l1\nl2\nl3\nl4\nl5\nl6\nl7\nend\n";
    let actual = b"l1\nl2\nl3\nl4\nl5\nl6\nl7\nEND\n";
    let out = render_diff(expected, actual);
    let texts = all_texts(&out);
    assert_eq!(texts[0], "... 5 lines skipped ...");
    assert_eq!(texts[1], " l6");
    assert_eq!(texts[2], " l7");
}

#[test]
fn interior_run_of_six_keeps_context_and_counts_the_rest() {
    let expected = b"x\na\nb\nc\nd\ne\nf\ny\n";
    let actual = b"X\na\nb\nc\nd\ne\nf\nY\n";
    let out = render_diff(expected, actual);
    let texts = all_texts(&out);
    let pos = texts
        .iter()
        .position(|t| t == "... 2 lines skipped ...")
        .expect("count message missing");
    assert_eq!(texts[pos - 2], " a");
    assert_eq!(texts[pos - 1], " b");
    assert_eq!(texts[pos + 1], " e");
    assert_eq!(texts[pos + 2], " f");
}

#[test]
fn interior_run_of_four_is_printed_in_full() {
    // Exactly CONTEXT * 2 unchanged lines between two changes: all four are
    // shown and no skip message appears.
    let expected = b"x\na\nb\nc\nd\ny\n";
    let actual = b"X\na\nb\nc\nd\nY\n";
    let out = render_diff(expected, actual);
    let texts = all_texts(&out);
    assert!(texts.contains(&" a".to_string()));
    assert!(texts.contains(&" b".to_string()));
    assert!(texts.contains(&" c".to_string()));
    assert!(texts.contains(&" d".to_string()));
    assert!(!has_skip_message(&out));
}

#[test]
fn interior_run_of_five_is_printed_in_full() {
    // One more than CONTEXT * 2: the single line the count would summarize
    // is printed itself instead, so all five lines appear and no counting
    // message does.
    let expected = b"x\na\nb\nc\nd\ne\ny\n";
    let actual = b"X\na\nb\nc\nd\ne\nY\n";
    let out = render_diff(expected, actual);
    let texts = all_texts(&out);
    for l in [" a", " b", " c", " d", " e"] {
        assert!(texts.contains(&l.to_string()), "missing {l:?}");
    }
    assert!(!has_skip_message(&out));
}

#[test]
fn one_omitted_line_in_first_region_is_printed_itself() {
    // Three unchanged lines before the first change: the one line beyond
    // the trailing context is shown itself, not counted.
    let expected = b"a\nb\nc\nend\n";
    let actual = b"a\nb\nc\nEND\n";
    let out = render_diff(expected, actual);
    let texts = all_texts(&out);
    assert_eq!(texts[0], " a");
    assert_eq!(texts[1], " b");
    assert_eq!(texts[2], " c");
    assert!(!has_skip_message(&out));
}

#[test]
fn mixed_pair_renders_two_highlighted_lines() {
    let out = render_diff(b"foo bar\n", b"foo baz\n");
    let texts = all_texts(&out);
    assert_eq!(texts[0], "-foo bar");
    assert_eq!(texts[1], "+foo baz");
    // Only the marker and the characters exclusive to each side are
    // highlighted; the shared text stays plain.
    let reds = span_texts_with_style(&out[0], Style::Red);
    assert_eq!(reds, vec!["-".to_string(), "r".to_string()]);
    let greens = span_texts_with_style(&out[1], Style::Green);
    assert_eq!(greens, vec!["+".to_string(), "z".to_string()]);
}

#[test]
fn trailing_space_only_pair_renders_one_changed_line() {
    let out = render_diff(b"foo", b"foo ");
    let texts = all_texts(&out);
    assert_eq!(texts[0], "~foo ");
    let yellows = span_texts_with_style(&out[0], Style::Yellow);
    assert_eq!(yellows, vec!["~".to_string()]);
    // No second styled line: the pair is a pure, in-place edit.
    assert!(!texts.iter().skip(1).any(|t| t.starts_with('-') || t.starts_with('+')));
}

#[test]
fn end_to_end_single_changed_line() {
    let out = render_diff(b"a\nb\nc\n", b"a\nX\nc\n");
    let texts = all_texts(&out);
    assert_eq!(texts, vec![
        " a".to_string(),
        "-b".to_string(),
        "+X".to_string(),
        " c".to_string(),
        " ".to_string(),
        String::new(),
    ]);
    assert!(!has_skip_message(&out));
}

#[test]
fn rendering_is_deterministic() {
    let expected = b"one\ntwo\nthree\nfour\nfive\nsix\n";
    let actual = b"one\n2\nthree\nfour\nfive\nsix six\n";
    let first = format_diff(expected, actual);
    let second = format_diff(expected, actual);
    assert_eq!(first, second);
    let spans_a = render_diff(expected, actual);
    let spans_b = render_diff(expected, actual);
    assert_eq!(all_texts(&spans_a), all_texts(&spans_b));
}

#[test]
fn formatted_text_carries_the_rendered_lines() {
    let s = format_diff(b"a\nb\nc\n", b"a\nX\nc\n");
    assert!(s.contains(" a\n"), "{s:?}");
    assert!(s.contains("-b"), "{s:?}");
    assert!(s.contains("+X"), "{s:?}");
    assert!(s.contains(" c\n"), "{s:?}");
    assert!(s.ends_with('\n'));
}

#[test]
fn invalid_utf8_adds_a_warning_line() {
    let out = render_diff(b"\xff\xfe\n", b"ok\n");
    assert_eq!(
        line_text(&out[0]),
        "Non-UTF8 characters in output, diff may be imprecise."
    );
    assert!(matches!(out[0][0].style, Style::Red));
}

#[test]
fn valid_utf8_has_no_warning_line() {
    let out = render_diff(b"a\n", b"b\n");
    assert!(!line_text(&out[0]).contains("Non-UTF8"));
}

#[test]
fn tabs_are_made_visible_as_placeholder_glyphs() {
    let out = render_diff(b"x\ty\n", b"x y\n");
    let texts = all_texts(&out);
    assert!(texts.iter().any(|t| t.contains('\u{2591}')), "{texts:?}");
}

#[test]
fn removed_line_at_end_of_stream_is_flushed() {
    let out = render_diff(b"a\nb", b"a");
    let texts = all_texts(&out);
    assert!(texts.contains(&"-b".to_string()), "{texts:?}");
    let minus = out
        .iter()
        .find(|l| line_text(l) == "-b")
        .expect("missing removal line");
    assert!(minus.iter().all(|sp| matches!(sp.style, Style::Red)));
}

#[test]
fn added_line_without_pending_removal_is_green() {
    let out = render_diff(b"a\n", b"a\nb\n");
    let texts = all_texts(&out);
    let pos = texts.iter().position(|t| t == "+b").expect("missing addition line");
    assert!(out[pos].iter().all(|sp| matches!(sp.style, Style::Green)));
}
