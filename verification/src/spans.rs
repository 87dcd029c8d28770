//! The rendered output, modeled as lines of styled spans.  A span is a piece
//! of text together with the semantic role it is displayed in; the exact
//! terminal escape codes are left to the styling layer.

use crate::model::dec_of;
use crate::rows::CharRow;
use vstd::prelude::*;

verus! {

/// The semantic role a span of output text is displayed in.
#[derive(PartialEq, Eq, Structural, Clone, Copy, Debug)]
pub enum Style {
    /// Unchanged text, shown without styling.
    Plain,
    /// Text present only in the expected input (a removal).
    Red,
    /// Text present only in the actual input (an addition).
    Green,
    /// The marker of a single-line in-place change.
    Yellow,
}

/// A run of output text displayed in one style.
pub struct Span {
    pub style: Style,
    pub text: Vec<char>,
}

/// The mathematical form of a [`Span`].
#[verifier::ext_equal]
pub ghost struct SpanV {
    pub style: Style,
    pub text: Seq<char>,
}

impl View for Span {
    type V = SpanV;

    open spec fn view(&self) -> SpanV {
        SpanV { style: self.style, text: self.text@ }
    }
}

impl DeepView for Span {
    type V = SpanV;

    open spec fn deep_view(&self) -> SpanV {
        self.view()
    }
}

/// A context line: the unchanged line, indented by one space, unstyled.
pub open spec fn ctx_line(l: Seq<char>) -> Seq<SpanV> {
    seq![SpanV { style: Style::Plain, text: seq![' '] + l }]
}

/// A removal line: `-` and the removed line, all in the removal style.
pub open spec fn removed_line(l: Seq<char>) -> Seq<SpanV> {
    seq![SpanV { style: Style::Red, text: seq!['-'] + l }]
}

/// An addition line: `+` and the added line, all in the addition style.
pub open spec fn added_line(r: Seq<char>) -> Seq<SpanV> {
    seq![SpanV { style: Style::Green, text: seq!['+'] + r }]
}

/// The text of the skip summary for `n` omitted lines.
pub open spec fn skip_msg_text(n: nat) -> Seq<char> {
    "... "@ + dec_of(n) + " lines skipped ..."@
}

/// The skip summary line, unstyled.
pub open spec fn skip_msg_line(n: nat) -> Seq<SpanV> {
    seq![SpanV { style: Style::Plain, text: skip_msg_text(n) }]
}

/// The spans contributed by one character record to a change line.  The
/// removal line keeps left-only characters (highlighted) and matched
/// characters (plain); the addition line keeps right-only and matched
/// characters; the single-line form keeps all three.
pub open spec fn char_spans(row: CharRow, show_gone: bool, show_added: bool) -> Seq<SpanV> {
    match row {
        CharRow::Gone(c) => if show_gone {
            seq![SpanV { style: Style::Red, text: seq![c] }]
        } else {
            Seq::empty()
        },
        CharRow::Added(c) => if show_added {
            seq![SpanV { style: Style::Green, text: seq![c] }]
        } else {
            Seq::empty()
        },
        CharRow::Same(l, _) => seq![SpanV { style: Style::Plain, text: seq![l] }],
    }
}

/// The spans of all records of a character alignment, in order.
pub open spec fn chars_spans(rows: Seq<CharRow>, show_gone: bool, show_added: bool) -> Seq<SpanV>
    decreases rows.len(),
{
    if rows.len() == 0 {
        Seq::empty()
    } else {
        char_spans(rows[0], show_gone, show_added) + chars_spans(
            rows.drop_first(),
            show_gone,
            show_added,
        )
    }
}

/// The removal half of a mixed change: a `-` marker, then the removed
/// line's own characters highlighted and the matched ones plain.
pub open spec fn minus_line(rows: Seq<CharRow>) -> Seq<SpanV> {
    seq![SpanV { style: Style::Red, text: seq!['-'] }] + chars_spans(rows, true, false)
}

/// The addition half of a mixed change: a `+` marker, then the added
/// line's own characters highlighted and the matched ones plain.
pub open spec fn plus_line(rows: Seq<CharRow>) -> Seq<SpanV> {
    seq![SpanV { style: Style::Green, text: seq!['+'] }] + chars_spans(rows, false, true)
}

/// A pure in-place change as a single line: a `~` marker, then both sides'
/// own characters highlighted and the matched ones plain.
pub open spec fn tilde_line(rows: Seq<CharRow>) -> Seq<SpanV> {
    seq![SpanV { style: Style::Yellow, text: seq!['~'] }] + chars_spans(rows, true, true)
}

/// Splitting a character alignment splits its spans.
pub proof fn lemma_chars_spans_append(a: Seq<CharRow>, b: Seq<CharRow>, sg: bool, sa: bool)
    ensures
        chars_spans(a + b, sg, sa) == chars_spans(a, sg, sa) + chars_spans(b, sg, sa),
    decreases a.len(),
{
    if a.len() == 0 {
        assert(a + b =~~= b);
        assert(chars_spans(a, sg, sa) + chars_spans(b, sg, sa) =~~= chars_spans(b, sg, sa));
    } else {
        assert((a + b).drop_first() =~~= a.drop_first() + b);
        lemma_chars_spans_append(a.drop_first(), b, sg, sa);
        assert(chars_spans(a + b, sg, sa) =~~= chars_spans(a, sg, sa) + chars_spans(b, sg, sa));
    }
}

/// A single-record character alignment contributes exactly its record's
/// spans.
pub proof fn lemma_chars_spans_singleton(x: CharRow, sg: bool, sa: bool)
    ensures
        chars_spans(seq![x], sg, sa) == char_spans(x, sg, sa),
{
    reveal_with_fuel(chars_spans, 2);
    let s = seq![x];
    assert(s.drop_first() =~~= Seq::<CharRow>::empty());
    assert(chars_spans(s.drop_first(), sg, sa) =~~= Seq::<SpanV>::empty());
    assert(chars_spans(s, sg, sa) =~~= char_spans(x, sg, sa));
}

/// Builds one styled span.
pub fn make_span(style: Style, text: Vec<char>) -> (s: Span)
    ensures
        s@ == (SpanV { style, text: text@ }),
{
    Span { style, text }
}

/// Builds the span line for one half (or the single-line form) of a change
/// pair: the given marker, then the characters the line keeps.
pub fn build_change_line(
    marker: char,
    marker_style: Style,
    rows: &Vec<CharRow>,
    show_gone: bool,
    show_added: bool,
) -> (out: Vec<Span>)
    ensures
        out.deep_view() == seq![SpanV { style: marker_style, text: seq![marker] }] + chars_spans(
            rows@,
            show_gone,
            show_added,
        ),
{
    let mut out: Vec<Span> = Vec::new();
    let mut head: Vec<char> = Vec::new();
    head.push(marker);
    out.push(make_span(marker_style, head));
    let ghost lead = seq![SpanV { style: marker_style, text: seq![marker] }];
    assert(out.deep_view() =~~= lead + chars_spans(rows@.take(0), show_gone, show_added));
    let mut i: usize = 0;
    while i < rows.len()
        invariant
            i <= rows.len(),
            out.deep_view() == lead + chars_spans(rows@.take(i as int), show_gone, show_added),
        decreases rows.len() - i,
    {
        let ghost pre = out.deep_view();
        let row = rows[i];
        match row {
            CharRow::Gone(c) => {
                if show_gone {
                    let mut t: Vec<char> = Vec::new();
                    t.push(c);
                    out.push(make_span(Style::Red, t));
                }
            },
            CharRow::Added(c) => {
                if show_added {
                    let mut t: Vec<char> = Vec::new();
                    t.push(c);
                    out.push(make_span(Style::Green, t));
                }
            },
            CharRow::Same(l, _) => {
                let mut t: Vec<char> = Vec::new();
                t.push(l);
                out.push(make_span(Style::Plain, t));
            },
        }
        proof {
            assert(rows@.take(i + 1) =~~= rows@.take(i as int) + seq![rows@[i as int]]);
            lemma_chars_spans_append(rows@.take(i as int), seq![rows@[i as int]], show_gone,
                show_added);
            lemma_chars_spans_singleton(rows@[i as int], show_gone, show_added);
            assert(out.deep_view() =~~= pre + char_spans(rows@[i as int], show_gone, show_added));
            assert(out.deep_view() =~~= lead + chars_spans(rows@.take(i + 1), show_gone,
                show_added));
        }
        i += 1;
    }
    proof {
        assert(rows@.take(rows@.len() as int) =~~= rows@);
    }
    out
}

/// Builds a whole-line span in one style, with a leading marker character.
pub fn build_marked_line(marker: char, style: Style, line: &Vec<char>) -> (out: Vec<Span>)
    ensures
        out.deep_view() == seq![SpanV { style, text: seq![marker] + line@ }],
{
    let mut t: Vec<char> = Vec::new();
    t.push(marker);
    let mut rest = clone_chars(line);
    t.append(&mut rest);
    let mut out: Vec<Span> = Vec::new();
    assert(t@ =~~= seq![marker] + line@);
    out.push(make_span(style, t));
    proof {
        assert(out.deep_view() =~~= seq![SpanV { style, text: seq![marker] + line@ }]);
    }
    out
}

/// Builds a context line: one leading space, then the line, unstyled.
pub fn build_ctx_line(line: &Vec<char>) -> (out: Vec<Span>)
    ensures
        out.deep_view() == ctx_line(line@),
{
    build_marked_line(' ', Style::Plain, line)
}

/// Copies a line of characters.
pub fn clone_chars(v: &Vec<char>) -> (r: Vec<char>)
    ensures
        r@ == v@,
{
    let mut r: Vec<char> = Vec::new();
    let mut i: usize = 0;
    while i < v.len()
        invariant
            i <= v.len(),
            r@ == v@.take(i as int),
        decreases v.len() - i,
    {
        r.push(v[i]);
        proof {
            assert(v@.take(i + 1) =~~= v@.take(i as int).push(v@[i as int]));
        }
        i += 1;
    }
    proof {
        assert(v@.take(v@.len() as int) =~~= v@);
    }
    r
}

} // verus!
