//! The entry point: normalizes two raw byte buffers into displayable text,
//! drives one printer session over their line-level alignment, and hands
//! the styled result to the terminal.

use crate::laws::{lemma_identical_output_plain, lines_all_plain};
use crate::model::{norm_text, normalize_text, str_chars};
use crate::outside::{
    chars_string, diff_lines, emit_err, line_diff_of, lossy_decode, paint_green, paint_red,
    paint_yellow, push_str_onto, utf8_lossy_of,
};
use crate::printer::{output_of, DiffState};
use crate::rows::{all_same, LineRow, LineRowV};
use crate::spans::{make_span, Span, SpanV, Style};
use vstd::prelude::*;
use vstd::string::StringSliceAdditionalSpecFns;
use vstd::utf8::encode_utf8;

verus! {

/// Whether either buffer failed to round-trip through UTF-8 decoding, so
/// that the diff must carry an imprecision warning.
pub open spec fn warn_needed(e: Seq<u8>, a: Seq<u8>) -> bool {
    encode_utf8(utf8_lossy_of(e)) != e || encode_utf8(utf8_lossy_of(a)) != a
}

/// The warning line shown when an input held invalid UTF-8.
pub open spec fn warn_line() -> Seq<SpanV> {
    seq![
        SpanV {
            style: Style::Red,
            text: "Non-UTF8 characters in output, diff may be imprecise."@,
        },
    ]
}

/// The line-level alignment the diff is rendered from: both buffers
/// decoded, whitespace-normalized, and aligned line by line.
pub open spec fn diff_rows(e: Seq<u8>, a: Seq<u8>) -> Seq<LineRowV> {
    line_diff_of(norm_text(utf8_lossy_of(e)), norm_text(utf8_lossy_of(a)))
}

/// The whole rendered diff for two byte buffers: the warning line if one
/// is owed, then one printer session's output over the alignment.
pub open spec fn rendered_diff(e: Seq<u8>, a: Seq<u8>) -> Seq<Seq<SpanV>> {
    if warn_needed(e, a) {
        seq![warn_line()] + output_of(diff_rows(e, a))
    } else {
        output_of(diff_rows(e, a))
    }
}

/// The number of warning lines ahead of the printer's own output.
pub open spec fn warn_count(e: Seq<u8>, a: Seq<u8>) -> int {
    if warn_needed(e, a) {
        1
    } else {
        0
    }
}

/// Whether two byte slices hold the same bytes.
pub fn bytes_eq(a: &[u8], b: &[u8]) -> (r: bool)
    ensures
        r == (a@ == b@),
{
    if a.len() != b.len() {
        return false;
    }
    let mut i: usize = 0;
    while i < a.len()
        invariant
            i <= a.len(),
            a@.len() == b@.len(),
            forall|j: int| 0 <= j < i ==> a@[j] == b@[j],
        decreases a.len() - i,
    {
        if a[i] != b[i] {
            return false;
        }
        i += 1;
    }
    proof {
        assert(a@ =~= b@);
    }
    true
}

/// Runs one printer session over an alignment, in record order.
pub fn run_rows(rows: Vec<LineRow>) -> (out: Vec<Vec<Span>>)
    ensures
        out.deep_view() == output_of(rows.deep_view()),
{
    let ghost all = rows.deep_view();
    let mut rows = rows;
    let mut st = DiffState::new();
    let ghost mut done: Seq<LineRowV> = Seq::empty();
    proof {
        assert(done + rows.deep_view() =~~= all);
    }
    while rows.len() > 0
        invariant
            st@ == crate::printer::run_from(crate::printer::init_state(), done),
            done + rows.deep_view() == all,
        decreases rows.len(),
    {
        let ghost pre = rows.deep_view();
        let row = rows.remove(0);
        let ghost rv = row@;
        st.process(row);
        proof {
            assert(rows.deep_view() =~~= pre.drop_first());
            assert(rv == pre[0]);
            crate::printer::lemma_run_from_snoc(crate::printer::init_state(), done, rv);
            done = done.push(rv);
            assert(done + rows.deep_view() =~~= all);
        }
    }
    proof {
        assert(done =~~= all);
    }
    st.finish()
}

/// Renders the diff between two byte buffers as lines of styled spans.
///
/// The result is exactly the specified rendering, so two calls on the same
/// buffers yield the same output.  When the buffers are equal, no span
/// after the possible encoding warning carries a removal, addition, or
/// change style: only context, a possible skip summary, and the trailing
/// blank line.
pub fn render_diff(expected: &[u8], actual: &[u8]) -> (out: Vec<Vec<Span>>)
    ensures
        out.deep_view() == rendered_diff(expected@, actual@),
        expected@ == actual@ ==> forall|i: int, j: int|
            warn_count(expected@, actual@) <= i < out.deep_view().len() && 0 <= j
                < out.deep_view()[i].len() ==> (#[trigger] out.deep_view()[i][j]).style
                == Style::Plain,
{
    let es = lossy_decode(expected);
    let ax = lossy_decode(actual);
    let e_ok = bytes_eq(es.as_str().as_bytes(), expected);
    let a_ok = bytes_eq(ax.as_str().as_bytes(), actual);
    let mut out: Vec<Vec<Span>> = Vec::new();
    if !e_ok || !a_ok {
        let text = str_chars("Non-UTF8 characters in output, diff may be imprecise.");
        let mut w: Vec<Span> = Vec::new();
        w.push(make_span(Style::Red, text));
        out.push(w);
        proof {
            assert(out.deep_view() =~~= seq![warn_line()]);
        }
    }
    let ghost head = out.deep_view();
    let en = normalize_text(&str_chars(es.as_str()));
    let an = normalize_text(&str_chars(ax.as_str()));
    let ens = chars_string(&en);
    let ans = chars_string(&an);
    let rows = diff_lines(ens.as_str(), ans.as_str());
    let ghost rowsv = rows.deep_view();
    proof {
        assert(rowsv == diff_rows(expected@, actual@));
    }
    let mut body = run_rows(rows);
    out.append(&mut body);
    proof {
        assert(out.deep_view() =~~= head + output_of(rowsv));
        assert(out.deep_view() =~~= rendered_diff(expected@, actual@));
        if expected@ == actual@ {
            assert(ens@ == ans@);
            assert(rowsv == all_same(crate::model::aligned_lines(ens@)));
            lemma_identical_output_plain(crate::model::aligned_lines(ens@));
            assert(lines_all_plain(output_of(rowsv)));
            assert forall|i: int, j: int|
                warn_count(expected@, actual@) <= i < out.deep_view().len() && 0 <= j
                    < out.deep_view()[i].len() implies (#[trigger] out.deep_view()[i][j]).style
                == Style::Plain by {
                let k = i - head.len();
                assert(out.deep_view()[i] == output_of(rowsv)[k]);
            }
        }
    }
    out
}

/// The concatenation of a sequence of text segments, in order.
pub open spec fn concat_texts(segs: Seq<Seq<char>>) -> Seq<char>
    decreases segs.len(),
{
    if segs.len() == 0 {
        Seq::empty()
    } else {
        segs[0] + concat_texts(segs.drop_first())
    }
}

/// Concatenating one more segment appends it.
pub proof fn lemma_concat_snoc(segs: Seq<Seq<char>>, x: Seq<char>)
    ensures
        concat_texts(segs.push(x)) == concat_texts(segs) + x,
    decreases segs.len(),
{
    if segs.len() == 0 {
        assert(segs.push(x)[0] == x);
        assert(segs.push(x).drop_first() =~= Seq::<Seq<char>>::empty());
        assert(concat_texts(Seq::<Seq<char>>::empty()) == Seq::<char>::empty());
        assert(concat_texts(segs.push(x)) == x + Seq::<char>::empty());
        assert(concat_texts(segs.push(x)) =~= concat_texts(segs) + x);
    } else {
        assert(segs.push(x)[0] == segs[0]);
        assert(segs.push(x).drop_first() =~= segs.drop_first().push(x));
        lemma_concat_snoc(segs.drop_first(), x);
        assert(concat_texts(segs.push(x)) =~= concat_texts(segs) + x);
    }
}

/// Whether `segs` is a painting of `spans`: one text segment per span,
/// where an unstyled span's text passes through verbatim.  What the styling
/// layer makes of a styled span depends on the terminal and environment,
/// so those segments are unconstrained.
pub open spec fn is_painting(spans: Seq<SpanV>, segs: Seq<Seq<char>>) -> bool {
    &&& segs.len() == spans.len()
    &&& forall|j: int|
        0 <= j < spans.len() && (#[trigger] spans[j]).style == Style::Plain ==> segs[j]
            == spans[j].text
}

/// Whether `s` is one rendered line turned into terminal text: a painting
/// of its spans, in order, terminated by a newline.
pub open spec fn painted_line_ok(spans: Seq<SpanV>, s: Seq<char>) -> bool {
    exists|segs: Seq<Seq<char>>| is_painting(spans, segs) && s == concat_texts(segs) + seq!['\n']
}

/// Whether `s` is a whole rendered diff turned into terminal text: one
/// newline-terminated painted segment per rendered line, in order.
pub open spec fn painted_diff_ok(lines: Seq<Seq<SpanV>>, s: Seq<char>) -> bool {
    exists|parts: Seq<Seq<char>>|
        {
            &&& parts.len() == lines.len()
            &&& s == concat_texts(parts)
            &&& forall|i: int| 0 <= i < lines.len() ==> painted_line_ok(lines[i], #[trigger] parts[i])
        }
}

/// One line of spans turned into terminal text through the styling layer:
/// each span painted in order, then a newline.
fn paint_line(line: &Vec<Span>) -> (s: String)
    ensures
        painted_line_ok(line.deep_view(), s@),
        s@.len() > 0,
        s@.last() == '\n',
{
    let mut s = String::new();
    let ghost mut segs: Seq<Seq<char>> = Seq::empty();
    let mut j: usize = 0;
    while j < line.len()
        invariant
            j <= line.len(),
            segs.len() == j,
            s@ == concat_texts(segs),
            forall|k: int|
                0 <= k < j && (#[trigger] line.deep_view()[k]).style == Style::Plain ==> segs[k]
                    == line.deep_view()[k].text,
        decreases line.len() - j,
    {
        let text = chars_string(&line[j].text);
        match line[j].style {
            Style::Plain => {
                push_str_onto(&mut s, text.as_str());
                proof {
                    lemma_concat_snoc(segs, text@);
                    segs = segs.push(text@);
                }
            },
            Style::Red => {
                let painted = paint_red(text.as_str());
                push_str_onto(&mut s, painted.as_str());
                proof {
                    lemma_concat_snoc(segs, painted@);
                    segs = segs.push(painted@);
                }
            },
            Style::Green => {
                let painted = paint_green(text.as_str());
                push_str_onto(&mut s, painted.as_str());
                proof {
                    lemma_concat_snoc(segs, painted@);
                    segs = segs.push(painted@);
                }
            },
            Style::Yellow => {
                let painted = paint_yellow(text.as_str());
                push_str_onto(&mut s, painted.as_str());
                proof {
                    lemma_concat_snoc(segs, painted@);
                    segs = segs.push(painted@);
                }
            },
        }
        j += 1;
    }
    push_str_onto(&mut s, "\n");
    proof {
        reveal_strlit("\n");
        assert("\n"@ =~= seq!['\n']);
        assert(is_painting(line.deep_view(), segs));
        assert(s@ =~= concat_texts(segs) + seq!['\n']);
        assert((concat_texts(segs) + seq!['\n']).last() == '\n');
    }
    s
}

/// The whole diff as one terminal-ready string: the rendering pinned by
/// [`render_diff`]'s contract, with each line painted in order and
/// newline-terminated, and every unstyled span's text carried through
/// verbatim.  What the styling layer emits for a styled span depends on
/// the terminal and environment, so those bytes are the only part left
/// open.
pub fn format_diff(expected: &[u8], actual: &[u8]) -> (s: String)
    ensures
        painted_diff_ok(rendered_diff(expected@, actual@), s@),
        s@.len() > 0,
        s@.last() == '\n',
{
    let lines = render_diff(expected, actual);
    let mut s = String::new();
    let ghost mut parts: Seq<Seq<char>> = Seq::empty();
    let mut i: usize = 0;
    while i < lines.len()
        invariant
            i <= lines.len(),
            lines.deep_view() == rendered_diff(expected@, actual@),
            parts.len() == i,
            s@ == concat_texts(parts),
            forall|k: int|
                0 <= k < i ==> painted_line_ok(lines.deep_view()[k], #[trigger] parts[k]),
            i > 0 ==> s@.len() > 0 && s@.last() == '\n',
        decreases lines.len() - i,
    {
        let ghost pre = s@;
        let painted = paint_line(&lines[i]);
        push_str_onto(&mut s, painted.as_str());
        proof {
            lemma_concat_snoc(parts, painted@);
            parts = parts.push(painted@);
            assert(lines.deep_view()[i as int] == lines[i as int].deep_view());
            assert((pre + painted@).last() == painted@.last());
        }
        i += 1;
    }
    proof {
        assert(rendered_diff(expected@, actual@).len() >= 1);
        assert(painted_diff_ok(rendered_diff(expected@, actual@), s@));
    }
    s
}

/// Renders the diff between the expected and actual output and writes it,
/// colorized, to the diagnostic stream.
pub fn print_diff(expected: &[u8], actual: &[u8]) {
    let s = format_diff(expected, actual);
    emit_err(s.as_str());
}

} // verus!
