//! Properties of the rendering policy, stated and proved once and for all:
//! what the skip summary says for each run length, how runs at the context
//! boundary are rendered, and that identical inputs produce no styled line.

use crate::printer::{
    ctx_lines, init_state, interior_flush, output_of, run_from, step, summary, PrinterV,
};
use crate::rows::{all_same, LineRowV};
use crate::spans::{ctx_line, skip_msg_line, skip_msg_text, SpanV, Style};
use crate::CONTEXT;
use vstd::prelude::*;

verus! {

/// Every span of every line is unstyled.
pub open spec fn lines_all_plain(out: Seq<Seq<SpanV>>) -> bool {
    forall|i: int, j: int|
        0 <= i < out.len() && 0 <= j < out[i].len() ==> (#[trigger] out[i][j]).style == Style::Plain
}

/// Context lines are unstyled.
pub proof fn lemma_ctx_lines_plain(ls: Seq<Seq<char>>)
    ensures
        lines_all_plain(ctx_lines(ls)),
{
    assert forall|i: int, j: int|
        0 <= i < ctx_lines(ls).len() && 0 <= j < ctx_lines(ls)[i].len() implies (#[trigger] ctx_lines(
        ls,
    )[i][j]).style == Style::Plain by {
        assert(ctx_lines(ls)[i] == ctx_line(ls[i]));
    }
}

/// Skip summaries are unstyled.
pub proof fn lemma_summary_plain(seg: Seq<Seq<char>>)
    ensures
        lines_all_plain(summary(seg)),
{
    assert forall|i: int, j: int|
        0 <= i < summary(seg).len() && 0 <= j < summary(seg)[i].len() implies (#[trigger] summary(
        seg,
    )[i][j]).style == Style::Plain by {
        if seg.len() == 1 {
            assert(summary(seg)[i] == ctx_line(seg[0]));
        } else {
            assert(summary(seg)[i] == skip_msg_line(seg.len()));
        }
    }
}

/// Joining unstyled output keeps it unstyled.
pub proof fn lemma_append_plain(a: Seq<Seq<SpanV>>, b: Seq<Seq<SpanV>>)
    requires
        lines_all_plain(a),
        lines_all_plain(b),
    ensures
        lines_all_plain(a + b),
{
    assert forall|i: int, j: int|
        0 <= i < (a + b).len() && 0 <= j < (a + b)[i].len() implies (#[trigger] (a + b)[i][j]).style
        == Style::Plain by {
        if i < a.len() {
            assert((a + b)[i] == a[i]);
        } else {
            assert((a + b)[i] == b[i - a.len()]);
        }
    }
}

/// The interior flush of any run — context, summary, context — is wholly
/// unstyled: unchanged lines are never rendered as removals or additions.
pub proof fn lemma_interior_flush_plain(buf: Seq<Seq<char>>)
    ensures
        lines_all_plain(interior_flush(buf)),
{
    let n = buf.len() as int;
    if n <= 2 * CONTEXT as int {
        lemma_ctx_lines_plain(buf);
    } else {
        lemma_ctx_lines_plain(buf.take(CONTEXT as int));
        lemma_summary_plain(buf.subrange(CONTEXT as int, n - CONTEXT as int));
        lemma_ctx_lines_plain(buf.skip(n - CONTEXT as int));
        lemma_append_plain(
            ctx_lines(buf.take(CONTEXT as int)),
            summary(buf.subrange(CONTEXT as int, n - CONTEXT as int)),
        );
        lemma_append_plain(
            ctx_lines(buf.take(CONTEXT as int)) + summary(
                buf.subrange(CONTEXT as int, n - CONTEXT as int),
            ),
            ctx_lines(buf.skip(n - CONTEXT as int)),
        );
    }
}

/// Feeding the printer only matched records just extends its buffered run:
/// nothing is printed and nothing is held back.
pub proof fn lemma_run_all_same(st: PrinterV, ls: Seq<Seq<char>>)
    requires
        st.pending is None,
    ensures
        run_from(st, all_same(ls)) == (PrinterV { buffered: st.buffered + ls, ..st }),
    decreases ls.len(),
{
    if ls.len() == 0 {
        assert(all_same(ls).len() == 0);
        assert(st.buffered + ls =~= st.buffered);
        assert(run_from(st, all_same(ls)) =~~= (PrinterV { buffered: st.buffered + ls, ..st }));
    } else {
        let rows = all_same(ls);
        assert(rows[0] == LineRowV::Same(ls[0], ls[0]));
        let st1 = step(st, rows[0]);
        assert(st1 =~~= (PrinterV { buffered: st.buffered.push(ls[0]), ..st }));
        assert(rows.drop_first() =~~= all_same(ls.drop_first()));
        lemma_run_all_same(st1, ls.drop_first());
        assert(st.buffered.push(ls[0]) + ls.drop_first() =~= st.buffered + ls);
        assert(run_from(st, rows) =~~= (PrinterV { buffered: st.buffered + ls, ..st }));
    }
}

/// When the two inputs align as identical — every record matched — the
/// rendered output holds no removal-, addition-, or change-styled span:
/// only context and possibly a skip summary, and the trailing blank line.
pub proof fn lemma_identical_output_plain(ls: Seq<Seq<char>>)
    ensures
        lines_all_plain(output_of(all_same(ls))),
{
    lemma_run_all_same(init_state(), ls);
    let end = run_from(init_state(), all_same(ls));
    assert(end =~~= (PrinterV {
        started: false,
        buffered: Seq::<Seq<char>>::empty() + ls,
        pending: None,
        out: Seq::<Seq<SpanV>>::empty(),
    }));
    assert(Seq::<Seq<char>>::empty() + ls =~= ls);
    lemma_interior_flush_plain(ls);
    let blank = seq![Seq::<SpanV>::empty()];
    assert(lines_all_plain(blank));
    lemma_append_plain(interior_flush(ls), blank);
    assert(Seq::<Seq<SpanV>>::empty() + (interior_flush(ls) + blank) =~= interior_flush(ls)
        + blank);
    assert(output_of(all_same(ls)) =~~= interior_flush(ls) + blank);
}

/// The skip summary's exact text for each omitted-run length: an empty run
/// prints nothing; a run of one prints that line itself, as context, with
/// no counting message; a longer run prints one message holding the
/// decimal count.
pub proof fn lemma_summary_cases(seg: Seq<Seq<char>>)
    ensures
        seg.len() == 0 ==> summary(seg) == Seq::<Seq<SpanV>>::empty(),
        seg.len() == 1 ==> summary(seg) == seq![ctx_line(seg[0])],
        seg.len() > 1 ==> summary(seg) == seq![skip_msg_line(seg.len())] && skip_msg_line(
            seg.len(),
        )[0].text == "... "@ + crate::model::dec_of(seg.len()) + " lines skipped ..."@,
{
}

/// A run of exactly `CONTEXT * 2` unchanged lines between two changes is
/// printed in full, line for line, with no skip message.
pub proof fn lemma_boundary_run_printed_full(buf: Seq<Seq<char>>)
    requires
        buf.len() == 2 * CONTEXT,
    ensures
        interior_flush(buf) == ctx_lines(buf),
        forall|i: int| 0 <= i < buf.len() ==> #[trigger] interior_flush(buf)[i] == ctx_line(buf[i]),
{
    assert forall|i: int| 0 <= i < buf.len() implies #[trigger] interior_flush(buf)[i] == ctx_line(
        buf[i],
    ) by {
        assert(interior_flush(buf)[i] == ctx_lines(buf)[i]);
    }
}

/// A run of `CONTEXT * 2 + 1` unchanged lines between two changes is also
/// printed in full: the first `CONTEXT` lines as leading context, then the
/// single omitted line itself in place of a counting message, then the
/// last `CONTEXT` lines as trailing context.
pub proof fn lemma_run_of_five_printed_full(buf: Seq<Seq<char>>)
    requires
        buf.len() == 2 * CONTEXT + 1,
    ensures
        interior_flush(buf) == ctx_lines(buf.take(CONTEXT as int)) + seq![
            ctx_line(buf[CONTEXT as int]),
        ] + ctx_lines(buf.skip(CONTEXT as int + 1)),
        interior_flush(buf) == ctx_lines(buf),
{
    let n = buf.len() as int;
    let mid = buf.subrange(CONTEXT as int, n - CONTEXT as int);
    assert(mid.len() == 1);
    assert(mid[0] == buf[CONTEXT as int]);
    assert(summary(mid) =~~= seq![ctx_line(buf[CONTEXT as int])]);
    assert(buf.skip(n - CONTEXT as int) =~~= buf.skip(CONTEXT as int + 1));
    assert(interior_flush(buf) =~~= ctx_lines(buf.take(CONTEXT as int)) + seq![
        ctx_line(buf[CONTEXT as int]),
    ] + ctx_lines(buf.skip(CONTEXT as int + 1)));
    assert forall|i: int| 0 <= i < n implies #[trigger] interior_flush(buf)[i] == ctx_lines(buf)[i]
        by {
        assert(ctx_lines(buf)[i] == ctx_line(buf[i]));
        if i < CONTEXT as int {
            assert(ctx_lines(buf.take(CONTEXT as int))[i] == ctx_line(buf[i]));
        } else if i == CONTEXT as int {
        } else {
            assert(ctx_lines(buf.skip(CONTEXT as int + 1))[i - CONTEXT as int - 1] == ctx_line(
                buf[i],
            ));
        }
    }
    assert(interior_flush(buf) =~~= ctx_lines(buf));
}

} // verus!
