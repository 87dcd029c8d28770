//! The diff printer: consumes a line-level alignment record by record,
//! buffers runs of unchanged lines, collapses long runs into a skip summary
//! with context, and renders removed/added line pairs through the character
//! aligner.  The whole policy is stated as a specification-level state
//! machine, and the executable printer is proved to follow it step by step.

use crate::model::{dec_chars, str_chars};
use crate::outside::{char_diff_of, chars_string, diff_chars};
use crate::rows::{has_left_only, has_right_only, is_mixed, CharRow, LineRow, LineRowV};
use crate::spans::{
    added_line, build_change_line, build_ctx_line, build_marked_line, ctx_line, make_span,
    minus_line, plus_line, removed_line, skip_msg_line, tilde_line, Span, SpanV, Style,
};
use crate::CONTEXT;
use vstd::prelude::*;

verus! {

/// The printer's state: whether a change has been shown yet, the run of
/// unchanged lines buffered since the last change, the one removed line
/// held back to pair with a following added line, and the output produced
/// so far.
#[verifier::ext_equal]
pub ghost struct PrinterV {
    pub started: bool,
    pub buffered: Seq<Seq<char>>,
    pub pending: Option<Seq<char>>,
    pub out: Seq<Seq<SpanV>>,
}

/// The state of a fresh diff session.
pub open spec fn init_state() -> PrinterV {
    PrinterV { started: false, buffered: Seq::empty(), pending: None, out: Seq::empty() }
}

/// Context lines for a run of unchanged lines.
pub open spec fn ctx_lines(ls: Seq<Seq<char>>) -> Seq<Seq<SpanV>> {
    ls.map_values(|l: Seq<char>| ctx_line(l))
}

/// The skip summary for an omitted run: nothing for an empty run, the
/// single omitted line itself for a run of one (a count message would be no
/// shorter), and a counting message for a longer run.
pub open spec fn summary(seg: Seq<Seq<char>>) -> Seq<Seq<SpanV>> {
    if seg.len() == 0 {
        Seq::empty()
    } else if seg.len() == 1 {
        seq![ctx_line(seg[0])]
    } else {
        seq![skip_msg_line(seg.len())]
    }
}

/// Where the first flush cuts the buffered run: everything before the last
/// `CONTEXT` lines is summarized.
pub open spec fn first_cut_spec(buf: Seq<Seq<char>>) -> int {
    if buf.len() as int >= CONTEXT as int {
        buf.len() as int - CONTEXT as int
    } else {
        0
    }
}

/// The rendering of the buffered run before the very first change: there is
/// nothing earlier to show leading context for, so everything but the last
/// `CONTEXT` lines is summarized, then those trailing context lines follow.
pub open spec fn first_flush(buf: Seq<Seq<char>>) -> Seq<Seq<SpanV>> {
    summary(buf.take(first_cut_spec(buf))) + ctx_lines(buf.skip(first_cut_spec(buf)))
}

/// The rendering of a buffered run between two changes, and of the final
/// run: a run of `CONTEXT * 2` or fewer lines is printed in full (a summary
/// would cost more lines than it saves); a longer run keeps `CONTEXT` lines
/// of context on each side around a summary of the rest.
pub open spec fn interior_flush(buf: Seq<Seq<char>>) -> Seq<Seq<SpanV>> {
    let n = buf.len() as int;
    if n <= 2 * CONTEXT as int {
        ctx_lines(buf)
    } else {
        ctx_lines(buf.take(CONTEXT as int)) + summary(
            buf.subrange(CONTEXT as int, n - CONTEXT as int),
        ) + ctx_lines(buf.skip(n - CONTEXT as int))
    }
}

/// Flushes the buffered run because a change is about to be printed.
pub open spec fn flush_skip(st: PrinterV) -> PrinterV {
    if !st.started {
        PrinterV {
            started: true,
            buffered: Seq::empty(),
            pending: st.pending,
            out: st.out + first_flush(st.buffered),
        }
    } else {
        PrinterV { buffered: Seq::empty(), out: st.out + interior_flush(st.buffered), ..st }
    }
}

/// Flushes the held-back removed line, which found nothing to pair with.
pub open spec fn flush_pending(st: PrinterV) -> PrinterV {
    match st.pending {
        Some(l) => PrinterV { pending: None, out: st.out + seq![removed_line(l)], ..st },
        None => st,
    }
}

/// One step of the printer on one alignment record.
pub open spec fn step(st: PrinterV, row: LineRowV) -> PrinterV {
    match row {
        LineRowV::Gone(l) => {
            let s1 = flush_pending(flush_skip(st));
            PrinterV { pending: Some(l), ..s1 }
        },
        LineRowV::Same(l, _) => {
            let s1 = flush_pending(st);
            PrinterV { buffered: s1.buffered.push(l), ..s1 }
        },
        LineRowV::Added(r) => {
            match st.pending {
                Some(l) => {
                    let cs = char_diff_of(l, r);
                    let rendered = if is_mixed(cs) {
                        seq![minus_line(cs), plus_line(cs)]
                    } else {
                        seq![tilde_line(cs)]
                    };
                    PrinterV { pending: None, out: st.out + rendered, ..st }
                },
                None => {
                    let s1 = flush_skip(st);
                    PrinterV { out: s1.out + seq![added_line(r)], ..s1 }
                },
            }
        },
    }
}

/// The output the printer owes at end of stream: the held-back removed line
/// if any, the final buffered run under the interior policy, and a trailing
/// blank line separating this diff from later output.
pub open spec fn finish_out(st: PrinterV) -> Seq<Seq<SpanV>> {
    let s1 = flush_pending(st);
    s1.out + interior_flush(s1.buffered) + seq![Seq::<SpanV>::empty()]
}

/// The printer's state after consuming `rows`, starting from `st`.
pub open spec fn run_from(st: PrinterV, rows: Seq<LineRowV>) -> PrinterV
    decreases rows.len(),
{
    if rows.len() == 0 {
        st
    } else {
        run_from(step(st, rows[0]), rows.drop_first())
    }
}

/// The whole output of one diff session over an alignment.
pub open spec fn output_of(rows: Seq<LineRowV>) -> Seq<Seq<SpanV>> {
    finish_out(run_from(init_state(), rows))
}

/// Consuming one more record is one more step.
pub proof fn lemma_run_from_snoc(st: PrinterV, rows: Seq<LineRowV>, x: LineRowV)
    ensures
        run_from(st, rows.push(x)) == step(run_from(st, rows), x),
    decreases rows.len(),
{
    if rows.len() == 0 {
        assert(rows.push(x)[0] == x);
        assert(rows.push(x).drop_first() =~= Seq::<LineRowV>::empty());
        assert(run_from(st, rows.push(x)) == run_from(step(st, x), Seq::<LineRowV>::empty()));
        assert(run_from(step(st, x), Seq::<LineRowV>::empty()) == step(st, x));
        assert(run_from(st, rows) == st);
    } else {
        assert(rows.push(x)[0] == rows[0]);
        assert(rows.push(x).drop_first() =~= rows.drop_first().push(x));
        assert(run_from(st, rows.push(x)) == run_from(
            step(st, rows[0]),
            rows.drop_first().push(x),
        ));
        lemma_run_from_snoc(step(st, rows[0]), rows.drop_first(), x);
        assert(run_from(st, rows) == run_from(step(st, rows[0]), rows.drop_first()));
    }
}

/// Builds the context lines for `buf[lo..hi]`.
pub fn ctx_range(buf: &Vec<Vec<char>>, lo: usize, hi: usize) -> (out: Vec<Vec<Span>>)
    requires
        lo <= hi <= buf.len(),
    ensures
        out.deep_view() == ctx_lines(buf.deep_view().subrange(lo as int, hi as int)),
{
    let mut out: Vec<Vec<Span>> = Vec::new();
    let mut i: usize = lo;
    assert(out.deep_view() =~~= ctx_lines(buf.deep_view().subrange(lo as int, lo as int)));
    while i < hi
        invariant
            lo <= i <= hi <= buf.len(),
            out.deep_view() == ctx_lines(buf.deep_view().subrange(lo as int, i as int)),
        decreases hi - i,
    {
        let ghost pre = out.deep_view();
        let line = build_ctx_line(&buf[i]);
        out.push(line);
        proof {
            let dv = buf.deep_view();
            assert(dv.subrange(lo as int, i + 1) =~~= dv.subrange(lo as int, i as int).push(
                dv[i as int],
            ));
            assert(ctx_lines(dv.subrange(lo as int, i + 1)) =~~= ctx_lines(
                dv.subrange(lo as int, i as int),
            ).push(ctx_line(dv[i as int])));
            assert(out.deep_view() =~~= pre.push(line.deep_view()));
            assert(out.deep_view() =~~= ctx_lines(dv.subrange(lo as int, i + 1)));
        }
        i += 1;
    }
    out
}

/// Builds the skip summary for the omitted run `buf[lo..hi]`.
pub fn summary_lines(buf: &Vec<Vec<char>>, lo: usize, hi: usize) -> (out: Vec<Vec<Span>>)
    requires
        lo <= hi <= buf.len(),
    ensures
        out.deep_view() == summary(buf.deep_view().subrange(lo as int, hi as int)),
{
    let n = hi - lo;
    if n == 0 {
        let out: Vec<Vec<Span>> = Vec::new();
        assert(out.deep_view() =~~= summary(buf.deep_view().subrange(lo as int, hi as int)));
        out
    } else if n == 1 {
        let mut out: Vec<Vec<Span>> = Vec::new();
        let line = build_ctx_line(&buf[lo]);
        out.push(line);
        proof {
            let seg = buf.deep_view().subrange(lo as int, hi as int);
            assert(seg[0] == buf.deep_view()[lo as int]);
            assert(out.deep_view() =~~= summary(seg));
        }
        out
    } else {
        let mut text = str_chars("... ");
        let mut digits = dec_chars(n);
        text.append(&mut digits);
        let mut rest = str_chars(" lines skipped ...");
        text.append(&mut rest);
        let mut msg: Vec<Span> = Vec::new();
        msg.push(make_span(Style::Plain, text));
        let mut out: Vec<Vec<Span>> = Vec::new();
        out.push(msg);
        proof {
            let seg = buf.deep_view().subrange(lo as int, hi as int);
            assert(seg.len() == n);
            assert(out.deep_view()[0] =~~= skip_msg_line(seg.len()));
            assert(out.deep_view() =~~= summary(seg));
        }
        out
    }
}

/// Builds the rendering of a buffered run under the interior policy.
pub fn interior_lines(buf: &Vec<Vec<char>>) -> (out: Vec<Vec<Span>>)
    ensures
        out.deep_view() == interior_flush(buf.deep_view()),
{
    let n = buf.len();
    if n <= 2 * CONTEXT {
        let out = ctx_range(buf, 0, n);
        proof {
            assert(buf.deep_view().subrange(0, n as int) =~~= buf.deep_view());
        }
        out
    } else {
        let mut out = ctx_range(buf, 0, CONTEXT);
        let mut mid = summary_lines(buf, CONTEXT, n - CONTEXT);
        let mut tail = ctx_range(buf, n - CONTEXT, n);
        out.append(&mut mid);
        out.append(&mut tail);
        proof {
            assert(buf.deep_view().subrange(0, CONTEXT as int) =~~= buf.deep_view().take(
                CONTEXT as int,
            ));
            assert(buf.deep_view().subrange(n - CONTEXT as int, n as int) =~~= buf.deep_view().skip(
                n - CONTEXT as int,
            ));
            assert(out.deep_view() =~~= interior_flush(buf.deep_view()));
        }
        out
    }
}

/// Decides whether a removed/added line pair is a mixed rewrite: whether
/// both sides contribute non-whitespace characters of their own.
pub fn pair_is_mixed(rows: &Vec<CharRow>) -> (m: bool)
    ensures
        m == is_mixed(rows@),
{
    let mut seen_l = false;
    let mut seen_r = false;
    let mut i: usize = 0;
    while i < rows.len()
        invariant
            i <= rows.len(),
            seen_l == has_left_only(rows@.take(i as int)),
            seen_r == has_right_only(rows@.take(i as int)),
        decreases rows.len() - i,
    {
        let ghost pre = rows@.take(i as int);
        match rows[i] {
            CharRow::Gone(c) => {
                if !crate::model::white_char(c) {
                    seen_l = true;
                }
            },
            CharRow::Added(c) => {
                if !crate::model::white_char(c) {
                    seen_r = true;
                }
            },
            CharRow::Same(_, _) => {},
        }
        proof {
            let cur = rows@.take(i + 1);
            assert(forall|j: int| 0 <= j < pre.len() ==> cur[j] == pre[j]);
            assert(cur[i as int] == rows@[i as int]);
            if seen_l {
                if has_left_only(pre) {
                    let j = choose|j: int|
                        0 <= j < pre.len() && (#[trigger] pre[j] matches CharRow::Gone(c)
                            && !crate::model::is_white(c));
                    assert(cur[j] == pre[j]);
                    assert(has_left_only(cur));
                } else {
                    assert(cur[i as int] matches CharRow::Gone(c) && !crate::model::is_white(c));
                    assert(has_left_only(cur));
                }
            } else {
                assert(forall|j: int|
                    0 <= j < cur.len() ==> !(#[trigger] cur[j] matches CharRow::Gone(c)
                        && !crate::model::is_white(c))) by {
                    assert(forall|j: int| 0 <= j < pre.len() ==> cur[j] == pre[j]);
                }
                assert(!has_left_only(cur));
            }
            if seen_r {
                if has_right_only(pre) {
                    let j = choose|j: int|
                        0 <= j < pre.len() && (#[trigger] pre[j] matches CharRow::Added(c)
                            && !crate::model::is_white(c));
                    assert(cur[j] == pre[j]);
                    assert(has_right_only(cur));
                } else {
                    assert(cur[i as int] matches CharRow::Added(c) && !crate::model::is_white(c));
                    assert(has_right_only(cur));
                }
            } else {
                assert(forall|j: int|
                    0 <= j < cur.len() ==> !(#[trigger] cur[j] matches CharRow::Added(c)
                        && !crate::model::is_white(c))) by {
                    assert(forall|j: int| 0 <= j < pre.len() ==> cur[j] == pre[j]);
                }
                assert(!has_right_only(cur));
            }
        }
        i += 1;
    }
    proof {
        assert(rows@.take(rows@.len() as int) =~= rows@);
    }
    seen_l && seen_r
}

/// The executable printer state for one diff session.
pub struct DiffState {
    pub started: bool,
    pub buffered: Vec<Vec<char>>,
    pub pending: Option<Vec<char>>,
    pub out: Vec<Vec<Span>>,
}

impl View for DiffState {
    type V = PrinterV;

    open spec fn view(&self) -> PrinterV {
        PrinterV {
            started: self.started,
            buffered: self.buffered.deep_view(),
            pending: self.pending.deep_view(),
            out: self.out.deep_view(),
        }
    }
}

impl DiffState {
    /// A fresh printer for one diff session.
    pub fn new() -> (st: DiffState)
        ensures
            st@ == init_state(),
    {
        let st = DiffState { started: false, buffered: Vec::new(), pending: None, out: Vec::new() };
        proof {
            assert(st@ =~~= init_state());
        }
        st
    }

    /// Renders the buffered run of unchanged lines because a change is
    /// about to be printed, and clears it.
    fn flush_buffer(&mut self)
        ensures
            final(self)@ == flush_skip(old(self)@),
    {
        if !self.started {
            self.started = true;
            let cut = if self.buffered.len() >= CONTEXT {
                self.buffered.len() - CONTEXT
            } else {
                0
            };
            let mut head = summary_lines(&self.buffered, 0, cut);
            let mut tail = ctx_range(&self.buffered, cut, self.buffered.len());
            self.out.append(&mut head);
            self.out.append(&mut tail);
            self.buffered = Vec::new();
            proof {
                let ov = old(self)@;
                assert(ov.buffered.subrange(0, first_cut_spec(ov.buffered)) =~~= ov.buffered.take(
                    first_cut_spec(ov.buffered),
                ));
                assert(ov.buffered.subrange(first_cut_spec(ov.buffered), ov.buffered.len() as int)
                    =~~= ov.buffered.skip(first_cut_spec(ov.buffered)));
                assert(self@ =~~= flush_skip(ov));
            }
        } else {
            let mut body = interior_lines(&self.buffered);
            self.out.append(&mut body);
            self.buffered = Vec::new();
            proof {
                assert(self@ =~~= flush_skip(old(self)@));
            }
        }
    }

    /// Prints the held-back removed line, which found nothing to pair with.
    fn flush_prev(&mut self)
        ensures
            final(self)@ == flush_pending(old(self)@),
    {
        let p = self.pending.take();
        match p {
            Some(l) => {
                let line = build_marked_line('-', Style::Red, &l);
                self.out.push(line);
                proof {
                    assert(self@ =~~= flush_pending(old(self)@));
                }
            },
            None => {
                proof {
                    assert(self@ =~~= flush_pending(old(self)@));
                }
            },
        }
    }

    /// Consumes one alignment record, in input order.
    pub fn process(&mut self, row: LineRow)
        ensures
            final(self)@ == step(old(self)@, row@),
    {
        match row {
            LineRow::Gone(l) => {
                self.flush_buffer();
                self.flush_prev();
                self.pending = Some(l);
                proof {
                    assert(self@ =~~= step(old(self)@, row@));
                }
            },
            LineRow::Same(l, _) => {
                self.flush_prev();
                self.buffered.push(l);
                proof {
                    assert(self@ =~~= step(old(self)@, row@));
                }
            },
            LineRow::Added(r) => {
                let p = self.pending.take();
                match p {
                    Some(l) => {
                        let ghost out0 = self.out.deep_view();
                        let ghost csv = char_diff_of(l@, r@);
                        let ls = chars_string(&l);
                        let rs = chars_string(&r);
                        let cs = diff_chars(ls.as_str(), rs.as_str());
                        proof {
                            assert(cs@ == csv);
                        }
                        if pair_is_mixed(&cs) {
                            let minus = build_change_line('-', Style::Red, &cs, true, false);
                            self.out.push(minus);
                            let plus = build_change_line('+', Style::Green, &cs, false, true);
                            self.out.push(plus);
                            proof {
                                assert(minus.deep_view() =~~= minus_line(csv));
                                assert(plus.deep_view() =~~= plus_line(csv));
                                assert(self.out.deep_view() =~~= out0 + seq![
                                    minus_line(csv),
                                    plus_line(csv),
                                ]);
                            }
                        } else {
                            let tilde = build_change_line('~', Style::Yellow, &cs, true, true);
                            self.out.push(tilde);
                            proof {
                                assert(tilde.deep_view() =~~= tilde_line(csv));
                                assert(self.out.deep_view() =~~= out0 + seq![tilde_line(csv)]);
                            }
                        }
                        proof {
                            assert(old(self)@.pending == Some(l@));
                            assert(self@ =~~= step(old(self)@, row@));
                        }
                    },
                    None => {
                        self.flush_buffer();
                        let line = build_marked_line('+', Style::Green, &r);
                        self.out.push(line);
                        proof {
                            assert(self@ =~~= step(old(self)@, row@));
                        }
                    },
                }
            },
        }
    }

    /// Ends the session: flushes the held-back removed line and the final
    /// buffered run, and appends the trailing blank line.
    pub fn finish(self) -> (out: Vec<Vec<Span>>)
        ensures
            out.deep_view() == finish_out(self@),
    {
        let mut st = self;
        let ghost orig = st@;
        st.flush_prev();
        let mut body = interior_lines(&st.buffered);
        st.out.append(&mut body);
        let blank: Vec<Span> = Vec::new();
        st.out.push(blank);
        proof {
            assert(st.out.deep_view() =~~= finish_out(orig));
        }
        st.out
    }
}

} // verus!
