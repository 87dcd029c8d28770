//! Alignment records: one line or character tagged as present only on the
//! left, only on the right, or on both sides of the inputs.

use crate::model::is_white;
use vstd::prelude::*;

verus! {

/// One record of a line-level alignment.
pub enum LineRow {
    /// A line present only in the left (expected) input.
    Gone(Vec<char>),
    /// A line present only in the right (actual) input.
    Added(Vec<char>),
    /// A line present in both inputs.
    Same(Vec<char>, Vec<char>),
}

/// The mathematical form of a [`LineRow`].
pub ghost enum LineRowV {
    Gone(Seq<char>),
    Added(Seq<char>),
    Same(Seq<char>, Seq<char>),
}

impl View for LineRow {
    type V = LineRowV;

    open spec fn view(&self) -> LineRowV {
        match self {
            LineRow::Gone(l) => LineRowV::Gone(l@),
            LineRow::Added(r) => LineRowV::Added(r@),
            LineRow::Same(l, r) => LineRowV::Same(l@, r@),
        }
    }
}

impl DeepView for LineRow {
    type V = LineRowV;

    open spec fn deep_view(&self) -> LineRowV {
        self.view()
    }
}

/// One record of a character-level alignment.  Characters are plain values,
/// so the same type serves both executable and specification code.
#[derive(PartialEq, Eq, Structural, Clone, Copy)]
pub enum CharRow {
    /// A character present only in the removed line.
    Gone(char),
    /// A character present only in the added line.
    Added(char),
    /// A character present in both lines.
    Same(char, char),
}

/// The lines a line-level alignment claims for the left input, in order.
pub open spec fn left_lines(rows: Seq<LineRowV>) -> Seq<Seq<char>>
    decreases rows.len(),
{
    if rows.len() == 0 {
        Seq::empty()
    } else {
        let rest = left_lines(rows.drop_first());
        match rows[0] {
            LineRowV::Gone(l) => seq![l] + rest,
            LineRowV::Added(_) => rest,
            LineRowV::Same(l, _) => seq![l] + rest,
        }
    }
}

/// The lines a line-level alignment claims for the right input, in order.
pub open spec fn right_lines(rows: Seq<LineRowV>) -> Seq<Seq<char>>
    decreases rows.len(),
{
    if rows.len() == 0 {
        Seq::empty()
    } else {
        let rest = right_lines(rows.drop_first());
        match rows[0] {
            LineRowV::Gone(_) => rest,
            LineRowV::Added(r) => seq![r] + rest,
            LineRowV::Same(_, r) => seq![r] + rest,
        }
    }
}

/// Every matched record of a line-level alignment carries equal lines.
pub open spec fn line_matches_agree(rows: Seq<LineRowV>) -> bool {
    forall|i: int|
        0 <= i < rows.len() ==> (#[trigger] rows[i] matches LineRowV::Same(l, r) ==> l == r)
}

/// The characters a character-level alignment claims for the left line.
pub open spec fn left_chars(rows: Seq<CharRow>) -> Seq<char>
    decreases rows.len(),
{
    if rows.len() == 0 {
        Seq::empty()
    } else {
        let rest = left_chars(rows.drop_first());
        match rows[0] {
            CharRow::Gone(c) => seq![c] + rest,
            CharRow::Added(_) => rest,
            CharRow::Same(c, _) => seq![c] + rest,
        }
    }
}

/// The characters a character-level alignment claims for the right line.
pub open spec fn right_chars(rows: Seq<CharRow>) -> Seq<char>
    decreases rows.len(),
{
    if rows.len() == 0 {
        Seq::empty()
    } else {
        let rest = right_chars(rows.drop_first());
        match rows[0] {
            CharRow::Gone(_) => rest,
            CharRow::Added(c) => seq![c] + rest,
            CharRow::Same(c, _) => seq![c] + rest,
        }
    }
}

/// Every matched record of a character-level alignment carries equal
/// characters.
pub open spec fn char_matches_agree(rows: Seq<CharRow>) -> bool {
    forall|i: int|
        0 <= i < rows.len() ==> (#[trigger] rows[i] matches CharRow::Same(l, r) ==> l == r)
}

/// Whether some non-whitespace character appears only in the removed line.
pub open spec fn has_left_only(rows: Seq<CharRow>) -> bool {
    exists|i: int|
        0 <= i < rows.len() && (#[trigger] rows[i] matches CharRow::Gone(c) && !is_white(c))
}

/// Whether some non-whitespace character appears only in the added line.
pub open spec fn has_right_only(rows: Seq<CharRow>) -> bool {
    exists|i: int|
        0 <= i < rows.len() && (#[trigger] rows[i] matches CharRow::Added(c) && !is_white(c))
}

/// A removed/added line pair is a mixed rewrite when both sides contribute
/// non-whitespace characters of their own; otherwise it is a pure, in-place
/// edit.
pub open spec fn is_mixed(rows: Seq<CharRow>) -> bool {
    has_left_only(rows) && has_right_only(rows)
}

/// An all-matched line alignment pairing each line of `ls` with itself.
pub open spec fn all_same(ls: Seq<Seq<char>>) -> Seq<LineRowV> {
    ls.map_values(|l: Seq<char>| LineRowV::Same(l, l))
}

} // verus!
