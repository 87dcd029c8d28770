//! The trusted boundary: every call into the `diff` and `colored` crates,
//! and into the few std functions vstd gives no specification, lives here
//! behind a contract that the rest of the crate is verified against.

use crate::model::aligned_lines;
use crate::rows::{
    char_matches_agree, left_chars, left_lines, line_matches_agree, right_chars, right_lines,
    all_same, CharRow, LineRow, LineRowV,
};
use colored::Colorize;
use std::io::Write;
use vstd::prelude::*;

verus! {

/// What `String::from_utf8_lossy` returns for a byte sequence: the bytes
/// decoded as UTF-8, with each invalid sequence replaced by U+FFFD.  The
/// result depends on the bytes alone.
pub uninterp spec fn utf8_lossy_of(b: Seq<u8>) -> Seq<char>;

/// What `diff::lines` returns for two texts: a line-level alignment.  The
/// algorithm is deterministic, so the result depends on the texts alone.
pub uninterp spec fn line_diff_of(a: Seq<char>, b: Seq<char>) -> Seq<LineRowV>;

/// What `diff::chars` returns for two lines: a character-level alignment.
/// The algorithm is deterministic, so the result depends on the lines alone.
pub uninterp spec fn char_diff_of(l: Seq<char>, r: Seq<char>) -> Seq<CharRow>;

/// Relies on `String::from_utf8_lossy`: best-effort text from raw bytes.
#[verifier::external_body]
pub fn lossy_decode(b: &[u8]) -> (r: String)
    ensures
        r@ == utf8_lossy_of(b@),
{
    String::from_utf8_lossy(b).into_owned()
}

/// Relies on `diff::lines`: an ordered line-level alignment of the two
/// texts.  Its source shows that the records, scanned in order, yield the
/// left text's lines and the right text's lines exactly (`str::lines`
/// splitting, plus one empty sentinel line for a text ending in a newline),
/// that matched records hold equal lines, and that equal texts give an
/// all-matched alignment.
#[verifier::external_body]
pub fn diff_lines(a: &str, b: &str) -> (r: Vec<LineRow>)
    ensures
        r.deep_view() == line_diff_of(a@, b@),
        left_lines(r.deep_view()) == aligned_lines(a@),
        right_lines(r.deep_view()) == aligned_lines(b@),
        line_matches_agree(r.deep_view()),
        a@ == b@ ==> r.deep_view() == all_same(aligned_lines(a@)),
{
    diff::lines(a, b)
        .into_iter()
        .map(|row| match row {
            diff::Result::Left(l) => LineRow::Gone(l.chars().collect()),
            diff::Result::Right(x) => LineRow::Added(x.chars().collect()),
            diff::Result::Both(l, x) => LineRow::Same(l.chars().collect(), x.chars().collect()),
        })
        .collect()
}

/// Relies on `diff::chars`: an ordered character-level alignment of the two
/// lines.  Its source shows that the records, scanned in order, yield the
/// left line's characters and the right line's characters exactly, and that
/// matched records hold equal characters.
#[verifier::external_body]
pub fn diff_chars(l: &str, r: &str) -> (out: Vec<CharRow>)
    ensures
        out@ == char_diff_of(l@, r@),
        left_chars(out@) == l@,
        right_chars(out@) == r@,
        char_matches_agree(out@),
{
    diff::chars(l, r)
        .into_iter()
        .map(|row| match row {
            diff::Result::Left(c) => CharRow::Gone(c),
            diff::Result::Right(c) => CharRow::Added(c),
            diff::Result::Both(c, d) => CharRow::Same(c, d),
        })
        .collect()
}

/// Relies on `String`'s `FromIterator<char>`: the string of exactly these
/// characters in order.
#[verifier::external_body]
pub fn chars_string(v: &Vec<char>) -> (r: String)
    ensures
        r@ == v@,
{
    v.iter().collect()
}

/// Relies on `String::push_str`: appends the given string slice onto the
/// end of the string.
#[verifier::external_body]
pub fn push_str_onto(s: &mut String, t: &str)
    ensures
        final(s)@ == old(s)@ + t@,
{
    s.push_str(t)
}

/// Relies on `colored`'s `Colorize::red`: styles the text for display as
/// removed content.  Whether escape codes are emitted depends on the
/// terminal and environment, so nothing is claimed of the result.
#[verifier::external_body]
pub fn paint_red(s: &str) -> String {
    s.red().to_string()
}

/// Relies on `colored`'s `Colorize::green`: styles the text for display as
/// added content.  Whether escape codes are emitted depends on the terminal
/// and environment, so nothing is claimed of the result.
#[verifier::external_body]
pub fn paint_green(s: &str) -> String {
    s.green().to_string()
}

/// Relies on `colored`'s `Colorize::yellow`: styles the text for display as
/// an in-place change marker.  Whether escape codes are emitted depends on
/// the terminal and environment, so nothing is claimed of the result.
#[verifier::external_body]
pub fn paint_yellow(s: &str) -> String {
    s.yellow().to_string()
}

/// Relies on `std::io::stderr`: writes the text to the diagnostic stream.
/// A failure of the stream is ignored, as nothing could be reported to.
#[verifier::external_body]
pub fn emit_err(s: &str) {
    let mut e = std::io::stderr();
    let _ = write!(e, "{}", s);
}

} // verus!
