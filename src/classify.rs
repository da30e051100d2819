//! Deciding whether one line of text counts.

use vstd::prelude::*;

verus! {

/// The error that reading a line of a file can give; it is only ever dropped.
#[verifier::external_type_specification]
#[verifier::external_body]
pub struct ExIoError(std::io::Error);

/// Whether `c` has the Unicode `White_Space` property, as `char::is_whitespace` reports it.
pub uninterp spec fn whitespace(c: char) -> bool;

/// A line is blank when every character of it is whitespace; the empty line is blank.
pub open spec fn is_blank(s: Seq<char>) -> bool {
    forall|i: int| 0 <= i < s.len() ==> whitespace(#[trigger] s[i])
}

/// Relies on `char::is_whitespace`: whether `c` has the `White_Space` property,
/// which depends on the character alone.
#[verifier::external_body]
fn is_whitespace(c: char) -> (r: bool)
    ensures
        r == whitespace(c),
{
    c.is_whitespace()
}

/// Relies on `str::chars`: the characters of `s`, in order.
#[verifier::external_body]
pub(crate) fn chars_of(s: &str) -> (r: Vec<char>)
    ensures
        r@ == s@,
{
    s.chars().collect()
}

/// Whether the characters hold at least one that is not whitespace.
pub fn has_content(cs: &Vec<char>) -> (r: bool)
    ensures
        r == !is_blank(cs@),
{
    let mut i: usize = 0;
    while i < cs.len()
        invariant
            i <= cs.len(),
            forall|j: int| 0 <= j < i ==> whitespace(#[trigger] cs@[j]),
        decreases cs.len() - i,
    {
        if !is_whitespace(cs[i]) {
            return true;
        }
        i += 1;
    }
    false
}

/// Whether a line counts: it holds at least one character that is not whitespace,
/// so that what is left after trimming whitespace from both ends is not empty.
pub fn is_counted_line(line: &str) -> (r: bool)
    ensures
        r == !is_blank(line@),
{
    let cs = chars_of(line);
    has_content(&cs)
}

/// Keeps a line that was read successfully and counts; drops a read error and a blank line.
pub fn is_valid_line(line: Result<String, std::io::Error>) -> (r: Option<String>)
    ensures
        r == (match line {
            Ok(l) => if is_blank(l@) {
                None
            } else {
                Some(l)
            },
            Err(_) => None,
        }),
{
    match line {
        Ok(l) => {
            if is_counted_line(l.as_str()) {
                Some(l)
            } else {
                None
            }
        },
        Err(_) => None,
    }
}

} // verus!
