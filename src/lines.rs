//! Splitting file content into lines and counting the lines that count.
//!
//! A line ends at a `\n` byte; a `\r` just before that `\n` belongs to the
//! terminator, not to the line. Content after the last `\n` is a last line of
//! its own when it is not empty. A line that is not valid UTF-8 never counts.

use vstd::prelude::*;
use vstd::slice::slice_subrange;
use vstd::utf8::{decode_utf8, valid_utf8};
use crate::classify::{has_content, is_blank, whitespace};

verus! {

/// The line feed byte, which ends a line.
pub const LF: u8 = 10;

/// The carriage return byte, dropped where it stands just before a line feed.
pub const CR: u8 = 13;

/// A terminated line without the `\r` of a `\r\n` terminator.
pub open spec fn strip_cr(l: Seq<u8>) -> Seq<u8> {
    if l.len() > 0 && l.last() == CR {
        l.drop_last()
    } else {
        l
    }
}

/// The bytes after the last line feed of `p` (all of `p` when it has none).
pub open spec fn open_tail(p: Seq<u8>) -> Seq<u8>
    decreases p.len(),
{
    if p.len() == 0 {
        seq![]
    } else if p.last() == LF {
        seq![]
    } else {
        open_tail(p.drop_last()).push(p.last())
    }
}

/// The lines of `p` that a line feed has ended, in order, without their terminators.
pub open spec fn ended_lines(p: Seq<u8>) -> Seq<Seq<u8>>
    decreases p.len(),
{
    if p.len() == 0 {
        seq![]
    } else if p.last() == LF {
        ended_lines(p.drop_last()).push(strip_cr(open_tail(p.drop_last())))
    } else {
        ended_lines(p.drop_last())
    }
}

/// All lines of `b`: the ended ones, then a last unterminated one if it is not empty.
pub open spec fn split_lines(b: Seq<u8>) -> Seq<Seq<u8>> {
    if open_tail(b).len() > 0 {
        ended_lines(b).push(open_tail(b))
    } else {
        ended_lines(b)
    }
}

/// A line counts when it is valid UTF-8 and holds a character that is not whitespace.
pub open spec fn line_counts(l: Seq<u8>) -> bool {
    valid_utf8(l) && !is_blank(decode_utf8(l))
}

/// How many of the lines count.
pub open spec fn counted(ls: Seq<Seq<u8>>) -> nat
    decreases ls.len(),
{
    if ls.len() == 0 {
        0
    } else {
        counted(ls.drop_last()) + if line_counts(ls.last()) {
            1nat
        } else {
            0nat
        }
    }
}

/// The number of lines of `b` that count.
pub open spec fn line_count(b: Seq<u8>) -> nat {
    counted(split_lines(b))
}

/// Relies on `std::str::from_utf8`: it accepts exactly the valid UTF-8 byte strings,
/// and the characters of the text are those the bytes encode.
#[verifier::external_body]
fn decode_line(b: &[u8]) -> (r: Option<Vec<char>>)
    ensures
        r is Some <==> valid_utf8(b@),
        r is Some ==> r->0@ == decode_utf8(b@),
{
    std::str::from_utf8(b).ok().map(|s| s.chars().collect())
}

/// Whether one line, given without its terminator, counts.
pub fn is_counted_bytes(line: &[u8]) -> (r: bool)
    ensures
        r == line_counts(line@),
{
    match decode_line(line) {
        Some(cs) => has_content(&cs),
        None => false,
    }
}

proof fn lemma_counted_push(ls: Seq<Seq<u8>>, l: Seq<u8>)
    ensures
        counted(ls.push(l)) == counted(ls) + if line_counts(l) {
            1nat
        } else {
            0nat
        },
{
    assert(ls.push(l).drop_last() =~= ls);
}

proof fn lemma_counted_le_len(ls: Seq<Seq<u8>>)
    ensures
        counted(ls) <= ls.len(),
    decreases ls.len(),
{
    if ls.len() > 0 {
        lemma_counted_le_len(ls.drop_last());
    }
}

proof fn lemma_lines_le_bytes(p: Seq<u8>)
    ensures
        ended_lines(p).len() + open_tail(p).len() <= p.len(),
    decreases p.len(),
{
    if p.len() > 0 {
        lemma_lines_le_bytes(p.drop_last());
    }
}

/// A file never has more counted lines than bytes.
pub proof fn lemma_line_count_le_len(b: Seq<u8>)
    ensures
        line_count(b) <= b.len(),
{
    lemma_lines_le_bytes(b);
    lemma_counted_le_len(split_lines(b));
}

/// Counts the lines of `content` that count, as `line_count` says.
pub fn count_lines(content: &[u8]) -> (r: usize)
    ensures
        r == line_count(content@),
{
    let ghost b = content@;
    let n = content.len();
    let mut count: usize = 0;
    let mut start: usize = 0;
    let mut i: usize = 0;
    while i < n
        invariant
            n == b.len(),
            b == content@,
            start <= i <= n,
            open_tail(b.take(i as int)) == b.subrange(start as int, i as int),
            count == counted(ended_lines(b.take(i as int))),
            count <= i,
        decreases n - i,
    {
        proof {
            assert(b.take(i + 1).drop_last() =~= b.take(i as int));
            assert(b.take(i + 1).last() == b[i as int]);
        }
        if content[i] == LF {
            let mut end = i;
            if end > start && content[end - 1] == CR {
                end = end - 1;
            }
            let line = slice_subrange(content, start, end);
            proof {
                assert(line@ =~= strip_cr(b.subrange(start as int, i as int)));
                lemma_counted_push(ended_lines(b.take(i as int)), line@);
            }
            if is_counted_bytes(line) {
                count = count + 1;
            }
            start = i + 1;
            proof {
                assert(b.subrange(start as int, i + 1) =~= seq![]);
            }
        } else {
            proof {
                assert(b.subrange(start as int, i + 1) =~= b.subrange(start as int, i as int).push(
                    b[i as int],
                ));
            }
        }
        i = i + 1;
    }
    proof {
        assert(b.take(n as int) =~= b);
    }
    if start < n {
        let last = slice_subrange(content, start, n);
        proof {
            lemma_counted_push(ended_lines(b), last@);
            lemma_lines_le_bytes(b);
            lemma_counted_le_len(ended_lines(b));
        }
        if is_counted_bytes(last) {
            count = count + 1;
        }
    }
    count
}

/// Content made of the lines `ls`, each followed by the terminator `term`.
pub open spec fn join_lines(ls: Seq<Seq<u8>>, term: Seq<u8>) -> Seq<u8>
    decreases ls.len(),
{
    if ls.len() == 0 {
        seq![]
    } else {
        join_lines(ls.drop_last(), term) + ls.last() + term
    }
}

/// `l` holds no line feed.
pub open spec fn no_lf(l: Seq<u8>) -> bool {
    forall|j: int| 0 <= j < l.len() ==> #[trigger] l[j] != LF
}

/// `l` holds no line feed and does not end with a carriage return.
pub open spec fn plain_line(l: Seq<u8>) -> bool {
    no_lf(l) && !(l.len() > 0 && l.last() == CR)
}

proof fn lemma_append_no_lf(x: Seq<u8>, l: Seq<u8>)
    requires
        no_lf(l),
    ensures
        ended_lines(x + l) == ended_lines(x),
        open_tail(x + l) == open_tail(x) + l,
    decreases l.len(),
{
    if l.len() == 0 {
        assert(x + l =~= x);
    } else {
        let k = l.drop_last();
        assert((x + l).drop_last() =~= x + k);
        assert((x + l).last() == l[l.len() - 1]);
        lemma_append_no_lf(x, k);
        assert(open_tail(x + k).push(l.last()) =~= open_tail(x) + l);
    }
}

proof fn lemma_end_line(x: Seq<u8>, l: Seq<u8>)
    requires
        no_lf(l),
    ensures
        ended_lines(x + l + seq![LF]) == ended_lines(x).push(strip_cr(open_tail(x) + l)),
        open_tail(x + l + seq![LF]) == Seq::<u8>::empty(),
{
    lemma_append_no_lf(x, l);
    assert((x + l + seq![LF]).drop_last() =~= x + l);
}

proof fn lemma_split_joined(ls: Seq<Seq<u8>>, term: Seq<u8>)
    requires
        term == seq![LF] || term == seq![CR, LF],
        forall|i: int| 0 <= i < ls.len() ==> no_lf(#[trigger] ls[i]),
        term == seq![LF] ==> forall|i: int| 0 <= i < ls.len() ==> plain_line(#[trigger] ls[i]),
    ensures
        ended_lines(join_lines(ls, term)) == ls,
        open_tail(join_lines(ls, term)) == Seq::<u8>::empty(),
    decreases ls.len(),
{
    if ls.len() == 0 {
        assert(ended_lines(seq![]) =~= ls);
    } else {
        let prefix = ls.drop_last();
        let x = join_lines(prefix, term);
        let l = ls.last();
        lemma_split_joined(prefix, term);
        assert(ls[ls.len() - 1] == l);
        if term == seq![LF] {
            lemma_end_line(x, l);
            assert(open_tail(x) + l =~= l);
        } else {
            let lc = l.push(CR);
            assert(no_lf(lc)) by {
                assert forall|j: int| 0 <= j < lc.len() implies #[trigger] lc[j] != LF by {
                    if j < l.len() {
                        assert(lc[j] == l[j]);
                    }
                }
            }
            lemma_end_line(x, lc);
            assert(x + l + term =~= x + lc + seq![LF]);
            assert(strip_cr(open_tail(x) + lc) =~= l);
        }
        assert(ls =~= prefix.push(l));
    }
}

/// A line of only whitespace, the empty line included, never adds to the count;
/// a line with a character that is not whitespace adds exactly one. Here `p` is
/// content whose last line is ended (or no content at all) and `l` one more line.
pub proof fn lemma_blank_lines_not_counted(p: Seq<u8>, l: Seq<u8>)
    requires
        open_tail(p).len() == 0,
        plain_line(l),
    ensures
        line_count(p + l + seq![LF]) == line_count(p) + if line_counts(l) {
            1nat
        } else {
            0nat
        },
        valid_utf8(l) && is_blank(decode_utf8(l)) ==> line_count(p + l + seq![LF]) == line_count(p),
        valid_utf8(l) && (exists|i: int|
            0 <= i < decode_utf8(l).len() && !whitespace(#[trigger] decode_utf8(l)[i]))
            ==> line_count(p + l + seq![LF]) == line_count(p) + 1,
{
    lemma_end_line(p, l);
    assert(open_tail(p) + l =~= l);
    lemma_counted_push(ended_lines(p), l);
}

/// Ending each line with `\n` or with `\r\n` gives the same lines, and so the
/// same count: the number of the lines that count.
pub proof fn lemma_line_endings(ls: Seq<Seq<u8>>)
    requires
        forall|i: int| 0 <= i < ls.len() ==> plain_line(#[trigger] ls[i]),
    ensures
        split_lines(join_lines(ls, seq![LF])) == ls,
        split_lines(join_lines(ls, seq![CR, LF])) == ls,
        line_count(join_lines(ls, seq![LF])) == counted(ls),
        line_count(join_lines(ls, seq![CR, LF])) == counted(ls),
{
    lemma_split_joined(ls, seq![LF]);
    lemma_split_joined(ls, seq![CR, LF]);
}

} // verus!
