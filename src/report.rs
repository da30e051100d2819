//! The text that reports a count: a breakdown by pattern, then the total.

use vstd::prelude::*;
use crate::classify::chars_of;

verus! {

/// The character of the decimal digit `d`.
pub open spec fn digit(d: nat) -> char {
    ((48 + d) as u8) as char
}

/// The decimal digits of `n`, most significant first, without leading zeros.
pub open spec fn decimal(n: nat) -> Seq<char>
    decreases n,
{
    if n < 10 {
        seq![digit(n)]
    } else {
        decimal(n / 10).push(digit(n % 10))
    }
}

/// One line of the breakdown per entry: two spaces, the pattern, `": "`, the count.
pub open spec fn breakdown(r: Seq<(String, usize)>) -> Seq<char>
    decreases r.len(),
{
    if r.len() == 0 {
        seq![]
    } else {
        breakdown(r.drop_last()) + "  "@ + r.last().0@ + ": "@ + decimal(r.last().1 as nat)
            + "\n"@
    }
}

/// The report: with more than one pattern a heading, a blank line, the breakdown
/// and a blank line first; then the total line.
pub open spec fn report_text(r: Seq<(String, usize)>, total: nat) -> Seq<char> {
    (if r.len() > 1 {
        "Breakdown of Lines of Code by Glob:\n\n"@ + breakdown(r) + "\n"@
    } else {
        seq![]
    }) + "Total:\t"@ + decimal(total) + " lines of code\n"@
}

/// Relies on collecting `char`s into a `String`: the text holds those characters in order.
#[verifier::external_body]
fn string_of(cs: &Vec<char>) -> (r: String)
    ensures
        r@ == cs@,
{
    cs.iter().collect()
}

fn push_str(out: &mut Vec<char>, s: &str)
    ensures
        final(out)@ == old(out)@ + s@,
{
    let mut cs = chars_of(s);
    out.append(&mut cs);
}

fn push_decimal(out: &mut Vec<char>, n: usize)
    ensures
        final(out)@ == old(out)@ + decimal(n as nat),
    decreases n,
{
    if n >= 10 {
        push_decimal(out, n / 10);
    }
    let d = (48 + n % 10) as u8;
    out.push(d as char);
    proof {
        if n >= 10 {
            assert(decimal(n as nat) == decimal((n / 10) as nat).push(digit((n % 10) as nat)));
        }
    }
    assert(final(out)@ =~= old(out)@ + decimal(n as nat));
}

/// The decimal text of `n`.
pub fn decimal_string(n: usize) -> (r: String)
    ensures
        r@ == decimal(n as nat),
{
    let mut out: Vec<char> = Vec::new();
    push_decimal(&mut out, n);
    assert(out@ =~= decimal(n as nat));
    string_of(&out)
}

/// Renders the report of a count: the breakdown by pattern, in the order of
/// `results`, where there is more than one pattern; then the total.
pub fn render_report(results: &Vec<(String, usize)>, total: usize) -> (r: String)
    ensures
        r@ == report_text(results@, total as nat),
{
    let mut out: Vec<char> = Vec::new();
    if results.len() > 1 {
        push_str(&mut out, "Breakdown of Lines of Code by Glob:\n\n");
        let mut i: usize = 0;
        while i < results.len()
            invariant
                i <= results.len(),
                out@ == "Breakdown of Lines of Code by Glob:\n\n"@ + breakdown(results@.take(i as int)),
            decreases results.len() - i,
        {
            proof {
                assert(results@.take(i + 1).drop_last() =~= results@.take(i as int));
            }
            push_str(&mut out, "  ");
            push_str(&mut out, results[i].0.as_str());
            push_str(&mut out, ": ");
            push_decimal(&mut out, results[i].1);
            push_str(&mut out, "\n");
            i += 1;
            assert(out@ =~= "Breakdown of Lines of Code by Glob:\n\n"@ + breakdown(results@.take(i as int)));
        }
        push_str(&mut out, "\n");
        assert(results@.take(i as int) =~= results@);
    }
    push_str(&mut out, "Total:\t");
    push_decimal(&mut out, total);
    push_str(&mut out, " lines of code\n");
    assert(out@ =~= report_text(results@, total as nat));
    string_of(&out)
}

} // verus!
