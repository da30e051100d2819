//! Summing line counts per pattern over the files that each pattern matched.

use vstd::prelude::*;
use rayon::iter::{IntoParallelRefIterator, ParallelIterator};
use crate::lines::{count_lines, lemma_line_count_le_len, line_count};

verus! {

broadcast use vstd::seq_lib::group_to_multiset_ensures;

/// One pattern together with what it matched: the content of each matched file,
/// or `None` for a file that could not be read, which contributes nothing.
pub struct PatternMatches {
    pub pattern: String,
    pub files: Vec<Option<Vec<u8>>>,
}

/// Lines counted in one matched file; a file that could not be read counts zero.
pub open spec fn file_total(f: Option<Vec<u8>>) -> nat {
    match f {
        Some(c) => line_count(c@),
        None => 0,
    }
}

/// Lines counted over the matched files, each entry once.
pub open spec fn pattern_total(fs: Seq<Option<Vec<u8>>>) -> nat
    decreases fs.len(),
{
    if fs.len() == 0 {
        0
    } else {
        pattern_total(fs.drop_last()) + file_total(fs.last())
    }
}

/// Bytes held by one matched file.
pub open spec fn file_bytes(f: Option<Vec<u8>>) -> nat {
    match f {
        Some(c) => c.len() as nat,
        None => 0,
    }
}

/// Bytes held by the matched files together.
pub open spec fn total_bytes(fs: Seq<Option<Vec<u8>>>) -> nat
    decreases fs.len(),
{
    if fs.len() == 0 {
        0
    } else {
        total_bytes(fs.drop_last()) + file_bytes(fs.last())
    }
}

/// The sum of the counts of a report.
pub open spec fn sum_counts(r: Seq<(String, usize)>) -> nat
    decreases r.len(),
{
    if r.len() == 0 {
        0
    } else {
        sum_counts(r.drop_last()) + r.last().1 as nat
    }
}

/// The line totals of all patterns added up, each pattern on its own.
pub open spec fn patterns_total(ms: Seq<PatternMatches>) -> nat
    decreases ms.len(),
{
    if ms.len() == 0 {
        0
    } else {
        patterns_total(ms.drop_last()) + pattern_total(ms.last().files@)
    }
}

/// `r` reports, for each pattern of `ms` in order, the pattern and its line total.
pub open spec fn reports(ms: Seq<PatternMatches>, r: Seq<(String, usize)>) -> bool {
    &&& r.len() == ms.len()
    &&& forall|i: int|
        0 <= i < r.len() ==> (#[trigger] r[i]).0 == ms[i].pattern && r[i].1 == pattern_total(
            ms[i].files@,
        )
}

proof fn lemma_pattern_total_le_bytes(fs: Seq<Option<Vec<u8>>>)
    ensures
        pattern_total(fs) <= total_bytes(fs),
    decreases fs.len(),
{
    if fs.len() > 0 {
        lemma_pattern_total_le_bytes(fs.drop_last());
        if let Some(c) = fs.last() {
            lemma_line_count_le_len(c@);
        }
    }
}

/// Counts the lines of one matched file; `None` counts zero.
pub fn file_lines(f: &Option<Vec<u8>>) -> (r: usize)
    ensures
        r == file_total(*f),
{
    match f {
        Some(c) => count_lines(c.as_slice()),
        None => 0,
    }
}

/// Relies on rayon's `par_iter().map(..).sum()`: the sum of the mapped items,
/// added in some order; the sum of `usize` is only defined where it does not overflow.
#[verifier::external_body]
fn par_sum_file_lines(files: &Vec<Option<Vec<u8>>>) -> (r: usize)
    requires
        pattern_total(files@) <= usize::MAX,
    ensures
        r == pattern_total(files@),
{
    files.par_iter().map(|f| file_lines(f)).sum()
}

/// Counts the lines of the files that one pattern matched, the files in parallel.
pub fn count_files(files: &Vec<Option<Vec<u8>>>) -> (r: usize)
    requires
        total_bytes(files@) <= usize::MAX,
    ensures
        r == pattern_total(files@),
{
    proof {
        lemma_pattern_total_le_bytes(files@);
    }
    par_sum_file_lines(files)
}

/// For each pattern, in the order given, the pattern and the lines counted over
/// the files it matched. A pattern that matched no file reports zero; a file
/// matched by several patterns counts towards each of them. Patterns are taken
/// as given: one given twice is reported twice.
pub fn count_locs(matches: &Vec<PatternMatches>) -> (r: Vec<(String, usize)>)
    requires
        forall|i: int| 0 <= i < matches.len() ==> total_bytes(#[trigger] matches@[i].files@) <= usize::MAX,
    ensures
        reports(matches@, r@),
        forall|i: int| 0 <= i < matches.len() && (#[trigger] matches@[i]).files.len() == 0 ==> r@[i].1 == 0,
{
    let mut r: Vec<(String, usize)> = Vec::new();
    let mut i: usize = 0;
    while i < matches.len()
        invariant
            i <= matches.len(),
            forall|k: int| 0 <= k < matches.len() ==> total_bytes(#[trigger] matches@[k].files@) <= usize::MAX,
            reports(matches@.take(i as int), r@),
        decreases matches.len() - i,
    {
        let m = &matches[i];
        let lines = count_files(&m.files);
        r.push((m.pattern.clone(), lines));
        i += 1;
        proof {
            assert forall|k: int| 0 <= k < r.len() implies (#[trigger] r@[k]).0 == matches@.take(
                i as int,
            )[k].pattern && r@[k].1 == pattern_total(matches@.take(i as int)[k].files@) by {
                assert(matches@.take(i as int)[k] == matches@[k]);
                if k < i - 1 {
                    assert(matches@.take(i - 1)[k] == matches@[k]);
                }
            }
        }
    }
    proof {
        assert(matches@.take(i as int) =~= matches@);
        assert forall|k: int| 0 <= k < matches.len() && (#[trigger] matches@[k]).files.len() == 0 implies r@[k].1 == 0 by {
            assert(matches@[k].files@.len() == 0);
        }
    }
    r
}

proof fn lemma_sum_counts_prefix(r: Seq<(String, usize)>, j: int)
    requires
        0 <= j <= r.len(),
    ensures
        sum_counts(r.take(j)) <= sum_counts(r),
    decreases r.len(),
{
    if j < r.len() {
        lemma_sum_counts_prefix(r.drop_last(), j);
        assert(r.drop_last().take(j) =~= r.take(j));
    } else {
        assert(r.take(j) =~= r);
    }
}

/// The grand total of a report: the sum of its counts, or `None` where that
/// sum does not fit in a `usize`.
pub fn total_lines(results: &Vec<(String, usize)>) -> (r: Option<usize>)
    ensures
        r == if sum_counts(results@) <= usize::MAX {
            Some(sum_counts(results@) as usize)
        } else {
            None::<usize>
        },
{
    let mut total: usize = 0;
    let mut i: usize = 0;
    while i < results.len()
        invariant
            i <= results.len(),
            total == sum_counts(results@.take(i as int)),
        decreases results.len() - i,
    {
        proof {
            assert(results@.take(i + 1).drop_last() =~= results@.take(i as int));
        }
        let c = results[i].1;
        if c > usize::MAX - total {
            proof {
                lemma_sum_counts_prefix(results@, i + 1);
            }
            return None;
        }
        total = total + c;
        i += 1;
    }
    proof {
        assert(results@.take(i as int) =~= results@);
    }
    Some(total)
}

/// The grand total of a report equals the per-pattern totals added up, each
/// pattern counted on its own: a file that two patterns match adds to both, and
/// within one pattern each matched entry adds once.
pub proof fn lemma_grand_total(ms: Seq<PatternMatches>, r: Seq<(String, usize)>)
    requires
        reports(ms, r),
    ensures
        sum_counts(r) == patterns_total(ms),
    decreases ms.len(),
{
    if ms.len() > 0 {
        let r0 = r.drop_last();
        let m0 = ms.drop_last();
        assert(reports(m0, r0)) by {
            assert forall|i: int| 0 <= i < r0.len() implies (#[trigger] r0[i]).0 == m0[i].pattern
                && r0[i].1 == pattern_total(m0[i].files@) by {
                assert(r0[i] == r[i]);
            }
        }
        lemma_grand_total(m0, r0);
        assert(r[r.len() - 1] == r.last());
    }
}

/// Adding a file to what a pattern matched adds that file's count, and no more.
pub proof fn lemma_pattern_total_push(fs: Seq<Option<Vec<u8>>>, f: Option<Vec<u8>>)
    ensures
        pattern_total(fs.push(f)) == pattern_total(fs) + file_total(f),
{
    assert(fs.push(f).drop_last() =~= fs);
}

proof fn lemma_pattern_total_remove(fs: Seq<Option<Vec<u8>>>, j: int)
    requires
        0 <= j < fs.len(),
    ensures
        pattern_total(fs) == pattern_total(fs.remove(j)) + file_total(fs[j]),
    decreases fs.len(),
{
    if j == fs.len() - 1 {
        assert(fs.remove(j) =~= fs.drop_last());
    } else {
        let g = fs.remove(j);
        lemma_pattern_total_remove(fs.drop_last(), j);
        assert(g.drop_last() =~= fs.drop_last().remove(j));
        assert(g.last() == fs.last());
    }
}

/// The total of a pattern depends only on which files were matched, not on
/// the order in which the walk produced them.
pub proof fn lemma_pattern_total_order(fs: Seq<Option<Vec<u8>>>, gs: Seq<Option<Vec<u8>>>)
    requires
        fs.to_multiset() == gs.to_multiset(),
    ensures
        pattern_total(fs) == pattern_total(gs),
    decreases fs.len(),
{
    if fs.len() == 0 {
        assert(fs.to_multiset().len() == 0);
        assert(gs.to_multiset().len() == gs.len());
    } else {
        let x = fs.last();
        let f0 = fs.drop_last();
        assert(fs =~= f0.push(x));
        assert(fs.to_multiset() == f0.to_multiset().insert(x));
        assert(gs.to_multiset().count(x) > 0);
        assert(gs.contains(x));
        let j = choose|j: int| 0 <= j < gs.len() && gs[j] == x;
        let g0 = gs.remove(j);
        assert(g0.to_multiset() =~= f0.to_multiset());
        lemma_pattern_total_order(f0, g0);
        lemma_pattern_total_remove(gs, j);
    }
}

/// Counting twice over the same matched files, whatever order the walk gives
/// them in each time, yields the same report.
pub proof fn lemma_recount_same_result(
    ms1: Seq<PatternMatches>,
    ms2: Seq<PatternMatches>,
    r1: Seq<(String, usize)>,
    r2: Seq<(String, usize)>,
)
    requires
        ms1.len() == ms2.len(),
        forall|i: int|
            0 <= i < ms1.len() ==> (#[trigger] ms1[i]).pattern == ms2[i].pattern
                && ms1[i].files@.to_multiset() == ms2[i].files@.to_multiset(),
        reports(ms1, r1),
        reports(ms2, r2),
    ensures
        r1 == r2,
{
    assert forall|i: int| 0 <= i < r1.len() implies #[trigger] r1[i] == r2[i] by {
        assert(ms1[i].pattern == ms2[i].pattern);
        lemma_pattern_total_order(ms1[i].files@, ms2[i].files@);
    }
    assert(r1 =~= r2);
}

} // verus!
