use vstd::prelude::*;

use crate::error::TailwindifyError;

verus! {

// ---------------------------------------------------------------------------
// The batch pipeline's compute parts: which files qualify, how the file list
// is split across workers, what one worker records per file, and how the
// per-group tallies join into the run summary.  The walking, reading,
// writing and thread plumbing around them live with the caller.
// ---------------------------------------------------------------------------

/// True when `a` and `b` are the same letter up to ASCII case.
pub open spec fn chars_eq_ignore_case(a: char, b: char) -> bool {
    ||| a == b
    ||| ('A' <= a <= 'Z' && a as u32 + 32 == b as u32)
    ||| ('A' <= b <= 'Z' && b as u32 + 32 == a as u32)
}

/// True when `a` and `b` are the same word up to ASCII case.
pub open spec fn seq_eq_ignore_case(a: Seq<char>, b: Seq<char>) -> bool {
    &&& a.len() == b.len()
    &&& forall|k: int| 0 <= k < a.len() ==> chars_eq_ignore_case(#[trigger] a[k], b[k])
}

/// The extension allow-list: a file qualifies exactly when its extension is
/// one of `vue`, `tsx`, `jsx`, `js`, `ts`, compared without regard to ASCII
/// case.
pub open spec fn is_supported_ext(e: Seq<char>) -> bool {
    ||| seq_eq_ignore_case(e, seq!['v', 'u', 'e'])
    ||| seq_eq_ignore_case(e, seq!['t', 's', 'x'])
    ||| seq_eq_ignore_case(e, seq!['j', 's', 'x'])
    ||| seq_eq_ignore_case(e, seq!['j', 's'])
    ||| seq_eq_ignore_case(e, seq!['t', 's'])
}

/// Decides `chars_eq_ignore_case`.
fn char_eq_ignore_case(a: char, b: char) -> (r: bool)
    ensures
        r == chars_eq_ignore_case(a, b),
{
    if a == b {
        true
    } else if 'A' <= a && a <= 'Z' && (a as u32) + 32 == (b as u32) {
        true
    } else {
        'A' <= b && b <= 'Z' && (b as u32) + 32 == (a as u32)
    }
}

/// Decides `seq_eq_ignore_case`.
fn word_eq_ignore_case(a: &Vec<char>, b: &Vec<char>) -> (r: bool)
    ensures
        r == seq_eq_ignore_case(a@, b@),
{
    if a.len() != b.len() {
        return false;
    }
    let mut k: usize = 0;
    while k < a.len()
        invariant
            a@.len() == b@.len(),
            k <= a@.len(),
            forall|t: int| 0 <= t < k ==> chars_eq_ignore_case(#[trigger] a@[t], b@[t]),
        decreases a.len() - k,
    {
        if !char_eq_ignore_case(a[k], b[k]) {
            return false;
        }
        k += 1;
    }
    true
}

/// Decides whether a file with extension `ext` qualifies for the run.
pub fn is_supported_extension(ext: &Vec<char>) -> (r: bool)
    ensures
        r == is_supported_ext(ext@),
{
    let vue = vec!['v', 'u', 'e'];
    let tsx = vec!['t', 's', 'x'];
    let jsx = vec!['j', 's', 'x'];
    let js = vec!['j', 's'];
    let ts = vec!['t', 's'];
    word_eq_ignore_case(ext, &vue) || word_eq_ignore_case(ext, &tsx) || word_eq_ignore_case(
        ext,
        &jsx,
    ) || word_eq_ignore_case(ext, &js) || word_eq_ignore_case(ext, &ts)
}

/// The fixed suffix that names the temporary sibling of a write target.
pub open spec fn temp_suffix() -> Seq<char> {
    seq!['.', 't', 'm', 'p']
}

/// Derives the temporary sibling path for an atomic replacement of `path`:
/// the target path with the fixed marker suffix appended.
pub fn temp_path_for(path: &Vec<char>) -> (t: Vec<char>)
    ensures
        t@ == path@ + temp_suffix(),
{
    let mut t = crate::rules::clone_chars(path);
    t.push('.');
    t.push('t');
    t.push('m');
    t.push('p');
    proof {
        assert(t@ =~= path@ + temp_suffix());
    }
    t
}

/// The number of files each worker takes: an even share of the files over
/// the available parallelism, and at least one.
pub fn calculate_group_count(total_files: usize, cpus: usize) -> (g: usize)
    requires
        cpus >= 1,
    ensures
        g as int == vstd::math::max(1, total_files as int / cpus as int),
        g >= 1,
{
    let share = total_files / cpus;
    if share == 0 {
        1
    } else {
        share
    }
}

/// Splits `files` into contiguous groups: the input is consumed in order,
/// each group filled to `group_size` before the next starts, so every group
/// has exactly `group_size` files except possibly the last, which is never
/// empty.  The groups, concatenated in order, are exactly the input list —
/// no file is duplicated or dropped — and their number is the total divided
/// by the group size, rounded up.
pub fn create_file_groups<T>(files: Vec<T>, group_size: usize) -> (groups: Vec<Vec<T>>)
    requires
        group_size >= 1,
    ensures
        groups@.map_values(|g: Vec<T>| g@).flatten() == files@,
        forall|j: int| 0 <= j < groups@.len() - 1 ==> (#[trigger] groups@[j])@.len() == group_size,
        groups@.len() > 0 ==> 0 < groups@.last()@.len() <= group_size,
        groups@.len() > 0 ==> groups@.last()@.len() == files@.len() - (groups@.len() - 1) * (
        group_size as int),
        groups@.len() == (files@.len() + group_size - 1) / (group_size as int),
{
    let ghost orig = files@;
    let ghost gs = group_size as int;
    let total = files.len();
    let mut rest = files;
    let mut groups: Vec<Vec<T>> = Vec::new();
    let mut current: Vec<T> = Vec::new();
    proof {
        assert(groups@.len() * (group_size as int) == 0) by (nonlinear_arith)
            requires
                groups@.len() == 0,
        ;
    }
    while rest.len() > 0
        invariant
            group_size >= 1,
            current@.len() < group_size,
            groups@.map_values(|g: Vec<T>| g@).flatten() + current@ + rest@ =~= orig,
            forall|j: int| 0 <= j < groups@.len() ==> (#[trigger] groups@[j])@.len() == group_size,
            groups@.len() * (group_size as int) + current@.len() + rest@.len() == total,
        decreases rest.len(),
    {
        let ghost groups0 = groups@;
        let ghost current0 = current@;
        let ghost rest0 = rest@;
        let item = rest.remove(0);
        current.push(item);
        proof {
            assert(current@ + rest@ =~= current0 + rest0);
        }
        if current.len() == group_size {
            groups.push(current);
            current = Vec::new();
            proof {
                let f = |g: Vec<T>| g@;
                assert(groups@.map_values(f) =~= groups0.map_values(f).push(current0.push(
                    rest0[0],
                )));
                groups0.map_values(f).lemma_flatten_push(current0.push(rest0[0]));
                assert(groups@.map_values(f).flatten() + current@ + rest@ =~= orig);
                assert((groups0.len() + 1) * (group_size as int) == groups0.len() * (
                group_size as int) + group_size) by (nonlinear_arith);
            }
        }
    }
    let ghost tally = current@.len();
    if current.len() > 0 {
        let ghost groups0 = groups@;
        let ghost current0 = current@;
        groups.push(current);
        proof {
            let f = |g: Vec<T>| g@;
            assert(groups@.map_values(f) =~= groups0.map_values(f).push(current0));
            groups0.map_values(f).lemma_flatten_push(current0);
            assert(groups@.map_values(f).flatten() =~= orig);
            assert(groups@.last()@ == current0);
            assert(groups@.len() * gs == groups0.len() * gs + gs) by (nonlinear_arith)
                requires
                    groups@.len() == groups0.len() + 1,
                    gs == gs,
            ;
            assert((groups@.len() - 1) * gs == groups0.len() * gs);
            vstd::arithmetic::div_mod::lemma_fundamental_div_mod_converse(
                orig.len() + gs - 1,
                gs,
                groups@.len() as int,
                tally - 1,
            );
        }
    } else {
        proof {
            let f = |g: Vec<T>| g@;
            assert(groups@.map_values(f).flatten() + current@ =~= groups@.map_values(f).flatten());
            assert(groups@.map_values(f).flatten() =~= orig);
            if groups@.len() > 0 {
                assert(groups@.last()@ == groups@.map_values(f)[groups@.len() - 1]);
                assert((groups@.len() - 1) * gs == groups@.len() * gs - gs) by (nonlinear_arith);
            }
            vstd::arithmetic::div_mod::lemma_fundamental_div_mod_converse(
                orig.len() + gs - 1,
                gs,
                groups@.len() as int,
                gs - 1,
            );
        }
    }
    groups
}

/// Why a worker set one file aside without rewriting it.  Either way the
/// file on disk keeps its old content and the run continues.
#[derive(Clone, Copy, Debug)]
pub enum SkipReason {
    /// The file could not be read.
    ReadFailed,
    /// The rewritten content could not be committed to the file.
    WriteFailed,
}

/// What processing one file came to.
#[derive(Clone, Copy, Debug)]
pub enum ProcessingOutcome {
    /// Some rule pass matched and the rewritten content was committed.
    Rewritten,
    /// No rule pass matched; nothing was written.
    Unchanged,
    /// The file was set aside; the run went on with the next file.
    Skipped(SkipReason),
}

/// A group's tally of outcomes, one count per outcome kind.
#[derive(Clone, Copy, Debug)]
pub struct GroupTally {
    pub rewritten: usize,
    pub unchanged: usize,
    pub skipped: usize,
}

/// How many of `os` are `Rewritten`.
pub open spec fn count_rewritten(os: Seq<ProcessingOutcome>) -> int
    decreases os.len(),
{
    if os.len() == 0 {
        0
    } else {
        count_rewritten(os.drop_last()) + if os.last() is Rewritten {
            1int
        } else {
            0int
        }
    }
}

/// How many of `os` are `Unchanged`.
pub open spec fn count_unchanged(os: Seq<ProcessingOutcome>) -> int
    decreases os.len(),
{
    if os.len() == 0 {
        0
    } else {
        count_unchanged(os.drop_last()) + if os.last() is Unchanged {
            1int
        } else {
            0int
        }
    }
}

/// How many of `os` are `Skipped`.
pub open spec fn count_skipped(os: Seq<ProcessingOutcome>) -> int
    decreases os.len(),
{
    if os.len() == 0 {
        0
    } else {
        count_skipped(os.drop_last()) + if os.last() is Skipped {
            1int
        } else {
            0int
        }
    }
}

/// Each file contributes exactly one outcome, so the three counts split the
/// list's length among them.
pub proof fn lemma_counts_partition(os: Seq<ProcessingOutcome>)
    ensures
        count_rewritten(os) >= 0,
        count_unchanged(os) >= 0,
        count_skipped(os) >= 0,
        count_rewritten(os) + count_unchanged(os) + count_skipped(os) == os.len(),
    decreases os.len(),
{
    if os.len() > 0 {
        lemma_counts_partition(os.drop_last());
    }
}

/// Sums a group's outcome list into its tally.
pub fn tally_outcomes(os: &Vec<ProcessingOutcome>) -> (t: GroupTally)
    ensures
        t.rewritten as int == count_rewritten(os@),
        t.unchanged as int == count_unchanged(os@),
        t.skipped as int == count_skipped(os@),
{
    let mut t = GroupTally { rewritten: 0, unchanged: 0, skipped: 0 };
    let mut i: usize = 0;
    let n = os.len();
    while i < n
        invariant
            n == os@.len(),
            i <= os@.len() <= usize::MAX,
            t.rewritten as int == count_rewritten(os@.take(i as int)),
            t.unchanged as int == count_unchanged(os@.take(i as int)),
            t.skipped as int == count_skipped(os@.take(i as int)),
        decreases n - i,
    {
        proof {
            lemma_counts_partition(os@.take(i as int));
            assert(os@.take(i + 1).drop_last() =~= os@.take(i as int));
            assert(os@.take(i + 1).last() == os@[i as int]);
        }
        match os[i] {
            ProcessingOutcome::Rewritten => {
                t.rewritten += 1;
            },
            ProcessingOutcome::Unchanged => {
                t.unchanged += 1;
            },
            ProcessingOutcome::Skipped(_) => {
                t.skipped += 1;
            },
        }
        i += 1;
    }
    proof {
        assert(os@.take(os@.len() as int) =~= os@);
    }
    t
}

/// One worker's result as the aggregator sees it: its tally, or the fault
/// that escaped its per-file handling.
pub type GroupResult = Result<GroupTally, TailwindifyError>;

/// All files a tally accounts for.
pub open spec fn tally_total(t: GroupTally) -> int {
    t.rewritten + t.unchanged + t.skipped
}

/// The number of files accounted for by the successful results in `rs`.
pub open spec fn sum_ok_totals(rs: Seq<GroupResult>) -> int
    decreases rs.len(),
{
    if rs.len() == 0 {
        0
    } else {
        (match rs[0] {
            Ok(t) => tally_total(t),
            Err(_) => 0,
        }) + sum_ok_totals(rs.drop_first())
    }
}

/// What joining the workers comes to: the first fault, in group order, fails
/// the whole run; otherwise the tallies are summed coordinate-wise.
pub open spec fn spec_aggregate(rs: Seq<GroupResult>) -> Result<(int, int, int), TailwindifyError>
    decreases rs.len(),
{
    if rs.len() == 0 {
        Ok((0int, 0int, 0int))
    } else {
        match rs[0] {
            Err(e) => Err(e),
            Ok(t) => match spec_aggregate(rs.drop_first()) {
                Err(e) => Err(e),
                Ok(sums) => Ok(
                    (t.rewritten + sums.0, t.unchanged + sums.1, t.skipped + sums.2),
                ),
            },
        }
    }
}

/// Adding an already-summed tally in front of an aggregate.
spec fn spec_combine(
    acc: GroupTally,
    rest: Result<(int, int, int), TailwindifyError>,
) -> Result<(int, int, int), TailwindifyError> {
    match rest {
        Err(e) => Err(e),
        Ok(s) => Ok((acc.rewritten + s.0, acc.unchanged + s.1, acc.skipped + s.2)),
    }
}

/// Joins the per-group results, in group order, into the run's summary: the
/// coordinate-wise sum of all tallies if every worker succeeded, else the
/// first worker fault, which fails the whole run.  The caller accounts one
/// outcome per file, so the summed totals cannot exceed the number of
/// discovered files.
pub fn aggregate_results(results: Vec<GroupResult>) -> (r: GroupResult)
    requires
        sum_ok_totals(results@) <= usize::MAX,
    ensures
        ({
            match (r, spec_aggregate(results@)) {
                (Ok(t), Ok(s)) => t.rewritten as int == s.0 && t.unchanged as int == s.1
                    && t.skipped as int == s.2,
                (Err(e1), Err(e2)) => e1 == e2,
                _ => false,
            }
        }),
{
    let ghost orig = results@;
    let mut rest = results;
    let mut acc = GroupTally { rewritten: 0, unchanged: 0, skipped: 0 };
    while rest.len() > 0
        invariant
            results@ == orig,
            spec_aggregate(orig) == spec_combine(acc, spec_aggregate(rest@)),
            tally_total(acc) + sum_ok_totals(rest@) <= usize::MAX,
            acc.rewritten >= 0 && acc.unchanged >= 0 && acc.skipped >= 0,
        decreases rest.len(),
    {
        let ghost rest0 = rest@;
        let ghost acc0 = acc;
        let head = rest.remove(0);
        proof {
            assert(rest@ =~= rest0.drop_first());
            lemma_sum_ok_totals_nonneg(rest@);
        }
        match head {
            Err(e) => {
                return Err(e);
            },
            Ok(t) => {
                acc.rewritten += t.rewritten;
                acc.unchanged += t.unchanged;
                acc.skipped += t.skipped;
            },
        }
    }
    Ok(acc)
}

/// Tallies count files, so the summed totals are never negative.
proof fn lemma_sum_ok_totals_nonneg(rs: Seq<GroupResult>)
    ensures
        sum_ok_totals(rs) >= 0,
    decreases rs.len(),
{
    if rs.len() > 0 {
        lemma_sum_ok_totals_nonneg(rs.drop_first());
    }
}

} // verus!
