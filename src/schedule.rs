//! The cycle resolver: from a schedule of repetition counts and a position,
//! which command runs now and which position comes next.

use vstd::arithmetic::div_mod::{lemma_mod_self_0, lemma_small_mod};
use vstd::prelude::*;

verus! {

/// The sum of all repetition counts: the length of one full cycle.
pub open spec fn total(r: Seq<usize>) -> nat
    decreases r.len(),
{
    if r.len() == 0 {
        0
    } else {
        total(r.drop_last()) + r.last() as nat
    }
}

/// The number of positions taken by the runs before run `i`.
pub open spec fn run_start(r: Seq<usize>, i: int) -> nat {
    total(r.take(i))
}

/// The first run, at index `i` or later, that ends after position `p`.
pub open spec fn run_from(r: Seq<usize>, p: int, i: int) -> int
    decreases r.len() - i,
{
    if i >= r.len() || p < run_start(r, i + 1) {
        i
    } else {
        run_from(r, p, i + 1)
    }
}

/// The index of the command that position `p` selects.
pub open spec fn command_at(r: Seq<usize>, p: int) -> int {
    run_from(r, p, 0)
}

/// The position that follows `p`, wrapping to zero at the end of the cycle.
pub open spec fn next_position(r: Seq<usize>, p: int) -> int {
    (p + 1) % (total(r) as int)
}

/// The position reached from zero after `k` runs.
pub open spec fn position_after(r: Seq<usize>, k: nat) -> int
    decreases k,
{
    if k == 0 {
        0
    } else {
        next_position(r, position_after(r, (k - 1) as nat))
    }
}

proof fn lemma_run_start_step(r: Seq<usize>, i: int)
    requires
        0 <= i < r.len(),
    ensures
        run_start(r, i + 1) == run_start(r, i) + r[i],
{
    assert(r.take(i + 1).drop_last() =~= r.take(i));
}

proof fn lemma_run_start_full(r: Seq<usize>)
    ensures
        run_start(r, r.len() as int) == total(r),
{
    assert(r.take(r.len() as int) =~= r);
}

/// Run starts never decrease along the schedule.
proof fn lemma_run_start_mono(r: Seq<usize>, i: int, j: int)
    requires
        0 <= i <= j <= r.len(),
    ensures
        run_start(r, i) <= run_start(r, j),
    decreases j - i,
{
    if i < j {
        lemma_run_start_mono(r, i, j - 1);
        lemma_run_start_step(r, j - 1);
    }
}

/// The search for the run of `p` stops at a run that holds `p`.
proof fn lemma_run_from(r: Seq<usize>, p: int, j: int)
    requires
        0 <= j <= r.len(),
        run_start(r, j) <= p < total(r),
    ensures
        j <= run_from(r, p, j) < r.len(),
        run_start(r, run_from(r, p, j)) <= p < run_start(r, run_from(r, p, j) + 1),
    decreases r.len() - j,
{
    lemma_run_start_full(r);
    if j < r.len() && p >= run_start(r, j + 1) {
        lemma_run_from(r, p, j + 1);
    }
}

/// Every position of the cycle selects the one run whose span holds it:
/// command `i` is selected at exactly `r[i]` positions, and these come in
/// the order of the schedule.
pub proof fn lemma_command_spans(r: Seq<usize>, p: int, i: int)
    requires
        0 <= p < total(r),
        0 <= i < r.len(),
    ensures
        command_at(r, p) == i <==> run_start(r, i) <= p < run_start(r, i) + r[i],
        0 <= command_at(r, p) < r.len(),
{
    lemma_run_from(r, p, 0);
    let c = command_at(r, p);
    lemma_run_start_step(r, i);
    lemma_run_start_step(r, c);
    if i < c {
        lemma_run_start_mono(r, i + 1, c);
    } else if c < i {
        lemma_run_start_mono(r, c + 1, i);
    }
}

/// Starting from zero, the stored position walks through every position of
/// the cycle in order and is back at zero after one full cycle.
pub proof fn lemma_walk_from_zero(r: Seq<usize>, k: nat)
    requires
        total(r) >= 1,
        k <= total(r),
    ensures
        k < total(r) ==> position_after(r, k) == k,
        k == total(r) ==> position_after(r, k) == 0,
    decreases k,
{
    if k > 0 {
        lemma_walk_from_zero(r, (k - 1) as nat);
        if k < total(r) {
            lemma_small_mod(k, total(r));
        } else {
            lemma_mod_self_0(k as int);
        }
    }
}

/// Resolving from zero again and again, the `k`-th run of a cycle selects
/// command `i` exactly when `k` lies in the span of run `i`: each command is
/// selected as many times as its count, in the order of the schedule, before
/// the position wraps to zero.
pub proof fn lemma_cycle_order(r: Seq<usize>, k: nat, i: int)
    requires
        total(r) >= 1,
        k < total(r),
        0 <= i < r.len(),
    ensures
        command_at(r, position_after(r, k)) == i <==> run_start(r, i) <= k < run_start(r, i)
            + r[i],
        position_after(r, total(r)) == 0,
{
    lemma_walk_from_zero(r, k);
    lemma_walk_from_zero(r, total(r));
    lemma_command_spans(r, k as int, i);
}

/// The sum of the counts, if it fits in a `usize`.
pub fn checked_total(repetitions: &Vec<usize>) -> (t: Option<usize>)
    ensures
        t.is_some() <==> total(repetitions@) <= usize::MAX,
        t.is_some() ==> t.unwrap() == total(repetitions@),
{
    let mut sum: usize = 0;
    let mut i: usize = 0;
    while i < repetitions.len()
        invariant
            i <= repetitions@.len(),
            sum == run_start(repetitions@, i as int),
        decreases repetitions@.len() - i,
    {
        proof {
            lemma_run_start_step(repetitions@, i as int);
        }
        if repetitions[i] > usize::MAX - sum {
            proof {
                lemma_run_start_mono(repetitions@, i as int + 1, repetitions@.len() as int);
                lemma_run_start_full(repetitions@);
            }
            return None;
        }
        sum = sum + repetitions[i];
        i = i + 1;
    }
    proof {
        lemma_run_start_full(repetitions@);
    }
    Some(sum)
}

/// Resolves `index` against the schedule: returns the index of the command
/// to run and the position to store for the next run.
pub fn cycle(repetitions: &Vec<usize>, index: usize) -> (r: (usize, usize))
    requires
        index < total(repetitions@),
        total(repetitions@) <= usize::MAX,
    ensures
        r.0 == command_at(repetitions@, index as int),
        r.1 == next_position(repetitions@, index as int),
{
    let sum = match checked_total(repetitions) {
        Some(s) => s,
        None => 0,
    };
    assert(sum == total(repetitions@));
    let next: usize = (index + 1) % sum;
    let mut start: usize = 0;
    let mut i: usize = 0;
    while i < repetitions.len()
        invariant
            i <= repetitions@.len(),
            start == run_start(repetitions@, i as int),
            start <= index,
            next == next_position(repetitions@, index as int),
            run_from(repetitions@, index as int, i as int) == command_at(repetitions@, index as int),
        decreases repetitions@.len() - i,
    {
        proof {
            lemma_run_start_step(repetitions@, i as int);
        }
        if index - start < repetitions[i] {
            return (i, next);
        }
        start = start + repetitions[i];
        i = i + 1;
    }
    proof {
        lemma_run_start_full(repetitions@);
    }
    (i, next)
}

} // verus!
