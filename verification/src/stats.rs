use vstd::prelude::*;
use crate::anthill::Average;
use crate::tech::Config;

verus! {

/// What one trial leaves behind.
#[derive(Clone, Debug, PartialEq)]
pub struct Stats<L> {
    /// Every ant was fed when the trial ended.
    pub completed: bool,
    /// The pheromone on each point when the trial ended, in the order of
    /// the grid.
    pub pheromone_strengths: Vec<L>,
    pub average_route_len: Average,
    /// How many ants were fed at the end of each cycle.
    pub ants_per_phase: Vec<usize>,
    pub average_returns: Average,
}

/// What a batch of trials adds up to.
#[derive(Clone, Debug, PartialEq, Eq)]
pub struct Totals {
    /// How many trials were added up.
    pub trials: usize,
    /// How many of them ended with every ant fed.
    pub completed: usize,
    /// For each cycle, the fed ants of all trials together.
    pub ants_per_phase: Vec<u128>,
}

/// The counts of fed ants never fall from one cycle to the next.
pub open spec fn never_falls(counts: Seq<usize>) -> bool {
    forall|p: int, q: int| 0 <= p <= q < counts.len() ==> counts[p] <= counts[q]
}

/// The record is one that a trial under these settings, on a graph of
/// `points` points, can leave: a count of fed ants for every cycle, none
/// above the number of ants and, where ants do not return, none below the
/// one before; a level for every point; and the averages taken over all
/// ants. Where ants return, no ant is fed at the end of a cycle, since an
/// ant that finds food starts over at once: every count is nothing, and
/// the trial does not end with every ant fed.
pub open spec fn is_record<L>(stats: &Stats<L>, config: Config, points: nat) -> bool {
    &&& stats.ants_per_phase@.len() == config.cycles
    &&& stats.pheromone_strengths@.len() == points
    &&& forall|p: int|
        0 <= p < stats.ants_per_phase@.len() ==> (#[trigger] stats.ants_per_phase@[p]) <= config.ants
    &&& !config.returns ==> never_falls(stats.ants_per_phase@)
    &&& config.cycles > 0 ==> stats.completed == (stats.ants_per_phase@.last() == config.ants)
    &&& stats.average_route_len.count == config.ants
    &&& stats.average_returns.count == config.ants
    &&& !config.returns ==> stats.average_returns.total == 0
    &&& config.returns ==> forall|p: int|
        0 <= p < stats.ants_per_phase@.len() ==> (#[trigger] stats.ants_per_phase@[p]) == 0
    &&& config.returns && config.ants > 0 ==> !stats.completed
}

/// How many of the trials ended with every ant fed.
pub open spec fn completed_count<L>(stats: Seq<Stats<L>>) -> nat
    decreases stats.len(),
{
    if stats.len() == 0 {
        0
    } else {
        completed_count(stats.drop_last()) + if stats.last().completed {
            1nat
        } else {
            0nat
        }
    }
}

/// The ants that the record counts as fed at the end of cycle `p`; none
/// where the record does not reach that far.
pub open spec fn fed_in_phase<L>(stats: &Stats<L>, p: int) -> nat {
    if 0 <= p < stats.ants_per_phase@.len() {
        stats.ants_per_phase@[p] as nat
    } else {
        0
    }
}

/// The fed ants of cycle `p`, all trials together.
pub open spec fn phase_total<L>(stats: Seq<Stats<L>>, p: int) -> nat
    decreases stats.len(),
{
    if stats.len() == 0 {
        0
    } else {
        phase_total(stats.drop_last(), p) + fed_in_phase(&stats.last(), p)
    }
}

/// Where every trial counts the same number of fed ants at the end of a
/// cycle, the total for that cycle is that number times the trials: the
/// average over the batch is the count of one trial.
pub proof fn identical_trials_total<L>(stats: Seq<Stats<L>>, p: int, fed: nat)
    requires
        forall|t: int| 0 <= t < stats.len() ==> fed_in_phase(&#[trigger] stats[t], p) == fed,
    ensures
        phase_total(stats, p) == stats.len() * fed,
    decreases stats.len(),
{
    if stats.len() > 0 {
        let front = stats.drop_last();
        assert forall|t: int| 0 <= t < front.len() implies fed_in_phase(&#[trigger] front[t], p)
            == fed by {
            assert(front[t] == stats[t]);
        }
        identical_trials_total(front, p, fed);
        assert(stats.last() == stats[stats.len() - 1]);
        assert(phase_total(stats, p) == front.len() * fed + fed);
        assert(front.len() * fed + fed == stats.len() * fed) by (nonlinear_arith)
            requires
                front.len() + 1 == stats.len(),
        ;
    } else {
        assert(stats.len() * fed == 0) by (nonlinear_arith)
            requires
                stats.len() == 0,
        ;
    }
}

/// No cycle's total is above the trials times the largest count there is.
proof fn phase_total_bounded<L>(stats: Seq<Stats<L>>, p: int)
    ensures
        phase_total(stats, p) <= stats.len() * usize::MAX,
    decreases stats.len(),
{
    if stats.len() > 0 {
        phase_total_bounded(stats.drop_last(), p);
        assert((stats.len() - 1) * usize::MAX + usize::MAX == stats.len() * usize::MAX)
            by (nonlinear_arith);
    }
}

/// How many of the trials ended with every ant fed.
pub fn count_completed<L>(stats: &Vec<Stats<L>>) -> (count: usize)
    ensures
        count == completed_count(stats@),
{
    let n = stats.len();
    let mut count: usize = 0;
    let mut t: usize = 0;
    while t < n
        invariant
            t <= n,
            n == stats@.len(),
            count == completed_count(stats@.subrange(0, t as int)),
            count <= t,
        decreases n - t,
    {
        assert(stats@.subrange(0, t + 1).drop_last() =~= stats@.subrange(0, t as int));
        if stats[t].completed {
            count += 1;
        }
        t += 1;
    }
    assert(stats@.subrange(0, n as int) =~= stats@);
    count
}

/// The fed ants of cycle `phase`, all trials together.
pub fn total_in_phase<L>(stats: &Vec<Stats<L>>, phase: usize) -> (total: u128)
    ensures
        total == phase_total(stats@, phase as int),
{
    let n = stats.len();
    let mut total: u128 = 0;
    let mut t: usize = 0;
    while t < n
        invariant
            t <= n,
            n == stats@.len(),
            total == phase_total(stats@.subrange(0, t as int), phase as int),
        decreases n - t,
    {
        assert(stats@.subrange(0, t + 1).drop_last() =~= stats@.subrange(0, t as int));
        proof {
            phase_total_bounded(stats@.subrange(0, t + 1), phase as int);
            assert((t + 1) * usize::MAX <= u128::MAX) by (nonlinear_arith)
                requires
                    t < usize::MAX,
                    usize::MAX <= u64::MAX,
            ;
        }
        if phase < stats[t].ants_per_phase.len() {
            total = total + stats[t].ants_per_phase[phase] as u128;
        }
        t += 1;
    }
    assert(stats@.subrange(0, n as int) =~= stats@);
    total
}

/// Adds up the records of a batch, cycle by cycle over `cycles` cycles.
pub fn total_stats<L>(stats: &Vec<Stats<L>>, cycles: usize) -> (totals: Totals)
    ensures
        totals.trials == stats@.len(),
        totals.completed == completed_count(stats@),
        totals.ants_per_phase@.len() == cycles,
        forall|p: int|
            0 <= p < cycles ==> (#[trigger] totals.ants_per_phase@[p]) == phase_total(stats@, p),
{
    let mut ants_per_phase: Vec<u128> = Vec::new();
    let mut p: usize = 0;
    while p < cycles
        invariant
            p <= cycles,
            ants_per_phase@.len() == p,
            forall|q: int| 0 <= q < p ==> (#[trigger] ants_per_phase@[q]) == phase_total(stats@, q),
        decreases cycles - p,
    {
        ants_per_phase.push(total_in_phase(stats, p));
        p += 1;
    }
    Totals { trials: stats.len(), completed: count_completed(stats), ants_per_phase }
}

} // verus!
