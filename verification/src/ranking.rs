use vstd::prelude::*;
use crate::utils::Auxil;

verus! {

/// Candidate `a` comes before candidate `b`: its key is larger, or the keys
/// are equal and it was declared first.
pub open spec fn outranks(auxils: Seq<Auxil>, a: int, b: int) -> bool {
    auxils[a].ratio > auxils[b].ratio || (auxils[a].ratio == auxils[b].ratio && a < b)
}

/// Candidate `p` stands somewhere in `order`.
pub open spec fn lists(order: Seq<usize>, p: int) -> bool {
    exists|j: int| 0 <= j < order.len() && #[trigger] order[j] == p
}

/// `order` lists the first `count` candidates, each once, best first.
pub open spec fn ranks_first(auxils: Seq<Auxil>, order: Seq<usize>, count: int) -> bool {
    &&& order.len() == count
    &&& forall|j: int| 0 <= j < order.len() ==> (#[trigger] order[j]) < count
    &&& forall|i: int, j: int|
        0 <= i < j < order.len() ==> outranks(auxils, order[i] as int, order[j] as int)
    &&& forall|p: int| 0 <= p < count ==> #[trigger] lists(order, p)
}

/// `order` is the ranking of the candidates: it lists every candidate once,
/// by falling key, and candidates of equal key in the order of declaration.
pub open spec fn is_ranking(auxils: Seq<Auxil>, order: Seq<usize>) -> bool {
    ranks_first(auxils, order, auxils.len() as int)
}

/// Where the next candidate goes: behind every listed candidate whose key is
/// at least as large as `key`.
fn slot(auxils: &Vec<Auxil>, order: &Vec<usize>, key: i64) -> (at: usize)
    requires
        forall|j: int| 0 <= j < order@.len() ==> (#[trigger] order@[j]) < auxils@.len(),
        forall|i: int, j: int|
            0 <= i < j < order@.len() ==> outranks(auxils@, order@[i] as int, order@[j] as int),
    ensures
        at <= order@.len(),
        forall|j: int| 0 <= j < at ==> auxils@[order@[j] as int].ratio >= key,
        forall|j: int| at <= j < order@.len() ==> auxils@[order@[j] as int].ratio < key,
{
    let mut at: usize = 0;
    while at < order.len() && auxils[order[at]].ratio >= key
        invariant
            at <= order@.len(),
            forall|j: int| 0 <= j < order@.len() ==> (#[trigger] order@[j]) < auxils@.len(),
            forall|j: int| 0 <= j < at ==> auxils@[order@[j] as int].ratio >= key,
        decreases order@.len() - at,
    {
        at += 1;
    }
    proof {
        assert forall|j: int| at <= j < order@.len() implies auxils@[order@[j] as int].ratio
            < key by {
            if at < j {
                assert(outranks(auxils@, order@[at as int] as int, order@[j] as int));
            }
        }
    }
    at
}

/// Ranks the candidates: the indices of `auxils`, best first.
pub fn rank(auxils: &Vec<Auxil>) -> (order: Vec<usize>)
    ensures
        is_ranking(auxils@, order@),
{
    let n = auxils.len();
    let mut order: Vec<usize> = Vec::new();
    let mut p: usize = 0;
    while p < n
        invariant
            p <= n,
            n == auxils@.len(),
            ranks_first(auxils@, order@, p as int),
        decreases n - p,
    {
        let at = slot(auxils, &order, auxils[p].ratio);
        let ghost before = order@;
        order.insert(at, p);
        proof {
            before.insert_ensures(at as int, p);
            let after = order@;
            assert forall|i: int, j: int| 0 <= i < j < after.len() implies outranks(
                auxils@,
                after[i] as int,
                after[j] as int,
            ) by {
                if j < at {
                    assert(after[i] == before[i] && after[j] == before[j]);
                } else if j == at {
                    assert(after[i] == before[i]);
                } else if i < at {
                    assert(after[i] == before[i] && after[j] == before[j - 1]);
                } else if i == at {
                    assert(after[j] == before[j - 1]);
                } else {
                    assert(after[i] == before[i - 1] && after[j] == before[j - 1]);
                }
            }
            assert forall|q: int| 0 <= q < p + 1 implies #[trigger] lists(after, q) by {
                if q == p {
                    assert(after[at as int] == q);
                } else {
                    assert(lists(before, q));
                    let j = choose|j: int| 0 <= j < before.len() && #[trigger] before[j] == q;
                    if j < at {
                        assert(after[j] == q);
                    } else {
                        assert(after[j + 1] == q);
                    }
                }
            }
            assert forall|j: int| 0 <= j < after.len() implies (#[trigger] after[j]) < p + 1 by {
                if j < at {
                    assert(after[j] == before[j]);
                } else if j > at {
                    assert(after[j] == before[j - 1]);
                }
            }
        }
        p += 1;
    }
    order
}

/// A ranking puts a candidate of the largest key first.
pub proof fn ranking_starts_with_best(auxils: Seq<Auxil>, order: Seq<usize>, p: int)
    requires
        is_ranking(auxils, order),
        0 <= p < auxils.len(),
    ensures
        auxils[order[0] as int].ratio >= auxils[p].ratio,
{
    assert(lists(order, p));
    let j = choose|j: int| 0 <= j < order.len() && #[trigger] order[j] == p;
    if j > 0 {
        assert(outranks(auxils, order[0] as int, order[j] as int));
    }
}

/// The candidates have one ranking only.
pub proof fn ranking_is_unique(auxils: Seq<Auxil>, first: Seq<usize>, second: Seq<usize>)
    requires
        is_ranking(auxils, first),
        is_ranking(auxils, second),
    ensures
        first == second,
{
    assert forall|i: int| 0 <= i < first.len() implies first[i] == second[i] by {
        same_up_to(auxils, first, second, i);
    }
    assert(first =~= second);
}

proof fn same_up_to(auxils: Seq<Auxil>, first: Seq<usize>, second: Seq<usize>, i: int)
    requires
        is_ranking(auxils, first),
        is_ranking(auxils, second),
        0 <= i < first.len(),
    ensures
        forall|k: int| 0 <= k <= i ==> first[k] == second[k],
    decreases i,
{
    if i > 0 {
        same_up_to(auxils, first, second, i - 1);
    }
    let a = first[i] as int;
    let b = second[i] as int;
    assert(lists(second, a) && lists(first, b));
    let j = choose|j: int| 0 <= j < second.len() && #[trigger] second[j] == a;
    let k = choose|k: int| 0 <= k < first.len() && #[trigger] first[k] == b;
    if j < i {
        assert(first[j] == second[j]);
        assert(outranks(auxils, first[j] as int, first[i] as int));
    }
    if k < i {
        assert(second[k] == first[k]);
        assert(outranks(auxils, second[k] as int, second[i] as int));
    }
    if j > i {
        assert(outranks(auxils, second[i] as int, second[j] as int));
    }
    if k > i {
        assert(outranks(auxils, first[i] as int, first[k] as int));
    }
}

} // verus!
