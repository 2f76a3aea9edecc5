//! Pure selection helpers over node test results. Running the tests
//! themselves is network work and lives with the application.

use vstd::prelude::*;
use crate::node_test::{NodeTestResult, TestStatus};

verus! {

/// A result that succeeded and measured a response time.
pub open spec fn is_candidate(r: NodeTestResult) -> bool {
    r.status == TestStatus::Success && r.response_time_ms is Some
}

/// The measured time of a candidate.
pub open spec fn time_of(r: NodeTestResult) -> u64 {
    r.response_time_ms->0
}

/// The first successful result with the shortest response time, if any
/// result succeeded with a measured time.
pub fn find_fastest_node(results: &Vec<NodeTestResult>) -> (r: Option<&NodeTestResult>)
    ensures
        match r {
            None => forall|j: int|
                0 <= j < results@.len() ==> !is_candidate(#[trigger] results@[j]),
            Some(f) => exists|i: int|
                {
                    &&& 0 <= i < results@.len()
                    &&& *f == #[trigger] results@[i]
                    &&& is_candidate(results@[i])
                    &&& forall|j: int|
                        0 <= j < results@.len() && is_candidate(#[trigger] results@[j])
                            ==> time_of(results@[i]) <= time_of(results@[j])
                    &&& forall|j: int|
                        0 <= j < i && is_candidate(#[trigger] results@[j]) ==> time_of(
                            results@[i],
                        ) < time_of(results@[j])
                },
        },
{
    let n = results.len();
    let mut best: Option<usize> = None;
    let mut i: usize = 0;
    while i < n
        invariant
            n == results@.len(),
            i <= n,
            match best {
                None => forall|j: int| 0 <= j < i ==> !is_candidate(#[trigger] results@[j]),
                Some(b) => {
                    &&& b < i
                    &&& is_candidate(results@[b as int])
                    &&& forall|j: int|
                        0 <= j < i && is_candidate(#[trigger] results@[j]) ==> time_of(
                            results@[b as int],
                        ) <= time_of(results@[j])
                    &&& forall|j: int|
                        0 <= j < b && is_candidate(#[trigger] results@[j]) ==> time_of(
                            results@[b as int],
                        ) < time_of(results@[j])
                },
            },
        decreases n - i,
    {
        let cand = results[i].is_success() && results[i].response_time().is_some();
        if cand {
            let t = match results[i].response_time() {
                Some(t) => t,
                None => 0,
            };
            match best {
                None => {
                    best = Some(i);
                },
                Some(b) => {
                    let bt = match results[b].response_time() {
                        Some(t) => t,
                        None => 0,
                    };
                    if t < bt {
                        best = Some(i);
                    }
                },
            }
        }
        i += 1;
    }
    match best {
        None => None,
        Some(b) => Some(&results[b]),
    }
}

/// The successful results, in order.
pub fn filter_successful_nodes(results: &Vec<NodeTestResult>) -> (r: Vec<&NodeTestResult>)
    ensures
        r@.map_values(|x: &NodeTestResult| *x) == results@.filter(
            |x: NodeTestResult| x.status == TestStatus::Success,
        ),
{
    let ghost pred = |x: NodeTestResult| x.status == TestStatus::Success;
    let n = results.len();
    let mut out: Vec<&NodeTestResult> = Vec::new();
    let mut i: usize = 0;
    proof {
        reveal_with_fuel(Seq::filter, 2);
        assert(results@.take(0) =~= Seq::<NodeTestResult>::empty());
    }
    while i < n
        invariant
            pred == (|x: NodeTestResult| x.status == TestStatus::Success),
            n == results@.len(),
            i <= n,
            out@.map_values(|x: &NodeTestResult| *x) == results@.take(i as int).filter(pred),
        decreases n - i,
    {
        if results[i].is_success() {
            out.push(&results[i]);
        }
        proof {
            reveal_with_fuel(Seq::filter, 2);
            let taken = results@.take(i + 1);
            assert(taken.drop_last() =~= results@.take(i as int));
            assert(taken.last() == results@[i as int]);
            assert(out@.map_values(|x: &NodeTestResult| *x) =~= taken.filter(pred));
        }
        i += 1;
    }
    proof {
        assert(results@.take(n as int) =~= results@);
    }
    out
}

/// The unsuccessful results, in order.
pub fn filter_failed_nodes(results: &Vec<NodeTestResult>) -> (r: Vec<&NodeTestResult>)
    ensures
        r@.map_values(|x: &NodeTestResult| *x) == results@.filter(
            |x: NodeTestResult| x.status != TestStatus::Success,
        ),
{
    let ghost pred = |x: NodeTestResult| x.status != TestStatus::Success;
    let n = results.len();
    let mut out: Vec<&NodeTestResult> = Vec::new();
    let mut i: usize = 0;
    proof {
        reveal_with_fuel(Seq::filter, 2);
        assert(results@.take(0) =~= Seq::<NodeTestResult>::empty());
    }
    while i < n
        invariant
            pred == (|x: NodeTestResult| x.status != TestStatus::Success),
            n == results@.len(),
            i <= n,
            out@.map_values(|x: &NodeTestResult| *x) == results@.take(i as int).filter(pred),
        decreases n - i,
    {
        if results[i].is_failure() {
            out.push(&results[i]);
        }
        proof {
            reveal_with_fuel(Seq::filter, 2);
            let taken = results@.take(i + 1);
            assert(taken.drop_last() =~= results@.take(i as int));
            assert(taken.last() == results@[i as int]);
            assert(out@.map_values(|x: &NodeTestResult| *x) =~= taken.filter(pred));
        }
        i += 1;
    }
    proof {
        assert(results@.take(n as int) =~= results@);
    }
    out
}

/// The sort order over results: successes before failures, then measured
/// times before missing ones, then shorter times first.
pub open spec fn node_le(a: NodeTestResult, b: NodeTestResult) -> bool {
    let asucc: int = if a.status == TestStatus::Success {
        0
    } else {
        1
    };
    let bsucc: int = if b.status == TestStatus::Success {
        0
    } else {
        1
    };
    let asome: int = if a.response_time_ms is Some {
        0
    } else {
        1
    };
    let bsome: int = if b.response_time_ms is Some {
        0
    } else {
        1
    };
    if asucc != bsucc {
        asucc < bsucc
    } else if asome != bsome {
        asome < bsome
    } else if a.response_time_ms is Some && b.response_time_ms is Some {
        a.response_time_ms->0 <= b.response_time_ms->0
    } else {
        true
    }
}

/// The whole sequence is ordered by `node_le`.
pub open spec fn nodes_sorted(s: Seq<NodeTestResult>) -> bool {
    forall|i: int, j: int| 0 <= i < j < s.len() ==> node_le(#[trigger] s[i], #[trigger] s[j])
}

/// Compares two results as `node_le` lays it out.
fn node_le_exec(a: &NodeTestResult, b: &NodeTestResult) -> (r: bool)
    ensures
        r == node_le(*a, *b),
{
    let asucc = a.is_success();
    let bsucc = b.is_success();
    if asucc != bsucc {
        return asucc;
    }
    match (&a.response_time_ms, &b.response_time_ms) {
        (Some(t1), Some(t2)) => *t1 <= *t2,
        (Some(_), None) => true,
        (None, Some(_)) => false,
        (None, None) => true,
    }
}

/// Sorts results in place: successes first, then by response time, with
/// unmeasured results last within their group. The same results come out
/// that went in.
pub fn sort_by_response_time(results: &mut Vec<NodeTestResult>)
    ensures
        nodes_sorted(final(results)@),
        final(results)@.to_multiset() == old(results)@.to_multiset(),
        final(results)@.len() == old(results)@.len(),
{
    let n = results.len();
    proof {
        broadcast use vstd::seq_lib::group_to_multiset_ensures;

    }
    if n <= 1 {
        return;
    }
    let mut i: usize = 1;
    while i < n
        invariant
            n == results@.len(),
            1 <= i <= n,
            results@.to_multiset() == old(results)@.to_multiset(),
            nodes_sorted(results@.take(i as int)),
        decreases n - i,
    {
        // Find where the element at `i` belongs within the sorted prefix.
        let mut j: usize = 0;
        while j < i && node_le_exec(&results[j], &results[i])
            invariant
                n == results@.len(),
                i < n,
                j <= i,
                forall|k: int|
                    0 <= k < j ==> node_le(
                        #[trigger] results@[k],
                        results@[i as int],
                    ),
            decreases i - j,
        {
            j += 1;
        }
        let ghost pre = results@;
        let ghost x = results@[i as int];
        let moved = results.remove(i);
        results.insert(j, moved);
        proof {
            broadcast use vstd::seq_lib::group_to_multiset_ensures;

            let removed = pre.remove(i as int);
            crate::strutil::lemma_insert_to_multiset(removed, j as int, x);
            assert(pre.to_multiset().contains(x)) by {
                assert(pre.contains(x));
            }
            assert(results@.to_multiset() =~= pre.to_multiset());
            // The new prefix of length i + 1 is ordered: everything before
            // the insertion point was at most x, and x is at most
            // everything the scan stopped on.
            assert(results@ =~= removed.insert(j as int, x));
            assert(forall|k: int| 0 <= k < j ==> #[trigger] results@[k] == pre[k]);
            assert(forall|k: int| j < k <= i ==> #[trigger] results@[k] == pre[k - 1]);
            assert(results@[j as int] == x);
            if j < i {
                assert(!node_le(pre[j as int], x));
                assert(node_le(x, pre[j as int]));
            }
            assert forall|a: int, b: int|
                0 <= a < b < i + 1 implies node_le(
                #[trigger] results@[a],
                #[trigger] results@[b],
            ) by {
                let taken = pre.take(i as int);
                if a < j && b < j {
                    assert(node_le(taken[a], taken[b]));
                } else if a < j && b == j {
                    assert(node_le(pre[a], x));
                } else if a < j && b > j {
                    assert(node_le(taken[a], taken[b - 1]));
                } else if a == j && b > j {
                    assert(node_le(x, pre[j as int]));
                    if b - 1 > j {
                        assert(node_le(taken[j as int], taken[b - 1]));
                    }
                } else if a > j {
                    assert(node_le(taken[a - 1], taken[b - 1]));
                }
            }
            assert(nodes_sorted(results@.take(i + 1)));
        }
        i += 1;
    }
    proof {
        assert(results@.take(n as int) =~= results@);
    }
}

} // verus!
