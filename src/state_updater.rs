//! Decisions of the status reconciler: the order in which it visits the
//! resources (most critical first), how many of a resource's pods run, and
//! when repeated listing failures make it stop.
use vstd::prelude::*;

verus! {

/// Consecutive failures to list the resources after which the status
/// reconciler stops.
pub const MAX_LIST_FAILURES: usize = 10;

/// The phase of a running pod.
pub const RUNNING: &'static str = "Running";

/// Resource `a` is visited before resource `b`: it is more critical, or
/// as critical and listed earlier.
pub open spec fn visited_before(c: Seq<u32>, a: int, b: int) -> bool {
    c[a] < c[b] || (c[a] == c[b] && a < b)
}

pub open spec fn appears(order: Seq<usize>, x: int) -> bool {
    exists|i: int| 0 <= i < order.len() && #[trigger] order[i] == x
}

/// `order` visits each of the `c.len()` resources once, by ascending
/// criticality, keeping the listed order among equals.
pub open spec fn is_processing_order(c: Seq<u32>, order: Seq<usize>) -> bool {
    &&& order.len() == c.len()
    &&& forall|i: int| 0 <= i < order.len() ==> #[trigger] order[i] < c.len()
    &&& forall|i: int, j: int|
        0 <= i < j < order.len() ==> visited_before(c, #[trigger] order[i] as int, #[trigger] order[j] as int)
    &&& forall|x: int| 0 <= x < c.len() ==> #[trigger] appears(order, x)
}

/// The order in which to visit resources of the given criticalities: a
/// stable sort by criticality, as indices into the list.
pub fn processing_order(criticalities: &Vec<u32>) -> (r: Vec<usize>)
    ensures
        is_processing_order(criticalities@, r@),
{
    let ghost c = criticalities@;
    let n = criticalities.len();
    let mut order: Vec<usize> = Vec::new();
    let mut k: usize = 0;
    while k < n
        invariant
            c == criticalities@,
            n == c.len(),
            k <= n,
            order@.len() == k,
            forall|i: int| 0 <= i < order@.len() ==> #[trigger] order@[i] < k,
            forall|i: int, j: int|
                0 <= i < j < order@.len() ==> visited_before(c, #[trigger] order@[i] as int, #[trigger] order@[j] as int),
            forall|x: int| 0 <= x < k ==> #[trigger] appears(order@, x),
        decreases n - k,
    {
        let key = criticalities[k];
        let mut p: usize = 0;
        while p < order.len() && criticalities[order[p]] <= key
            invariant
                c == criticalities@,
                n == c.len(),
                k < n,
                key == c[k as int],
                order@.len() == k,
                p <= k,
                forall|i: int| 0 <= i < order@.len() ==> #[trigger] order@[i] < k,
                forall|i: int| 0 <= i < p ==> c[#[trigger] order@[i] as int] <= key,
            decreases k - p,
        {
            p = p + 1;
        }
        let ghost before = order@;
        order.insert(p, k);
        proof {
            assert forall|i: int| 0 <= i < order@.len() implies #[trigger] order@[i] < k + 1 by {
                if i < p {
                    assert(order@[i] == before[i]);
                } else if i > p {
                    assert(order@[i] == before[i - 1]);
                }
            }
            assert forall|i: int, j: int|
                0 <= i < j < order@.len() implies visited_before(c, #[trigger] order@[i] as int, #[trigger] order@[j] as int) by {
                if j < p {
                    assert(order@[i] == before[i] && order@[j] == before[j]);
                } else if j == p {
                    assert(order@[i] == before[i]);
                    assert(c[before[i] as int] <= key);
                } else if i < p {
                    assert(order@[i] == before[i] && order@[j] == before[j - 1]);
                } else if i == p {
                    assert(order@[j] == before[j - 1]);
                    assert(c[before[p as int] as int] > key);
                    if p < j - 1 {
                        assert(visited_before(c, before[p as int] as int, before[j - 1] as int));
                    }
                } else {
                    assert(order@[i] == before[i - 1] && order@[j] == before[j - 1]);
                }
            }
            assert forall|x: int| 0 <= x < k + 1 implies #[trigger] appears(order@, x) by {
                if x == k {
                    assert(order@[p as int] == x);
                } else {
                    assert(appears(before, x));
                    let i = choose|i: int| 0 <= i < before.len() && #[trigger] before[i] == x;
                    if i < p {
                        assert(order@[i] == x);
                    } else {
                        assert(order@[i + 1] == x);
                    }
                }
            }
        }
        k = k + 1;
    }
    order
}

pub open spec fn is_running(phase: Option<String>) -> bool {
    match phase {
        Some(p) => p@ == RUNNING@,
        None => false,
    }
}

/// Number of the pods whose phase is `Running`.
pub open spec fn running_count(phases: Seq<Option<String>>) -> nat
    decreases phases.len(),
{
    if phases.len() == 0 {
        0
    } else {
        running_count(phases.drop_last()) + if is_running(phases.last()) {
            1nat
        } else {
            0nat
        }
    }
}

/// Counts the running pods among pods of the given phases, saturating at
/// `i32::MAX`.
pub fn count_running(phases: &Vec<Option<String>>) -> (r: i32)
    ensures
        r == if running_count(phases@) > i32::MAX {
            i32::MAX as int
        } else {
            running_count(phases@) as int
        },
{
    let running = String::from_str(RUNNING);
    let mut count: i32 = 0;
    let mut i: usize = 0;
    while i < phases.len()
        invariant
            running@ == RUNNING@,
            i <= phases@.len(),
            count == if running_count(phases@.subrange(0, i as int)) > i32::MAX {
                i32::MAX as int
            } else {
                running_count(phases@.subrange(0, i as int)) as int
            },
        decreases phases@.len() - i,
    {
        assert(phases@.subrange(0, i + 1).drop_last() =~= phases@.subrange(0, i as int));
        let up = match &phases[i] {
            Some(p) => *p == running,
            None => false,
        };
        if up && count < i32::MAX {
            count = count + 1;
        }
        i = i + 1;
    }
    assert(phases@.subrange(0, phases@.len() as int) =~= phases@);
    count
}

/// The status reconciler's count of consecutive listing failures after
/// one more attempt, and whether it stops.
pub fn after_list_attempt(failures: usize, listed: bool) -> (r: (usize, bool))
    ensures
        listed ==> r == (0usize, false),
        !listed ==> r.0 == if failures == usize::MAX {
            failures as int
        } else {
            failures + 1
        } && r.1 == (r.0 >= MAX_LIST_FAILURES),
{
    if listed {
        (0, false)
    } else {
        let f = if failures == usize::MAX {
            failures
        } else {
            failures + 1
        };
        (f, f >= MAX_LIST_FAILURES)
    }
}

} // verus!
