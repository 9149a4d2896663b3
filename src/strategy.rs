//! Restart strategies and the set of children each one restarts.
use vstd::prelude::*;

verus! {

/// Which siblings restart when one child fails.
#[derive(Clone, Copy, Debug, PartialEq, Eq, Structural)]
pub enum RestartStrategy {
    /// Only the failed child restarts.
    OneForOne,
    /// Every child restarts.
    OneForAll,
    /// The failed child and every child registered after it restart.
    RestForOne,
}

/// The children that restart, in start order, when the child at position
/// `failed` of `order` fails under `strategy`.
pub open spec fn affected_spec(strategy: RestartStrategy, failed: int, order: Seq<u64>) -> Seq<u64> {
    match strategy {
        RestartStrategy::OneForOne => seq![order[failed]],
        RestartStrategy::OneForAll => order,
        RestartStrategy::RestForOne => order.subrange(failed, order.len() as int),
    }
}

/// `i` is the first position of `id` in `order`.
pub open spec fn first_position(order: Seq<u64>, id: u64, i: int) -> bool {
    0 <= i < order.len() && order[i] == id && forall|j: int| 0 <= j < i ==> order[j] != id
}

/// The position of `id` in `order`, if it is there.
pub fn position_of(order: &Vec<u64>, id: u64) -> (r: Option<usize>)
    ensures
        r is None <==> !order@.contains(id),
        r matches Some(i) ==> first_position(order@, id, i as int),
{
    let mut i: usize = 0;
    while i < order.len()
        invariant
            i <= order@.len(),
            forall|j: int| 0 <= j < i ==> order@[j] != id,
        decreases order@.len() - i,
    {
        if order[i] == id {
            return Some(i);
        }
        i = i + 1;
    }
    None
}

/// The children that restart, in start order, when the child at position
/// `failed` of `order` fails under `strategy`.
pub fn affected_at(strategy: RestartStrategy, failed: usize, order: &Vec<u64>) -> (r: Vec<u64>)
    requires
        failed < order@.len(),
    ensures
        r@ == affected_spec(strategy, failed as int, order@),
{
    let mut v: Vec<u64> = Vec::new();
    match strategy {
        RestartStrategy::OneForOne => {
            v.push(order[failed]);
            proof {
                assert(v@ =~= affected_spec(strategy, failed as int, order@));
            }
        },
        _ => {
            let start: usize = match strategy {
                RestartStrategy::OneForAll => 0,
                _ => failed,
            };
            let mut k: usize = start;
            while k < order.len()
                invariant
                    start <= k <= order@.len(),
                    v@ == order@.subrange(start as int, k as int),
                decreases order@.len() - k,
            {
                v.push(order[k]);
                k = k + 1;
                proof {
                    assert(v@ =~= order@.subrange(start as int, k as int));
                }
            }
            proof {
                assert(order@.subrange(0, order@.len() as int) =~= order@);
            }
        },
    }
    v
}

/// The children that restart, in start order, when `failed_id` fails under
/// `strategy`; `None` when `failed_id` is not in `order`. The caller stops
/// them in the reverse of that order before starting them again.
pub fn affected_children(strategy: RestartStrategy, failed_id: u64, order: &Vec<u64>) -> (r: Option<Vec<u64>>)
    ensures
        r is None <==> !order@.contains(failed_id),
        r matches Some(v) ==> exists|i: int|
            first_position(order@, failed_id, i) && v@ == affected_spec(strategy, i, order@),
{
    match position_of(order, failed_id) {
        None => None,
        Some(p) => Some(affected_at(strategy, p, order)),
    }
}

/// The reverse of `s`: the order in which a started sequence is stopped.
pub open spec fn reversed(s: Seq<u64>) -> Seq<u64> {
    Seq::new(s.len(), |i: int| s[s.len() - 1 - i])
}

/// `s` in reverse order.
pub fn reverse(s: &Vec<u64>) -> (r: Vec<u64>)
    ensures
        r@ == reversed(s@),
{
    let mut r: Vec<u64> = Vec::new();
    let mut k: usize = s.len();
    while k > 0
        invariant
            k <= s@.len(),
            r@.len() == s@.len() - k,
            forall|j: int| 0 <= j < r@.len() ==> r@[j] == s@[s@.len() - 1 - j],
        decreases k,
    {
        k = k - 1;
        r.push(s[k]);
    }
    proof {
        assert(r@ =~= reversed(s@));
    }
    r
}

/// The position of the failed child among the children that restart, when
/// it is at position `failed` of the start order.
pub open spec fn failed_slot(strategy: RestartStrategy, failed: int) -> int {
    match strategy {
        RestartStrategy::OneForAll => failed,
        _ => 0,
    }
}

/// The children to stop, in that order, before a restart: those that
/// restart, but for the failed child, which has already stopped, in reverse
/// start order.
pub open spec fn stops_spec(strategy: RestartStrategy, failed: int, order: Seq<u64>) -> Seq<u64> {
    reversed(affected_spec(strategy, failed, order).remove(failed_slot(strategy, failed)))
}

/// Only the failed child restarts under `OneForOne`: no other running child
/// is stopped or started.
pub proof fn lemma_one_for_one_isolates(order: Seq<u64>, failed: int, other: u64)
    requires
        0 <= failed < order.len(),
        other != order[failed],
    ensures
        affected_spec(RestartStrategy::OneForOne, failed, order) == seq![order[failed]],
        !affected_spec(RestartStrategy::OneForOne, failed, order).contains(other),
        stops_spec(RestartStrategy::OneForOne, failed, order) == Seq::<u64>::empty(),
{
    assert(stops_spec(RestartStrategy::OneForOne, failed, order) =~= Seq::<u64>::empty());
    let a = affected_spec(RestartStrategy::OneForOne, failed, order);
    assert(a[0] == order[failed]);
}

/// Under `OneForAll` a failure in any child restarts every child: the
/// others are stopped in reverse start order, and all are started again in
/// start order.
pub proof fn lemma_one_for_all_restarts_every_child(order: Seq<u64>, failed: int)
    requires
        0 <= failed < order.len(),
    ensures
        affected_spec(RestartStrategy::OneForAll, failed, order) == order,
        forall|x: u64| order.contains(x) ==> affected_spec(RestartStrategy::OneForAll, failed, order).contains(x),
        stops_spec(RestartStrategy::OneForAll, failed, order) == reversed(order.remove(failed)),
{
}

/// Under `RestForOne`, with children started in the order `[a, b, c]`, a
/// failure in `b` restarts exactly `b` and `c`: `c` is stopped, then `b`
/// and `c` are started, and `a` is left alone.
pub proof fn lemma_rest_for_one_restarts_later_children(a: u64, b: u64, c: u64)
    requires
        a != b,
        a != c,
        b != c,
    ensures
        affected_spec(RestartStrategy::RestForOne, 1, seq![a, b, c]) == seq![b, c],
        !affected_spec(RestartStrategy::RestForOne, 1, seq![a, b, c]).contains(a),
        stops_spec(RestartStrategy::RestForOne, 1, seq![a, b, c]) == seq![c],
{
    assert(stops_spec(RestartStrategy::RestForOne, 1, seq![a, b, c]) =~= seq![c]);
    let r = affected_spec(RestartStrategy::RestForOne, 1, seq![a, b, c]);
    assert(r =~= seq![b, c]);
    assert(r[0] != a && r[1] != a);
}

} // verus!
