//! Weighted routing of reads over the main pool and its read-only replicas.

use vstd::prelude::*;
use vstd::seq_lib::*;
use rand::seq::SliceRandom;

verus! {

/// When connected to read replicas, this allows choosing which database
/// server to use for an operation.
#[derive(Copy, Clone, Debug, PartialEq, Eq, Structural)]
pub enum ReplicaId {
    /// The main server has write and read access.
    Main,
    /// A read replica identified by its index.
    ReadOnly(usize),
}

/// The replica that stands at position `i` of the pool list: the main pool
/// first, the read-only pools after it.
pub open spec fn replica_at(i: int) -> ReplicaId {
    if i == 0 {
        ReplicaId::Main
    } else {
        ReplicaId::ReadOnly((i - 1) as usize)
    }
}

/// The weight of pool `i`; a pool without a weight in the list has weight 1.
pub open spec fn weight_of(weights: Seq<usize>, i: int) -> nat {
    if 0 <= i < weights.len() {
        weights[i] as nat
    } else {
        1
    }
}

/// The sum of the weights of the first `pools` pools.
pub open spec fn total_weight(weights: Seq<usize>, pools: nat) -> nat
    decreases pools,
{
    if pools == 0 {
        0
    } else {
        total_weight(weights, (pools - 1) as nat) + weight_of(weights, pools - 1)
    }
}

/// The schedule before it is shuffled: each of the first `pools` pools, in
/// order, repeated as often as its weight says.
pub open spec fn weighted_order(weights: Seq<usize>, pools: nat) -> Seq<ReplicaId>
    decreases pools,
{
    if pools == 0 {
        Seq::empty()
    } else {
        weighted_order(weights, (pools - 1) as nat) + Seq::new(
            weight_of(weights, pools - 1),
            |j: int| replica_at(pools - 1),
        )
    }
}

/// Whether the replica is one of a store with `read_only` read-only
/// replicas.
pub open spec fn is_replica(replica: ReplicaId, read_only: nat) -> bool {
    match replica {
        ReplicaId::Main => true,
        ReplicaId::ReadOnly(index) => index < read_only,
    }
}

/// Whether the schedule names replicas of such a store only.
pub open spec fn names_replicas(order: Seq<ReplicaId>, read_only: nat) -> bool {
    forall|i: int| 0 <= i < order.len() ==> is_replica(#[trigger] order[i], read_only)
}

/// The choices that `n` consecutive reads make on the schedule `order` when
/// the counter starts at `start`.
pub open spec fn selections(order: Seq<ReplicaId>, start: int, n: nat) -> Seq<ReplicaId> {
    Seq::new(n, |j: int| order[(start + j) % (order.len() as int)])
}

pub proof fn lemma_weighted_order_len(weights: Seq<usize>, pools: nat)
    ensures
        weighted_order(weights, pools).len() == total_weight(weights, pools),
    decreases pools,
{
    if pools > 0 {
        lemma_weighted_order_len(weights, (pools - 1) as nat);
    }
}

proof fn lemma_constant_count(n: nat, r: ReplicaId, q: ReplicaId)
    ensures
        Seq::new(n, |j: int| r).to_multiset().count(q) == (if q == r { n } else { 0 }),
    decreases n,
{
    broadcast use vstd::multiset::group_multiset_axioms;
    let s = Seq::new(n, |j: int| r);
    if n == 0 {
        assert(s =~= Seq::<ReplicaId>::empty());
        s.to_multiset_ensures();
        assert(s.to_multiset().len() == 0);
        if s.to_multiset().count(q) > 0 {
            assert(s.contains(q));
        }
    } else {
        let t = Seq::new((n - 1) as nat, |j: int| r);
        lemma_constant_count((n - 1) as nat, r, q);
        assert(s =~= t.push(r));
        t.to_multiset_ensures();
    }
}

/// In the unshuffled schedule every pool occurs as often as its weight says.
pub proof fn lemma_weighted_order_count(weights: Seq<usize>, pools: nat, i: int)
    requires
        0 <= i <= usize::MAX,
        pools <= usize::MAX,
    ensures
        weighted_order(weights, pools).to_multiset().count(replica_at(i)) == (if i < pools {
            weight_of(weights, i)
        } else {
            0
        }),
    decreases pools,
{
    broadcast use vstd::multiset::group_multiset_axioms;
    if pools == 0 {
        let s = weighted_order(weights, pools);
        s.to_multiset_ensures();
        if s.to_multiset().count(replica_at(i)) > 0 {
            assert(s.contains(replica_at(i)));
        }
    } else {
        let head = weighted_order(weights, (pools - 1) as nat);
        let tail = Seq::new(weight_of(weights, pools - 1), |j: int| replica_at(pools - 1));
        lemma_weighted_order_count(weights, (pools - 1) as nat, i);
        lemma_constant_count(weight_of(weights, pools - 1), replica_at(pools - 1), replica_at(i));
        lemma_multiset_commutative(head, tail);
        assert(replica_at(i) == replica_at(pools - 1) <==> i == pools - 1);
    }
}

/// Over whole rounds of the schedule the router is fair: `rounds` times the
/// length of the schedule in consecutive reads pick every replica `rounds`
/// times as often as it stands in the schedule, wherever the counter starts.
pub proof fn lemma_round_robin_fair(order: Seq<ReplicaId>, start: nat, rounds: nat, r: ReplicaId)
    requires
        order.len() > 0,
    ensures
        selections(order, start as int, rounds * order.len()).to_multiset().count(r) == rounds
            * order.to_multiset().count(r),
    decreases rounds,
{
    broadcast use vstd::multiset::group_multiset_axioms;
    let len = order.len();
    if rounds == 0 {
        let s = selections(order, start as int, rounds * len);
        assert(rounds * len == 0) by (nonlinear_arith)
            requires
                rounds == 0,
        ;
        s.to_multiset_ensures();
        if s.to_multiset().count(r) > 0 {
            assert(s.contains(r));
        }
        assert(rounds * order.to_multiset().count(r) == 0) by (nonlinear_arith)
            requires
                rounds == 0,
        ;
    } else {
        let rest = ((rounds - 1) * len) as nat;
        assert(rounds * len == rest + len) by (nonlinear_arith)
            requires
                rounds > 0,
                rest == (rounds - 1) * len,
        ;
        let all = selections(order, start as int, rounds * len);
        let first = selections(order, start as int, rest);
        let last = selections(order, (start + rest) as int, len);
        assert(all =~= first + last);
        lemma_multiset_commutative(first, last);
        lemma_round_robin_fair(order, start, (rounds - 1) as nat, r);
        lemma_one_round(order, start + rest, r);
        assert(rounds * order.to_multiset().count(r) == (rounds - 1) * order.to_multiset().count(r)
            + order.to_multiset().count(r)) by (nonlinear_arith)
            requires
                rounds > 0,
        ;
    }
}

/// Replica fairness: a store whose schedule holds the replicas as often
/// as their weights say picks, over whole rounds of the schedule, the
/// replica of pool `pool` as often as its weight says, in every round.
pub proof fn lemma_replica_fairness(
    weights: Seq<usize>,
    pools: nat,
    order: Seq<ReplicaId>,
    start: nat,
    rounds: nat,
    pool: int,
)
    requires
        pools <= usize::MAX,
        0 <= pool < pools,
        order.len() > 0,
        order.to_multiset() == weighted_order(weights, pools).to_multiset(),
    ensures
        selections(order, start as int, rounds * order.len()).to_multiset().count(replica_at(pool))
            == rounds * weight_of(weights, pool),
{
    lemma_round_robin_fair(order, start, rounds, replica_at(pool));
    lemma_weighted_order_count(weights, pools, pool);
}

/// Replica fairness, within rounding: over any number of consecutive reads
/// a replica is picked as often as it stands in the schedule for each whole
/// round of the schedule that the reads make up, and for the rest of the
/// reads at most as often again.
pub proof fn lemma_fair_within_rounding(order: Seq<ReplicaId>, start: nat, reads: nat, r: ReplicaId)
    requires
        order.len() > 0,
    ensures
        (reads / order.len()) * order.to_multiset().count(r) <= selections(
            order,
            start as int,
            reads,
        ).to_multiset().count(r) <= (reads / order.len()) * order.to_multiset().count(r)
            + order.to_multiset().count(r),
{
    broadcast use vstd::multiset::group_multiset_axioms;
    let len = order.len();
    let rounds = reads / len;
    let rest = reads % len;
    vstd::arithmetic::div_mod::lemma_fundamental_div_mod(reads as int, len as int);
    assert(reads == rounds * len + rest) by (nonlinear_arith)
        requires
            reads == len * rounds + rest,
    ;
    assert(0 <= rounds * len) by (nonlinear_arith)
        requires
            rounds >= 0,
            len >= 0,
    ;
    let whole = selections(order, start as int, rounds * len);
    let tail = selections(order, (start + rounds * len) as int, rest);
    let filler = selections(order, (start + rounds * len + rest) as int, (len - rest) as nat);
    let round = selections(order, (start + rounds * len) as int, len);
    assert(selections(order, start as int, reads) =~= whole + tail);
    assert(round =~= tail + filler);
    lemma_multiset_commutative(whole, tail);
    lemma_multiset_commutative(tail, filler);
    lemma_round_robin_fair(order, start, rounds, r);
    lemma_one_round(order, start + rounds * len, r);
}

/// One round of the schedule, from any counter, is a rotation of it.
proof fn lemma_one_round(order: Seq<ReplicaId>, start: nat, r: ReplicaId)
    requires
        order.len() > 0,
    ensures
        selections(order, start as int, order.len()).to_multiset().count(r)
            == order.to_multiset().count(r),
{
    broadcast use vstd::multiset::group_multiset_axioms;
    let len = order.len() as int;
    let k = (start as int) % len;
    let round = selections(order, start as int, order.len());
    let back = order.subrange(k, len);
    let front = order.subrange(0, k);
    assert(round =~= back + front) by {
        assert forall|j: int| 0 <= j < len implies round[j] == (back + front)[j] by {
            lemma_rotate_index(start as int, j, len);
        }
    }
    assert(order =~= front + back);
    lemma_multiset_commutative(back, front);
    lemma_multiset_commutative(front, back);
}

proof fn lemma_rotate_index(start: int, j: int, len: int)
    requires
        0 <= start,
        0 <= j < len,
    ensures
        (start + j) % len == (if j < len - start % len {
            start % len + j
        } else {
            start % len + j - len
        }),
{
    vstd::arithmetic::div_mod::lemma_fundamental_div_mod(start, len);
    vstd::arithmetic::div_mod::lemma_mod_bound(start, len);
    let k = start % len;
    let q = start / len;
    assert(start == q * len + k) by (nonlinear_arith)
        requires
            start == len * q + k,
    ;
    if j < len - k {
        vstd::arithmetic::div_mod::lemma_fundamental_div_mod_converse(start + j, len, q, k + j);
    } else {
        assert((q + 1) * len == q * len + len) by (nonlinear_arith);
        vstd::arithmetic::div_mod::lemma_fundamental_div_mod_converse(
            start + j,
            len,
            q + 1,
            k + j - len,
        );
    }
}

/// The unshuffled schedule names replicas of the store only.
pub proof fn lemma_weighted_order_replicas(weights: Seq<usize>, pools: nat)
    requires
        0 < pools <= usize::MAX,
    ensures
        names_replicas(weighted_order(weights, pools), (pools - 1) as nat),
    decreases pools,
{
    let head = weighted_order(weights, (pools - 1) as nat);
    let all = weighted_order(weights, pools);
    if pools > 1 {
        lemma_weighted_order_replicas(weights, (pools - 1) as nat);
    }
    assert forall|i: int| 0 <= i < all.len() implies is_replica(
        #[trigger] all[i],
        (pools - 1) as nat,
    ) by {
        if i < head.len() {
            assert(all[i] == head[i]);
            assert(is_replica(head[i], (pools - 2) as nat));
        } else {
            assert(all[i] == replica_at(pools - 1));
        }
    }
}

/// A schedule that holds the same replicas as another one names replicas of
/// the store only when the other does.
pub proof fn lemma_shuffle_keeps_replicas(
    order: Seq<ReplicaId>,
    shuffled: Seq<ReplicaId>,
    read_only: nat,
)
    requires
        names_replicas(order, read_only),
        shuffled.to_multiset() == order.to_multiset(),
    ensures
        names_replicas(shuffled, read_only),
{
    order.to_multiset_ensures();
    shuffled.to_multiset_ensures();
    assert forall|i: int| 0 <= i < shuffled.len() implies is_replica(
        #[trigger] shuffled[i],
        read_only,
    ) by {
        assert(shuffled.contains(shuffled[i]));
        assert(order.to_multiset().count(shuffled[i]) > 0);
        assert(order.contains(shuffled[i]));
        let j = choose|j: int| 0 <= j < order.len() && order[j] == shuffled[i];
        assert(is_replica(order[j], read_only));
    }
}

/// Shuffles the schedule in place with `rand`'s `SliceRandom::shuffle` and the
/// thread-local generator. The shuffle only swaps elements, so the result
/// holds the same replicas as often as before; nothing is said of their order.
#[verifier::external_body]
pub(crate) fn shuffle_order(order: &mut Vec<ReplicaId>)
    ensures
        final(order)@.to_multiset() == old(order)@.to_multiset(),
{
    let mut rng = rand::thread_rng();
    order.shuffle(&mut rng);
}

/// Builds the unshuffled schedule for `pools` pools.
pub fn build_weighted_order(weights: &Vec<usize>, pools: usize) -> (order: Vec<ReplicaId>)
    ensures
        order@ == weighted_order(weights@, pools as nat),
{
    let mut order: Vec<ReplicaId> = Vec::new();
    let mut i: usize = 0;
    while i < pools
        invariant
            i <= pools,
            order@ == weighted_order(weights@, i as nat),
        decreases pools - i,
    {
        let weight: usize = if i < weights.len() {
            weights[i]
        } else {
            1
        };
        let replica = if i == 0 {
            ReplicaId::Main
        } else {
            ReplicaId::ReadOnly(i - 1)
        };
        let ghost before = order@;
        let mut j: usize = 0;
        while j < weight
            invariant
                j <= weight,
                order@ == before + Seq::new(j as nat, |k: int| replica),
            decreases weight - j,
        {
            order.push(replica);
            j = j + 1;
            assert(order@ =~= before + Seq::new(j as nat, |k: int| replica));
        }
        assert(weight == weight_of(weights@, i as int));
        assert(replica == replica_at(i as int));
        assert(Seq::new(weight as nat, |k: int| replica) =~= Seq::new(
            weight_of(weights@, i as int),
            |k: int| replica_at(i as int),
        ));
        i = i + 1;
    }
    order
}

} // verus!
