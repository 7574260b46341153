//! The deterministic scheduler. Weights are first reduced by the greatest
//! common divisor of all weights; each task or task set then gets a bucket of
//! `weight / gcd` references, and the chosen policy lays the buckets out:
//! round robin takes one reference from each non-empty bucket in turn, serial
//! concatenates the buckets in definition order, and random lays them out in
//! a random order. Whatever the policy, the output is a permutation of the
//! same multiset: each entry appears exactly `weight / gcd` times.

use vstd::prelude::*;
use vstd::multiset::Multiset;
use vstd::seq_lib::lemma_multiset_commutative;
use vstd::seq_lib::to_multiset_build;
use vstd::seq_lib::to_multiset_contains;
use vstd::seq_lib::to_multiset_len;
use vstd::seq_lib::to_multiset_remove;
use vstd::arithmetic::div_mod::lemma_fundamental_div_mod;
use vstd::arithmetic::div_mod::lemma_mod_multiples_basic;

use crate::swanling::{SwanlingTask, SwanlingTaskSet, WeightedSwanlingTasks};
use crate::util;
use crate::SwanlingScheduler;

verus! {

broadcast use vstd::multiset::group_multiset_axioms;

/// `n` copies of the value `v`.
pub open spec fn repeat_val(v: usize, n: nat) -> Seq<usize> {
    Seq::new(n, |i: int| v)
}

/// A bucket list laid out serially: each bucket's value, repeated as many
/// times as the bucket holds, in definition order.
pub open spec fn buckets_flat(b: Seq<(usize, usize)>) -> Seq<usize>
    decreases b.len(),
{
    if b.len() == 0 {
        Seq::empty()
    } else {
        repeat_val(b[0].0, b[0].1 as nat) + buckets_flat(b.drop_first())
    }
}

/// The same layout with each bucket cut down to the count still unconsumed.
pub open spec fn counted_flat(b: Seq<(usize, usize)>, counts: Seq<usize>) -> Seq<usize>
    decreases b.len(),
{
    if b.len() == 0 {
        Seq::empty()
    } else {
        repeat_val(b[0].0, counts[0] as nat) + counted_flat(b.drop_first(), counts.drop_first())
    }
}

/// The total number of references a bucket list holds.
pub open spec fn sum_counts(b: Seq<(usize, usize)>) -> nat
    decreases b.len(),
{
    if b.len() == 0 {
        0
    } else {
        b[0].1 as nat + sum_counts(b.drop_first())
    }
}

/// With every count full, the counted layout is the serial layout.
proof fn lemma_counted_flat_full(b: Seq<(usize, usize)>, counts: Seq<usize>)
    requires
        counts.len() == b.len(),
        forall|i: int| 0 <= i < b.len() ==> counts[i] == b[i].1,
    ensures
        counted_flat(b, counts) == buckets_flat(b),
    decreases b.len(),
{
    if b.len() > 0 {
        lemma_counted_flat_full(b.drop_first(), counts.drop_first());
        assert(counted_flat(b, counts) =~= buckets_flat(b));
    } else {
        assert(counted_flat(b, counts) =~= buckets_flat(b));
    }
}

/// With every count zero, nothing is left to lay out.
proof fn lemma_counted_flat_zero(b: Seq<(usize, usize)>, counts: Seq<usize>)
    requires
        counts.len() == b.len(),
        forall|i: int| 0 <= i < b.len() ==> counts[i] == 0,
    ensures
        counted_flat(b, counts) == Seq::<usize>::empty(),
    decreases b.len(),
{
    if b.len() > 0 {
        lemma_counted_flat_zero(b.drop_first(), counts.drop_first());
        assert(repeat_val(b[0].0, counts[0] as nat) =~= Seq::<usize>::empty());
        assert(counted_flat(b, counts) =~= Seq::<usize>::empty());
    } else {
        assert(counted_flat(b, counts) =~= Seq::<usize>::empty());
    }
}

/// Taking one reference out of bucket `i` takes exactly one copy of that
/// bucket's value out of the remaining layout.
proof fn lemma_counted_flat_decrement(b: Seq<(usize, usize)>, counts: Seq<usize>, i: int)
    requires
        counts.len() == b.len(),
        0 <= i < b.len(),
        counts[i] >= 1,
    ensures
        counted_flat(b, counts).to_multiset() =~= counted_flat(
            b,
            counts.update(i, (counts[i] - 1) as usize),
        ).to_multiset().insert(b[i].0),
    decreases b.len(),
{
    let counts2 = counts.update(i, (counts[i] - 1) as usize);
    if i == 0 {
        let v = b[0].0;
        let n = counts[0] as nat;
        let tail = counted_flat(b.drop_first(), counts.drop_first());
        assert(counts2.drop_first() =~= counts.drop_first());
        assert(repeat_val(v, n) =~= repeat_val(v, (n - 1) as nat).push(v));
        lemma_multiset_commutative(repeat_val(v, n), tail);
        lemma_multiset_commutative(repeat_val(v, (n - 1) as nat), tail);
        to_multiset_build(repeat_val(v, (n - 1) as nat), v);
        assert(counted_flat(b, counts2) =~= repeat_val(v, (n - 1) as nat) + tail);
        assert(counted_flat(b, counts).to_multiset() =~= counted_flat(
            b,
            counts2,
        ).to_multiset().insert(v));
    } else {
        lemma_counted_flat_decrement(b.drop_first(), counts.drop_first(), i - 1);
        let head = repeat_val(b[0].0, counts[0] as nat);
        let tail = counted_flat(b.drop_first(), counts.drop_first());
        let tail2 = counted_flat(b.drop_first(), counts2.drop_first());
        assert(counts2.drop_first() =~= counts.drop_first().update(
            i - 1,
            (counts[i] - 1) as usize,
        ));
        assert(counts2[0] == counts[0]);
        assert(counted_flat(b, counts2) =~= head + tail2);
        lemma_multiset_commutative(head, tail);
        lemma_multiset_commutative(head, tail2);
        assert(counted_flat(b, counts).to_multiset() =~= counted_flat(
            b,
            counts2,
        ).to_multiset().insert(b[i].0));
    }
}

/// The serial layout of one more bucket appends that bucket's references.
proof fn lemma_buckets_flat_push(b: Seq<(usize, usize)>, p: (usize, usize))
    ensures
        buckets_flat(b.push(p)) == buckets_flat(b) + repeat_val(p.0, p.1 as nat),
    decreases b.len(),
{
    if b.len() == 0 {
        assert(b.push(p).drop_first() =~= Seq::<(usize, usize)>::empty());
        assert(b.push(p)[0] == p);
        assert(buckets_flat(b.push(p)) == repeat_val(p.0, p.1 as nat) + buckets_flat(
            b.push(p).drop_first(),
        ));
        assert(buckets_flat(b.push(p)) =~= buckets_flat(b) + repeat_val(p.0, p.1 as nat));
    } else {
        lemma_buckets_flat_push(b.drop_first(), p);
        assert(b.push(p).drop_first() =~= b.drop_first().push(p));
        assert(b.push(p)[0] == b[0]);
        assert(buckets_flat(b.push(p)) == repeat_val(b[0].0, b[0].1 as nat) + buckets_flat(
            b.drop_first().push(p),
        ));
        assert(buckets_flat(b.push(p)) =~= buckets_flat(b) + repeat_val(p.0, p.1 as nat));
    }
}

/// The serial layout holds exactly the total count of references.
proof fn lemma_buckets_flat_len(b: Seq<(usize, usize)>)
    ensures
        buckets_flat(b).len() == sum_counts(b),
    decreases b.len(),
{
    if b.len() > 0 {
        lemma_buckets_flat_len(b.drop_first());
    }
}

/// The gcd of two positive numbers is positive and divides both.
pub proof fn lemma_gcd_divides(a: nat, b: nat)
    requires
        a >= 1,
    ensures
        util::spec_gcd(a, b) >= 1,
        a % util::spec_gcd(a, b) == 0,
        b % util::spec_gcd(a, b) == 0,
    decreases b,
{
    let g = util::spec_gcd(a, b);
    if b == 0 {
        assert(a % a == 0) by {
            lemma_mod_multiples_basic(1int, a as int);
        }
        assert(b % a == 0);
    } else {
        lemma_gcd_divides(b, a % b);
        assert(g == util::spec_gcd(b, a % b));
        lemma_fundamental_div_mod(a as int, b as int);
        lemma_fundamental_div_mod(b as int, g as int);
        lemma_fundamental_div_mod((a % b) as int, g as int);
        let k1 = b as int / g as int;
        let k2 = (a % b) as int / g as int;
        assert(a as int == (k1 * (a as int / b as int) + k2) * g as int) by (nonlinear_arith)
            requires
                a as int == b as int * (a as int / b as int) + (a as int % b as int),
                b as int == g as int * k1 + 0,
                (a % b) as int == g as int * k2 + 0,
        {
        }
        lemma_mod_multiples_basic(k1 * (a as int / b as int) + k2, g as int);
    }
}

/// A positive divisor of a positive number is no larger than it, and the
/// quotient is at least one.
pub proof fn lemma_divides_le(a: nat, g: nat)
    requires
        a >= 1,
        g >= 1,
        a % g == 0,
    ensures
        g <= a,
        a / g >= 1,
{
    if g > a {
        assert(a % g == a) by (nonlinear_arith)
            requires
                0 <= a < g,
        {
        }
    }
    assert(a / g >= 1) by (nonlinear_arith)
        requires
            1 <= g <= a,
    {
    }
}

/// The folded gcd of a weight list, zero standing for "none seen yet", as the
/// scheduler accumulates it task by task.
pub open spec fn weights_gcd_fold(ws: Seq<usize>, acc: nat) -> nat
    decreases ws.len(),
{
    if ws.len() == 0 {
        acc
    } else {
        weights_gcd_fold(
            ws.drop_first(),
            if acc == 0 {
                ws[0] as nat
            } else {
                util::spec_gcd(acc, ws[0] as nat)
            },
        )
    }
}

/// The gcd of all weights in a list.
pub open spec fn weights_gcd(ws: Seq<usize>) -> nat {
    weights_gcd_fold(ws, 0)
}

/// The folded gcd of positive weights is positive and divides every weight
/// and the accumulator.
pub proof fn lemma_weights_gcd_fold(ws: Seq<usize>, acc: nat)
    requires
        forall|i: int| 0 <= i < ws.len() ==> #[trigger] ws[i] >= 1,
        acc >= 1 || ws.len() >= 1,
    ensures
        weights_gcd_fold(ws, acc) >= 1,
        acc >= 1 ==> acc % weights_gcd_fold(ws, acc) == 0,
        forall|i: int|
            0 <= i < ws.len() ==> #[trigger] (ws[i] as nat) % weights_gcd_fold(ws, acc) == 0,
    decreases ws.len(),
{
    if ws.len() == 0 {
    } else {
        let w0 = ws[0] as nat;
        let acc2: nat = if acc == 0 {
            w0
        } else {
            util::spec_gcd(acc, w0)
        };
        let g = weights_gcd_fold(ws, acc);
        if acc >= 1 {
            lemma_gcd_divides(acc, w0);
        }
        assert(acc2 >= 1);
        lemma_weights_gcd_fold(ws.drop_first(), acc2);
        assert(acc2 % g == 0);
        // The divisor of the new accumulator divides both the old accumulator
        // and the first weight.
        if acc >= 1 {
            lemma_divides_transitive(acc, acc2, g);
            lemma_divides_transitive(w0, acc2, g);
        }
        assert forall|i: int| 0 <= i < ws.len() implies #[trigger] (ws[i] as nat) % g == 0 by {
            if i == 0 {
            } else {
                assert(ws.drop_first()[i - 1] == ws[i]);
            }
        }
    }
}

/// Divisibility is transitive: if `d` divides `a` and `g` divides `d`, then
/// `g` divides `a`.
pub proof fn lemma_divides_transitive(a: nat, d: nat, g: nat)
    requires
        d >= 1,
        g >= 1,
        a % d == 0,
        d % g == 0,
    ensures
        a % g == 0,
{
    lemma_fundamental_div_mod(a as int, d as int);
    lemma_fundamental_div_mod(d as int, g as int);
    let k1 = a as int / d as int;
    let k2 = d as int / g as int;
    assert(a as int == (k1 * k2) * g as int) by (nonlinear_arith)
        requires
            a as int == d as int * k1 + 0,
            d as int == g as int * k2 + 0,
    {
    }
    lemma_mod_multiples_basic(k1 * k2, g as int);
}


/// The counts of a bucket list, in order.
pub open spec fn counts_of(b: Seq<(usize, usize)>) -> Seq<usize> {
    b.map_values(|p: (usize, usize)| p.1)
}

/// The total of a count list.
pub open spec fn sum_vals(c: Seq<usize>) -> nat
    decreases c.len(),
{
    if c.len() == 0 {
        0
    } else {
        c[0] as nat + sum_vals(c.drop_first())
    }
}

/// The counts left after one round takes one reference from each non-empty
/// bucket.
pub open spec fn rr_dec(counts: Seq<usize>) -> Seq<usize> {
    counts.map_values(
        |c: usize|
            if c > 0 {
                (c - 1) as usize
            } else {
                0usize
            },
    )
}

/// The values one round emits: each bucket with a reference left, in slice
/// order.
pub open spec fn rr_round(b: Seq<(usize, usize)>, counts: Seq<usize>) -> Seq<usize>
    decreases b.len(),
{
    if b.len() == 0 {
        Seq::empty()
    } else {
        (if counts[0] > 0 {
            seq![b[0].0]
        } else {
            Seq::empty()
        }) + rr_round(b.drop_first(), counts.drop_first())
    }
}

/// The round-robin continuation from given counts: one round after another
/// until every bucket is empty.
pub open spec fn rr_from(b: Seq<(usize, usize)>, counts: Seq<usize>) -> Seq<usize>
    decreases sum_vals(counts),
{
    if sum_vals(counts) == 0 {
        Seq::empty()
    } else if sum_vals(rr_dec(counts)) < sum_vals(counts) {
        rr_round(b, counts) + rr_from(b, rr_dec(counts))
    } else {
        Seq::empty()
    }
}

/// The round-robin layout of a bucket list: one reference from each
/// non-empty bucket per round, in slice order, round after round. This is a
/// function of the buckets alone, so the round-robin policy is
/// deterministic.
pub open spec fn rr_layout(b: Seq<(usize, usize)>) -> Seq<usize> {
    rr_from(b, counts_of(b))
}

/// The counts of a bucket list total its references.
proof fn lemma_counts_of_sum(b: Seq<(usize, usize)>)
    ensures
        sum_vals(counts_of(b)) == sum_counts(b),
    decreases b.len(),
{
    if b.len() > 0 {
        lemma_counts_of_sum(b.drop_first());
        assert(counts_of(b).drop_first() =~= counts_of(b.drop_first()));
        assert(counts_of(b)[0] == b[0].1);
    }
}

/// Replacing one count changes the total by the difference.
proof fn lemma_sum_vals_update(c: Seq<usize>, i: int, v: usize)
    requires
        0 <= i < c.len(),
    ensures
        sum_vals(c.update(i, v)) == sum_vals(c) - c[i] + v,
    decreases c.len(),
{
    let c2 = c.update(i, v);
    if i == 0 {
        assert(c2.drop_first() =~= c.drop_first());
        assert(c2[0] == v);
    } else {
        lemma_sum_vals_update(c.drop_first(), i - 1, v);
        assert(c2.drop_first() =~= c.drop_first().update(i - 1, v));
        assert(c2[0] == c[0]);
    }
}

/// One more bucket extends a round by at most one emission.
proof fn lemma_rr_round_take(b: Seq<(usize, usize)>, c: Seq<usize>, i: int)
    requires
        0 <= i < b.len(),
        c.len() == b.len(),
    ensures
        rr_round(b.take(i + 1), c.take(i + 1)) == rr_round(b.take(i), c.take(i)) + (if c[i] > 0 {
            seq![b[i].0]
        } else {
            Seq::<usize>::empty()
        }),
    decreases i,
{
    if i == 0 {
        assert(b.take(1)[0] == b[0]);
        assert(c.take(1)[0] == c[0]);
        assert(b.take(1).drop_first() =~= Seq::<(usize, usize)>::empty());
        assert(c.take(1).drop_first() =~= Seq::<usize>::empty());
        assert(b.take(0) =~= Seq::<(usize, usize)>::empty());
        assert(c.take(0) =~= Seq::<usize>::empty());
        assert(rr_round(b.take(0), c.take(0)) == Seq::<usize>::empty());
        assert(rr_round(b.take(1), c.take(1)) == (if c.take(1)[0] > 0 {
            seq![b.take(1)[0].0]
        } else {
            Seq::<usize>::empty()
        }) + rr_round(b.take(1).drop_first(), c.take(1).drop_first()));
        assert(rr_round(b.take(1).drop_first(), c.take(1).drop_first()) == Seq::<usize>::empty());
        assert(rr_round(b.take(1), c.take(1)) =~= rr_round(b.take(0), c.take(0)) + (if c[0] > 0 {
            seq![b[0].0]
        } else {
            Seq::<usize>::empty()
        }));
    } else {
        lemma_rr_round_take(b.drop_first(), c.drop_first(), i - 1);
        assert(b.take(i + 1)[0] == b[0]);
        assert(c.take(i + 1)[0] == c[0]);
        assert(b.take(i + 1).drop_first() =~= b.drop_first().take(i));
        assert(c.take(i + 1).drop_first() =~= c.drop_first().take(i));
        assert(b.take(i).drop_first() =~= b.drop_first().take(i - 1));
        assert(c.take(i).drop_first() =~= c.drop_first().take(i - 1));
        assert(b.drop_first()[i - 1] == b[i]);
        assert(c.drop_first()[i - 1] == c[i]);
        assert(b.take(i)[0] == b[0]);
        assert(c.take(i)[0] == c[0]);
        assert(rr_round(b.take(i + 1), c.take(i + 1)) =~= rr_round(b.take(i), c.take(i)) + (if c[i]
            > 0 {
            seq![b[i].0]
        } else {
            Seq::<usize>::empty()
        }));
    }
}

/// Lays out a weighted bucket list in the order the chosen policy gives.
/// Whatever the policy, the output holds exactly the bucket references:
/// round robin takes one reference from each non-empty bucket per round,
/// serial keeps definition order, and random is a random permutation.
pub fn schedule_unsequenced_tasks(
    available_unsequenced_tasks: &Vec<(usize, usize)>,
    total_tasks: usize,
    scheduler: &SwanlingScheduler,
) -> (out: Vec<usize>)
    requires
        total_tasks == sum_counts(available_unsequenced_tasks@),
    ensures
        out@.to_multiset() == buckets_flat(available_unsequenced_tasks@).to_multiset(),
        out@.len() == total_tasks,
        scheduler is Serial ==> out@ == buckets_flat(available_unsequenced_tasks@),
        scheduler is RoundRobin ==> out@ == rr_layout(available_unsequenced_tasks@),
{
    match scheduler {
        SwanlingScheduler::RoundRobin => schedule_round_robin(
            available_unsequenced_tasks,
            total_tasks,
        ),
        SwanlingScheduler::Serial => schedule_serial(available_unsequenced_tasks, total_tasks),
        SwanlingScheduler::Random => {
            let serial = schedule_serial(available_unsequenced_tasks, total_tasks);
            shuffle(serial)
        },
    }
}

/// One reference from each non-empty bucket per round, until all are placed.
fn schedule_round_robin(buckets: &Vec<(usize, usize)>, total_tasks: usize) -> (out: Vec<usize>)
    requires
        total_tasks == sum_counts(buckets@),
    ensures
        out@.to_multiset() == buckets_flat(buckets@).to_multiset(),
        out@.len() == total_tasks,
        out@ == rr_layout(buckets@),
{
    let ghost b = buckets@;
    let mut remaining: Vec<usize> = Vec::new();
    let mut i: usize = 0;
    while i < buckets.len()
        invariant
            i <= b.len(),
            b == buckets@,
            remaining@.len() == i,
            forall|j: int| 0 <= j < i ==> remaining@[j] == b[j].1,
        decreases b.len() - i,
    {
        remaining.push(buckets[i].1);
        i = i + 1;
    }
    let mut out: Vec<usize> = Vec::new();
    let mut left: usize = total_tasks;
    proof {
        lemma_counted_flat_full(b, remaining@);
        lemma_buckets_flat_len(b);
        to_multiset_len(counted_flat(b, remaining@));
        lemma_multiset_commutative(out@, counted_flat(b, remaining@));
        assert(out@ + counted_flat(b, remaining@) =~= counted_flat(b, remaining@));
        assert(remaining@ =~= counts_of(b));
        lemma_counts_of_sum(b);
        assert(out@ + rr_from(b, remaining@) =~= rr_from(b, remaining@));
        assert(rr_layout(b) == out@ + rr_from(b, remaining@));
    }
    while left > 0
        invariant
            b == buckets@,
            remaining@.len() == b.len(),
            out@.to_multiset().add(counted_flat(b, remaining@).to_multiset()) =~= buckets_flat(
                b,
            ).to_multiset(),
            counted_flat(b, remaining@).to_multiset().len() == left,
            out@.len() + left == total_tasks,
            sum_vals(remaining@) == left,
            rr_layout(b) == out@ + rr_from(b, remaining@),
        decreases left,
    {
        let ghost left_at_round_start = left;
        let ghost rem0 = remaining@;
        let ghost out0 = out@;
        let mut i: usize = 0;
        proof {
            assert(b.take(0) =~= Seq::<(usize, usize)>::empty());
            assert(rem0.take(0) =~= Seq::<usize>::empty());
            assert(out@ =~= out0 + rr_round(b.take(0), rem0.take(0)));
        }
        while i < buckets.len()
            invariant
                b == buckets@,
                i <= b.len(),
                remaining@.len() == b.len(),
                rem0.len() == b.len(),
                out@.to_multiset().add(counted_flat(b, remaining@).to_multiset()) =~= buckets_flat(
                    b,
                ).to_multiset(),
                counted_flat(b, remaining@).to_multiset().len() == left,
                out@.len() + left == total_tasks,
                left <= left_at_round_start,
                left == left_at_round_start ==> forall|j: int| 0 <= j < i ==> remaining@[j] == 0,
                sum_vals(remaining@) == left,
                sum_vals(rem0) == left_at_round_start,
                rr_layout(b) == out0 + rr_from(b, rem0),
                out@ == out0 + rr_round(b.take(i as int), rem0.take(i as int)),
                forall|j: int| i <= j < b.len() ==> #[trigger] remaining@[j] == rem0[j],
                forall|j: int|
                    0 <= j < i ==> #[trigger] remaining@[j] == (if rem0[j] > 0 {
                        (rem0[j] - 1) as usize
                    } else {
                        0usize
                    }),
            decreases b.len() - i,
        {
            proof {
                lemma_rr_round_take(b, rem0, i as int);
            }
            if remaining[i] > 0 {
                let ghost rem_before = remaining@;
                let ghost out_before = out@;
                proof {
                    lemma_counted_flat_decrement(b, remaining@, i as int);
                    lemma_sum_vals_update(remaining@, i as int, (remaining@[i as int]
                        - 1) as usize);
                }
                let c = remaining[i];
                remaining[i] = c - 1;
                out.push(buckets[i].0);
                left = left - 1;
                proof {
                    let v = b[i as int].0;
                    assert(remaining@ =~= rem_before.update(i as int, (rem_before[i as int]
                        - 1) as usize));
                    assert(out@ == out_before.push(v));
                    to_multiset_build(out_before, v);
                    let o0 = out_before.to_multiset();
                    let rem_ms = counted_flat(b, remaining@).to_multiset();
                    assert(out@.to_multiset() =~= o0.insert(v));
                    assert(counted_flat(b, rem_before).to_multiset() =~= rem_ms.insert(v));
                    assert(o0.add(rem_ms.insert(v)) =~= o0.insert(v).add(rem_ms));
                    assert(o0.add(counted_flat(b, rem_before).to_multiset()) =~= buckets_flat(
                        b,
                    ).to_multiset());
                    assert(out@.to_multiset().add(rem_ms) =~= buckets_flat(b).to_multiset());
                    to_multiset_len(counted_flat(b, rem_before));
                    to_multiset_len(counted_flat(b, remaining@));
                    // This round emits this bucket's value.
                    assert(rem0[i as int] > 0);
                    assert(out@ =~= out0 + rr_round(b.take(i + 1), rem0.take(i + 1)));
                }
            } else {
                proof {
                    assert(rem0[i as int] == 0);
                    assert(out@ =~= out0 + rr_round(b.take(i + 1), rem0.take(i + 1)));
                }
            }
            i = i + 1;
        }
        proof {
            if left == left_at_round_start {
                lemma_counted_flat_zero(b, remaining@);
                to_multiset_len(counted_flat(b, remaining@));
                assert(false);
            }
            // One full round happened: the remaining counts are the
            // decremented ones, and the output grew by exactly this round.
            assert(b.take(b.len() as int) =~= b);
            assert(rem0.take(rem0.len() as int) =~= rem0);
            assert(out@ == out0 + rr_round(b, rem0));
            assert(remaining@ =~= rr_dec(rem0));
            assert(sum_vals(rr_dec(rem0)) == left);
            assert(rr_from(b, rem0) == rr_round(b, rem0) + rr_from(b, rr_dec(rem0)));
            assert(rr_layout(b) == out@ + rr_from(b, remaining@)) by {
                assert(out0 + (rr_round(b, rem0) + rr_from(b, rr_dec(rem0))) =~= (out0 + rr_round(
                    b,
                    rem0,
                )) + rr_from(b, rr_dec(rem0)));
            }
        }
    }
    proof {
        let rem_ms = counted_flat(b, remaining@).to_multiset();
        assert(rem_ms =~= Multiset::<usize>::empty()) by {
            assert(rem_ms.len() == 0);
            assert forall|x: usize| rem_ms.count(x) == 0 by {
                if rem_ms.count(x) > 0 {
                    vstd::multiset::axiom_count_le_len::<usize>(rem_ms, x);
                }
            }
        }
        assert(out@.to_multiset() =~= buckets_flat(b).to_multiset());
        to_multiset_len(out@);
        lemma_buckets_flat_len(b);
        to_multiset_len(buckets_flat(b));
        assert(rr_from(b, remaining@) == Seq::<usize>::empty());
        assert(out@ + rr_from(b, remaining@) =~= out@);
    }
    out
}

/// Every bucket in definition order, each drained completely before the next.
fn schedule_serial(buckets: &Vec<(usize, usize)>, total_tasks: usize) -> (out: Vec<usize>)
    requires
        total_tasks == sum_counts(buckets@),
    ensures
        out@ == buckets_flat(buckets@),
        out@.len() == total_tasks,
{
    let ghost b = buckets@;
    let mut out: Vec<usize> = Vec::new();
    let mut i: usize = 0;
    proof {
        assert(b.take(0) =~= Seq::<(usize, usize)>::empty());
        assert(out@ =~= buckets_flat(b.take(0)));
    }
    while i < buckets.len()
        invariant
            b == buckets@,
            i <= b.len(),
            out@ == buckets_flat(b.take(i as int)),
        decreases b.len() - i,
    {
        let (value, count) = buckets[i];
        let mut k: usize = 0;
        while k < count
            invariant
                k <= count,
                b == buckets@,
                i < b.len(),
                (value, count) == b[i as int],
                out@ == buckets_flat(b.take(i as int)) + repeat_val(value, k as nat),
            decreases count - k,
        {
            out.push(value);
            k = k + 1;
            proof {
                assert(out@ =~= buckets_flat(b.take(i as int)) + repeat_val(value, k as nat));
            }
        }
        i = i + 1;
        proof {
            lemma_buckets_flat_push(b.take(i - 1), b[i - 1]);
            assert(b.take(i as int) =~= b.take(i - 1).push(b[i - 1]));
            assert(out@ =~= buckets_flat(b.take(i as int)));
        }
    }
    proof {
        assert(b.take(b.len() as int) =~= b);
        lemma_buckets_flat_len(b);
    }
    out
}

/// A uniformly random permutation: repeatedly move a randomly chosen element
/// into the output.
fn shuffle(input: Vec<usize>) -> (out: Vec<usize>)
    ensures
        out@.to_multiset() == input@.to_multiset(),
        out@.len() == input@.len(),
{
    let ghost full = input@;
    let mut tmp = input;
    let mut out: Vec<usize> = Vec::new();
    proof {
        lemma_multiset_commutative(out@, tmp@);
        assert(out@ + tmp@ =~= tmp@);
    }
    while tmp.len() > 0
        invariant
            out@.to_multiset().add(tmp@.to_multiset()) =~= full.to_multiset(),
            out@.len() + tmp@.len() == full.len(),
        decreases tmp@.len(),
    {
        let j = if tmp.len() > 1 {
            util::random_in_range(0, tmp.len())
        } else {
            0
        };
        let ghost tmp_before = tmp@;
        let ghost out_before = out@;
        proof {
            to_multiset_remove(tmp@, j as int);
        }
        let v = tmp.remove(j);
        out.push(v);
        proof {
            assert(out@ == out_before.push(v));
            to_multiset_build(out_before, v);
            to_multiset_contains(tmp_before, v);
            assert(tmp_before.contains(v)) by {
                assert(tmp_before[j as int] == v);
            }
            let o0 = out_before.to_multiset();
            let t0 = tmp_before.to_multiset();
            assert(t0.count(v) > 0);
            assert(out@.to_multiset() =~= o0.insert(v));
            assert(tmp@.to_multiset() =~= t0.remove(v));
            assert(o0.insert(v).add(t0.remove(v)) =~= o0.add(t0));
            assert(out@.to_multiset().add(tmp@.to_multiset()) =~= full.to_multiset());
        }
    }
    proof {
        assert(tmp@.to_multiset() =~= Multiset::<usize>::empty()) by {
            to_multiset_len(tmp@);
            assert forall|x: usize| tmp@.to_multiset().count(x) == 0 by {
                if tmp@.to_multiset().count(x) > 0 {
                    vstd::multiset::axiom_count_le_len::<usize>(tmp@.to_multiset(), x);
                }
            }
        }
        assert(out@.to_multiset() =~= full.to_multiset());
        to_multiset_len(out@);
        to_multiset_len(full);
    }
    out
}



/// Inserts a value into an ascending list, keeping duplicates out.
pub open spec fn insert_sorted(s: Seq<usize>, v: usize) -> Seq<usize>
    decreases s.len(),
{
    if s.len() == 0 {
        seq![v]
    } else if v < s[0] {
        seq![v] + s
    } else if v == s[0] {
        s
    } else {
        seq![s[0]] + insert_sorted(s.drop_first(), v)
    }
}

/// The ascending, duplicate-free sequence values of the tasks a list holds,
/// as a function of the task list.
pub open spec fn category_sequences_spec(tasks: Seq<SwanlingTask>, cat: TaskCategory) -> Seq<usize>
    decreases tasks.len(),
{
    if tasks.len() == 0 {
        Seq::empty()
    } else {
        let rest = category_sequences_spec(tasks.drop_last(), cat);
        if in_category(tasks.last(), cat) && tasks.last().sequence != 0 {
            insert_sorted(rest, tasks.last().sequence)
        } else {
            rest
        }
    }
}

/// Inserting at the position the order dictates is the sorted insertion.
proof fn lemma_insert_sorted_at(s: Seq<usize>, v: usize, k: int)
    requires
        0 <= k <= s.len(),
        forall|j: int| 0 <= j < k ==> s[j] < v,
        k < s.len() ==> s[k] > v,
    ensures
        insert_sorted(s, v) == s.insert(k, v),
    decreases k,
{
    if k == 0 {
        if s.len() == 0 {
            assert(insert_sorted(s, v) =~= s.insert(0, v));
        } else {
            assert(s[0] > v);
            assert(insert_sorted(s, v) == seq![v] + s);
            assert(seq![v] + s =~= s.insert(0, v));
        }
    } else {
        assert(s[0] < v);
        lemma_insert_sorted_at(s.drop_first(), v, k - 1);
        assert(forall|j: int| 0 <= j < k - 1 ==> #[trigger] s.drop_first()[j] == s[j + 1]);
        assert(k - 1 < s.drop_first().len() ==> s.drop_first()[k - 1] == s[k]);
        assert(insert_sorted(s, v) == seq![s[0]] + s.drop_first().insert(k - 1, v));
        assert(seq![s[0]] + s.drop_first().insert(k - 1, v) =~= s.insert(k, v));
    }
}

/// Inserting a value the list already holds changes nothing.
proof fn lemma_insert_sorted_dup(s: Seq<usize>, v: usize, k: int)
    requires
        0 <= k < s.len(),
        s[k] == v,
        forall|j: int| 0 <= j < k ==> s[j] < v,
    ensures
        insert_sorted(s, v) == s,
    decreases k,
{
    if k == 0 {
        assert(s[0] == v);
    } else {
        assert(s[0] < v);
        lemma_insert_sorted_dup(s.drop_first(), v, k - 1);
        assert(s.drop_first()[k - 1] == s[k]);
        assert(forall|j: int| 0 <= j < k - 1 ==> #[trigger] s.drop_first()[j] == s[j + 1]);
        assert(insert_sorted(s, v) == seq![s[0]] + s.drop_first());
        assert(seq![s[0]] + s.drop_first() =~= s);
    }
}

/// The order a deterministic policy lays one bucket list out in.
pub open spec fn layout_of(b: Seq<(usize, usize)>, scheduler: SwanlingScheduler) -> Seq<usize> {
    match scheduler {
        SwanlingScheduler::RoundRobin => rr_layout(b),
        _ => buckets_flat(b),
    }
}

/// The layouts of the given sequence groups, one after another.
pub open spec fn seq_groups_layout(
    tasks: Seq<SwanlingTask>,
    cat: TaskCategory,
    g: usize,
    seqs: Seq<usize>,
    scheduler: SwanlingScheduler,
) -> Seq<usize>
    decreases seqs.len(),
{
    if seqs.len() == 0 {
        Seq::empty()
    } else {
        layout_of(buckets_of(tasks, cat, seqs[0], g), scheduler) + seq_groups_layout(
            tasks,
            cat,
            g,
            seqs.drop_first(),
            scheduler,
        )
    }
}

/// The full layout of one category under a deterministic policy: its
/// sequence groups in ascending order, each laid out by the policy, then the
/// unsequenced tasks. A function of the task list alone, so scenarios are
/// reproducible.
pub open spec fn category_layout(
    tasks: Seq<SwanlingTask>,
    cat: TaskCategory,
    g: usize,
    scheduler: SwanlingScheduler,
) -> Seq<usize> {
    seq_groups_layout(tasks, cat, g, category_sequences_spec(tasks, cat), scheduler) + layout_of(
        buckets_of(tasks, cat, 0, g),
        scheduler,
    )
}

/// One more group appends its layout.
proof fn lemma_seq_groups_layout_push(
    tasks: Seq<SwanlingTask>,
    cat: TaskCategory,
    g: usize,
    seqs: Seq<usize>,
    v: usize,
    scheduler: SwanlingScheduler,
)
    ensures
        seq_groups_layout(tasks, cat, g, seqs.push(v), scheduler) == seq_groups_layout(
            tasks,
            cat,
            g,
            seqs,
            scheduler,
        ) + layout_of(buckets_of(tasks, cat, v, g), scheduler),
    decreases seqs.len(),
{
    if seqs.len() == 0 {
        assert(seqs.push(v)[0] == v);
        assert(seqs.push(v).drop_first() =~= Seq::<usize>::empty());
        assert(seq_groups_layout(tasks, cat, g, seqs.push(v).drop_first(), scheduler)
            == Seq::<usize>::empty());
        assert(seq_groups_layout(tasks, cat, g, seqs.push(v), scheduler) =~= seq_groups_layout(
            tasks,
            cat,
            g,
            seqs,
            scheduler,
        ) + layout_of(buckets_of(tasks, cat, v, g), scheduler));
    } else {
        lemma_seq_groups_layout_push(tasks, cat, g, seqs.drop_first(), v, scheduler);
        assert(seqs.push(v)[0] == seqs[0]);
        assert(seqs.push(v).drop_first() =~= seqs.drop_first().push(v));
        assert(seq_groups_layout(tasks, cat, g, seqs.push(v), scheduler) =~= seq_groups_layout(
            tasks,
            cat,
            g,
            seqs,
            scheduler,
        ) + layout_of(buckets_of(tasks, cat, v, g), scheduler));
    }
}

/// One bucket per index, holding the index's weight reduced by the gcd.
pub open spec fn index_buckets(ws: Seq<usize>, g: usize) -> Seq<(usize, usize)> {
    Seq::new(ws.len(), |i: int| (i as usize, ((ws[i] / g) as usize)))
}

/// The three lists a task can be allocated to.
#[derive(Clone, Copy, Debug, PartialEq, Eq, Structural)]
pub enum TaskCategory {
    /// Tasks run once when a user starts.
    Start,
    /// Tasks run in the user's main loop.
    Main,
    /// Tasks run once when a user stops.
    Stop,
}

/// Whether a task belongs to a list: a task flagged `on_start` or `on_stop`
/// may appear in either or both of the start and stop lists but never in the
/// main list.
pub open spec fn in_category(t: SwanlingTask, cat: TaskCategory) -> bool {
    match cat {
        TaskCategory::Start => t.on_start,
        TaskCategory::Main => !t.on_start && !t.on_stop,
        TaskCategory::Stop => t.on_stop,
    }
}

/// Whether a task belongs to a list and to the sequence group `s` (zero is
/// the unsequenced group).
pub open spec fn selects(t: SwanlingTask, cat: TaskCategory, s: usize) -> bool {
    in_category(t, cat) && t.sequence == s
}

/// Every task's `tasks_index` is its position, as registration makes it.
pub open spec fn tasks_well_indexed(tasks: Seq<SwanlingTask>) -> bool {
    forall|i: int| 0 <= i < tasks.len() ==> #[trigger] tasks[i].tasks_index == i
}

/// Every task's weight is positive, as the builders enforce.
pub open spec fn tasks_weights_positive(tasks: Seq<SwanlingTask>) -> bool {
    forall|i: int| 0 <= i < tasks.len() ==> #[trigger] tasks[i].weight >= 1
}

/// The total weight of a task list.
pub open spec fn sum_weights(tasks: Seq<SwanlingTask>) -> nat
    decreases tasks.len(),
{
    if tasks.len() == 0 {
        0
    } else {
        sum_weights(tasks.drop_last()) + tasks.last().weight as nat
    }
}

/// The weights of a task list, in order.
pub open spec fn task_weights(tasks: Seq<SwanlingTask>) -> Seq<usize> {
    tasks.map_values(|t: SwanlingTask| t.weight)
}

/// The buckets of the tasks that a list and sequence group selects: each
/// selected task's index, with its weight reduced by the gcd `g`.
pub open spec fn buckets_of(
    tasks: Seq<SwanlingTask>,
    cat: TaskCategory,
    s: usize,
    g: usize,
) -> Seq<(usize, usize)>
    decreases tasks.len(),
{
    if tasks.len() == 0 {
        Seq::empty()
    } else {
        let rest = buckets_of(tasks.drop_last(), cat, s, g);
        if selects(tasks.last(), cat, s) {
            rest.push((tasks.last().tasks_index, ((tasks.last().weight / g) as usize)))
        } else {
            rest
        }
    }
}

/// How often a task of a list appears in the category's allocation: its
/// weight reduced by the gcd if it belongs to the category, else never.
pub open spec fn category_count(
    tasks: Seq<SwanlingTask>,
    cat: TaskCategory,
    u: usize,
    x: usize,
) -> nat {
    if x < tasks.len() && in_category(tasks[x as int], cat) {
        (tasks[x as int].weight / u) as nat
    } else {
        0
    }
}

/// How many copies of one value a constant run holds.
proof fn lemma_repeat_count(v: usize, n: nat, x: usize)
    ensures
        repeat_val(v, n).to_multiset().count(x) == if x == v {
            n
        } else {
            0
        },
    decreases n,
{
    if n == 0 {
        to_multiset_len(repeat_val(v, n));
        if repeat_val(v, n).to_multiset().count(x) > 0 {
            vstd::multiset::axiom_count_le_len::<usize>(repeat_val(v, n).to_multiset(), x);
        }
    } else {
        lemma_repeat_count(v, (n - 1) as nat, x);
        assert(repeat_val(v, n) =~= repeat_val(v, (n - 1) as nat).push(v));
        to_multiset_build(repeat_val(v, (n - 1) as nat), v);
    }
}

/// An empty sequence's multiset holds nothing.
proof fn lemma_empty_count(s: Seq<usize>, x: usize)
    requires
        s.len() == 0,
    ensures
        s.to_multiset().count(x) == 0,
{
    to_multiset_len(s);
    if s.to_multiset().count(x) > 0 {
        vstd::multiset::axiom_count_le_len::<usize>(s.to_multiset(), x);
    }
}

/// In the flattened buckets of a selection, a task index appears exactly
/// `weight / g` times if its task is selected, and not at all otherwise.
proof fn lemma_buckets_of_count(
    tasks: Seq<SwanlingTask>,
    cat: TaskCategory,
    s: usize,
    g: usize,
    x: usize,
)
    requires
        g >= 1,
        tasks_well_indexed(tasks),
    ensures
        buckets_flat(buckets_of(tasks, cat, s, g)).to_multiset().count(x) == if x < tasks.len()
            && selects(tasks[x as int], cat, s) {
            (tasks[x as int].weight / g) as nat
        } else {
            0
        },
    decreases tasks.len(),
{
    if tasks.len() == 0 {
        lemma_empty_count(buckets_flat(buckets_of(tasks, cat, s, g)), x);
    } else {
        let rest = tasks.drop_last();
        let t = tasks.last();
        assert(tasks_well_indexed(rest)) by {
            assert(forall|i: int| 0 <= i < rest.len() ==> rest[i] == tasks[i]);
        }
        lemma_buckets_of_count(rest, cat, s, g, x);
        assert(t.tasks_index == tasks.len() - 1);
        if selects(t, cat, s) {
            let p = (t.tasks_index, ((t.weight / g) as usize));
            assert(t.weight / g <= t.weight) by (nonlinear_arith)
                requires
                    g >= 1,
            {
            }
            assert(p.1 as nat == (t.weight / g) as nat);
            assert(buckets_of(tasks, cat, s, g) == buckets_of(rest, cat, s, g).push(p));
            lemma_buckets_flat_push(buckets_of(rest, cat, s, g), p);
            let fr = buckets_flat(buckets_of(rest, cat, s, g));
            let rp = repeat_val(p.0, p.1 as nat);
            lemma_multiset_commutative(fr, rp);
            lemma_repeat_count(p.0, p.1 as nat, x);
            assert(buckets_flat(buckets_of(tasks, cat, s, g)).to_multiset().count(x)
                == fr.to_multiset().count(x) + rp.to_multiset().count(x));
            if x == tasks.len() - 1 {
                assert(p.0 == x);
                assert(fr.to_multiset().count(x) == 0);
            } else if x < tasks.len() - 1 {
                assert(p.0 != x);
                assert(rest[x as int] == tasks[x as int]);
            } else {
                assert(p.0 != x);
            }
        } else {
            if x == tasks.len() - 1 {
                assert(!selects(tasks[x as int], cat, s));
            } else if x < tasks.len() - 1 {
                assert(rest[x as int] == tasks[x as int]);
            }
        }
    }
}

/// Appending one bucket adds its count to the total.
proof fn lemma_sum_counts_push(b: Seq<(usize, usize)>, p: (usize, usize))
    ensures
        sum_counts(b.push(p)) == sum_counts(b) + p.1,
    decreases b.len(),
{
    if b.len() == 0 {
        assert(b.push(p).drop_first() =~= Seq::<(usize, usize)>::empty());
        assert(b.push(p)[0] == p);
        assert(sum_counts(b.push(p)) == p.1 as nat + sum_counts(b.push(p).drop_first()));
    } else {
        lemma_sum_counts_push(b.drop_first(), p);
        assert(b.push(p).drop_first() =~= b.drop_first().push(p));
        assert(b.push(p)[0] == b[0]);
        assert(sum_counts(b.push(p)) == b[0].1 as nat + sum_counts(b.drop_first().push(p)));
    }
}

/// A prefix of a task list never outweighs the whole list.
proof fn lemma_sum_weights_take_le(tasks: Seq<SwanlingTask>, i: int)
    requires
        0 <= i <= tasks.len(),
    ensures
        sum_weights(tasks.take(i)) <= sum_weights(tasks),
    decreases tasks.len() - i,
{
    if i == tasks.len() {
        assert(tasks.take(i) =~= tasks);
    } else {
        lemma_sum_weights_take_le(tasks, i + 1);
        assert(tasks.take(i + 1).drop_last() =~= tasks.take(i));
        assert(sum_weights(tasks.take(i + 1)) == sum_weights(tasks.take(i)) + tasks.take(
            i + 1,
        ).last().weight);
    }
}

/// Builds the weighted buckets of the tasks a list and sequence group
/// selects, and their total count.
pub fn weight_unsequenced_tasks(
    tasks: &Vec<SwanlingTask>,
    cat: TaskCategory,
    sequence: usize,
    u: usize,
) -> (r: (Vec<(usize, usize)>, usize))
    requires
        u >= 1,
        sum_weights(tasks@) <= usize::MAX,
    ensures
        r.0@ == buckets_of(tasks@, cat, sequence, u),
        r.1 == sum_counts(r.0@),
{
    let ghost ts = tasks@;
    let mut out: Vec<(usize, usize)> = Vec::new();
    let mut total: usize = 0;
    let mut i: usize = 0;
    proof {
        assert(ts.take(0) =~= Seq::<SwanlingTask>::empty());
    }
    while i < tasks.len()
        invariant
            ts == tasks@,
            i <= ts.len(),
            u >= 1,
            sum_weights(ts) <= usize::MAX,
            out@ == buckets_of(ts.take(i as int), cat, sequence, u),
            total == sum_counts(out@),
            total <= sum_weights(ts.take(i as int)),
        decreases ts.len() - i,
    {
        let t = &tasks[i];
        let is_selected = match cat {
            TaskCategory::Start => t.on_start,
            TaskCategory::Main => !t.on_start && !t.on_stop,
            TaskCategory::Stop => t.on_stop,
        } && t.sequence == sequence;
        proof {
            assert(ts.take(i + 1).drop_last() =~= ts.take(i as int));
            assert(ts.take(i + 1).last() == ts[i as int]);
            assert(sum_weights(ts.take(i + 1)) == sum_weights(ts.take(i as int))
                + ts[i as int].weight);
            lemma_sum_weights_take_le(ts, i + 1);
            assert(ts[i as int].weight / u <= ts[i as int].weight) by (nonlinear_arith)
                requires
                    u >= 1,
            {
            }
        }
        if is_selected {
            let count = t.weight / u;
            let idx = t.tasks_index;
            proof {
                lemma_sum_counts_push(out@, (idx, count));
            }
            out.push((idx, count));
            total = total + count;
        }
        i = i + 1;
    }
    proof {
        assert(ts.take(ts.len() as int) =~= ts);
    }
    (out, total)
}

/// The ascending, duplicate-free sequence values of the tasks a list holds;
/// the unsequenced value zero is never listed.
fn category_sequences(tasks: &Vec<SwanlingTask>, cat: TaskCategory) -> (r: Vec<usize>)
    ensures
        forall|a: int, b: int| 0 <= a < b < r@.len() ==> r@[a] < r@[b],
        forall|s: usize|
            r@.contains(s) <==> (s != 0 && exists|i: int|
                0 <= i < tasks@.len() && in_category(#[trigger] tasks@[i], cat)
                    && tasks@[i].sequence == s),
        r@ == category_sequences_spec(tasks@, cat),
{
    let ghost ts = tasks@;
    let mut r: Vec<usize> = Vec::new();
    let mut i: usize = 0;
    proof {
        assert(ts.take(0) =~= Seq::<SwanlingTask>::empty());
    }
    while i < tasks.len()
        invariant
            ts == tasks@,
            i <= ts.len(),
            forall|a: int, b: int| 0 <= a < b < r@.len() ==> r@[a] < r@[b],
            forall|s: usize|
                r@.contains(s) <==> (s != 0 && exists|j: int|
                    0 <= j < i && in_category(#[trigger] ts[j], cat) && ts[j].sequence == s),
            r@ == category_sequences_spec(ts.take(i as int), cat),
        decreases ts.len() - i,
    {
        proof {
            assert(ts.take(i + 1).drop_last() =~= ts.take(i as int));
            assert(ts.take(i + 1).last() == ts[i as int]);
        }
        let t = &tasks[i];
        let in_cat = match cat {
            TaskCategory::Start => t.on_start,
            TaskCategory::Main => !t.on_start && !t.on_stop,
            TaskCategory::Stop => t.on_stop,
        };
        let sv = t.sequence;
        if in_cat && sv > 0 {
            // Find the sorted position of this sequence value.
            let mut k: usize = 0;
            while k < r.len() && r[k] < sv
                invariant
                    k <= r@.len(),
                    forall|a: int| 0 <= a < k ==> r@[a] < sv,
                    forall|a: int, b: int| 0 <= a < b < r@.len() ==> r@[a] < r@[b],
                decreases r@.len() - k,
            {
                k = k + 1;
            }
            if k == r.len() || r[k] > sv {
                let ghost r0 = r@;
                r.insert(k, sv);
                proof {
                    assert(r@ =~= r0.insert(k as int, sv));
                    lemma_insert_sorted_at(r0, sv, k as int);
                    assert forall|s: usize| r@.contains(s) implies (s != 0 && exists|j: int|
                        0 <= j < i + 1 && in_category(#[trigger] ts[j], cat) && ts[j].sequence
                            == s) by {
                        let a = choose|a: int| 0 <= a < r@.len() && r@[a] == s;
                        if a < k {
                            assert(r0[a] == s);
                            assert(r0.contains(s));
                        } else if a == k {
                            assert(s == sv);
                            assert(in_category(ts[i as int], cat) && ts[i as int].sequence == s);
                        } else {
                            assert(r0[a - 1] == s);
                            assert(r0.contains(s));
                        }
                    }
                    assert forall|s: usize| (s != 0 && exists|j: int|
                        0 <= j < i + 1 && in_category(#[trigger] ts[j], cat) && ts[j].sequence
                            == s) implies r@.contains(s) by {
                        if s == sv {
                            assert(r@[k as int] == s);
                        } else {
                            let j = choose|j: int|
                                0 <= j < i + 1 && in_category(#[trigger] ts[j], cat)
                                    && ts[j].sequence == s;
                            assert(j < i);
                            assert(r0.contains(s));
                            let a = choose|a: int| 0 <= a < r0.len() && r0[a] == s;
                            if a < k {
                                assert(r@[a] == s);
                            } else {
                                assert(r@[a + 1] == s);
                            }
                        }
                    }
                }
            } else {
                // Already recorded.
                proof {
                    assert(r@[k as int] == sv);
                    assert(r@.contains(sv));
                    lemma_insert_sorted_dup(r@, sv, k as int);
                }
            }
        }
        i = i + 1;
        proof {
            assert forall|s: usize| r@.contains(s) implies (s != 0 && exists|j: int|
                0 <= j < i && in_category(#[trigger] ts[j], cat) && ts[j].sequence == s) by {
            }
            assert(r@ == category_sequences_spec(ts.take(i as int), cat));
        }
    }
    proof {
        assert(ts.take(ts.len() as int) =~= ts);
    }
    r
}


/// The reduced weight a task is allocated with: its weight divided by the
/// gcd of all weights of its set.
pub open spec fn reduced_weight(t: SwanlingTask, g: nat) -> nat {
    t.weight as nat / g
}

/// How often a task appears in one allocated list: its reduced weight if it
/// belongs to the list's category, else never.
pub open spec fn allocated_count(
    tasks: Seq<SwanlingTask>,
    cat: TaskCategory,
    g: nat,
    x: usize,
) -> nat {
    if x < tasks.len() && in_category(tasks[x as int], cat) {
        reduced_weight(tasks[x as int], g)
    } else {
        0
    }
}

/// The gcd of all task weights in a set.
pub open spec fn tasks_gcd(tasks: Seq<SwanlingTask>) -> nat {
    weights_gcd(task_weights(tasks))
}

/// Where a task stands in the sequence order: sequenced tasks ascend by
/// their sequence value, and unsequenced tasks come after all of them.
pub open spec fn sequence_rank(t: SwanlingTask) -> int {
    if t.sequence == 0 {
        0x1_0000_0000_0000_0000
    } else {
        t.sequence as int
    }
}

/// The task indices of a scheduled list.
pub open spec fn firsts(ws: Seq<(usize, String)>) -> Seq<usize> {
    ws.map_values(|p: (usize, String)| p.0)
}

/// What the scheduler promises of one allocated list: every entry names a
/// task of the list's category by its index and name, each such task appears
/// exactly `weight / g` times, and entries never step backwards in sequence
/// order.
pub open spec fn allocated_list_correct(
    tasks: Seq<SwanlingTask>,
    out: Seq<(usize, String)>,
    cat: TaskCategory,
    g: nat,
) -> bool {
    &&& forall|i: int|
        0 <= i < out.len() ==> (#[trigger] out[i]).0 < tasks.len() && in_category(
            tasks[out[i].0 as int],
            cat,
        ) && out[i].1@ == tasks[out[i].0 as int].name@
    &&& forall|x: usize|
        #[trigger] firsts(out).to_multiset().count(x) == allocated_count(tasks, cat, g, x)
    &&& forall|i: int, j: int|
        0 <= i < j < out.len() ==> sequence_rank(tasks[#[trigger] out[i].0 as int])
            <= sequence_rank(tasks[#[trigger] out[j].0 as int])
}

/// How often a task appears once the groups in `done` are laid out.
spec fn group_count(
    tasks: Seq<SwanlingTask>,
    cat: TaskCategory,
    u: usize,
    x: usize,
    done: Seq<usize>,
    with_unsequenced: bool,
) -> nat {
    if x < tasks.len() && in_category(tasks[x as int], cat) && ((tasks[x as int].sequence != 0
        && done.contains(tasks[x as int].sequence)) || (with_unsequenced && tasks[x as int].sequence
        == 0)) {
        (tasks[x as int].weight / u) as nat
    } else {
        0
    }
}

/// Lays out one category of a task set: its sequence groups in ascending
/// order, each scheduled by the chosen policy, then the unsequenced tasks.
fn allocate_category(
    tasks: &Vec<SwanlingTask>,
    cat: TaskCategory,
    u: usize,
    scheduler: &SwanlingScheduler,
) -> (out: Vec<usize>)
    requires
        u >= 1,
        tasks_well_indexed(tasks@),
        sum_weights(tasks@) <= usize::MAX,
    ensures
        forall|x: usize|
            #[trigger] out@.to_multiset().count(x) == category_count(tasks@, cat, u, x),
        forall|i: int|
            0 <= i < out@.len() ==> #[trigger] out@[i] < tasks@.len() && in_category(
                tasks@[out@[i] as int],
                cat,
            ),
        forall|i: int, j: int|
            0 <= i < j < out@.len() ==> sequence_rank(tasks@[#[trigger] out@[i] as int])
                <= sequence_rank(tasks@[#[trigger] out@[j] as int]),
        !(scheduler is Random) ==> out@ == category_layout(tasks@, cat, u, *scheduler),
{
    let ghost ts = tasks@;
    let seqs = category_sequences(tasks, cat);
    let ghost sq = seqs@;
    let mut out: Vec<usize> = Vec::new();
    let mut k: usize = 0;
    proof {
        assert(sq.take(0) =~= Seq::<usize>::empty());
        assert forall|x: usize| out@.to_multiset().count(x) == group_count(
            ts,
            cat,
            u,
            x,
            sq.take(0),
            false,
        ) by {
            lemma_empty_count(out@, x);
            assert(!sq.take(0).contains(ts[x as int].sequence));
        }
    }
    proof {
        if !(scheduler is Random) {
            assert(out@ =~= seq_groups_layout(ts, cat, u, sq.take(0), *scheduler));
        }
    }
    while k < seqs.len()
        invariant
            ts == tasks@,
            sq == seqs@,
            u >= 1,
            k <= sq.len(),
            tasks_well_indexed(ts),
            sum_weights(ts) <= usize::MAX,
            !(scheduler is Random) ==> out@ == seq_groups_layout(
                ts,
                cat,
                u,
                sq.take(k as int),
                *scheduler,
            ),
            forall|a: int, b: int| 0 <= a < b < sq.len() ==> sq[a] < sq[b],
            forall|s: usize|
                sq.contains(s) <==> (s != 0 && exists|i: int|
                    0 <= i < ts.len() && in_category(#[trigger] ts[i], cat) && ts[i].sequence
                        == s),
            forall|x: usize|
                out@.to_multiset().count(x) == group_count(ts, cat, u, x, sq.take(k as int), false),
            forall|i: int|
                0 <= i < out@.len() ==> #[trigger] out@[i] < ts.len() && in_category(
                    ts[out@[i] as int],
                    cat,
                ) && ts[out@[i] as int].sequence != 0 && sq.take(k as int).contains(
                    ts[out@[i] as int].sequence,
                ),
            forall|i: int, j: int|
                0 <= i < j < out@.len() ==> sequence_rank(ts[#[trigger] out@[i] as int])
                    <= sequence_rank(ts[#[trigger] out@[j] as int]),
        decreases sq.len() - k,
    {
        let sv = seqs[k];
        let (buckets, total) = weight_unsequenced_tasks(tasks, cat, sv, u);
        let mut part = schedule_unsequenced_tasks(&buckets, total, scheduler);
        let ghost out_before = out@;
        let ghost part_view = part@;
        proof {
            assert(sq.contains(sv)) by {
                assert(sq[k as int] == sv);
            }
            assert(sv != 0);
            // The value of this group is new: the list is strictly ascending.
            assert(!sq.take(k as int).contains(sv)) by {
                if sq.take(k as int).contains(sv) {
                    let a = choose|a: int| 0 <= a < k && #[trigger] sq.take(k as int)[a] == sv;
                    assert(sq[a] < sq[k as int]);
                }
            }
            assert forall|i: int| 0 <= i < part_view.len() implies #[trigger] part_view[i]
                < ts.len() && selects(ts[part_view[i] as int], cat, sv) by {
                to_multiset_contains(part_view, part_view[i]);
                assert(part_view.contains(part_view[i]));
                lemma_buckets_of_count(ts, cat, sv, u, part_view[i]);
            }
        }
        out.append(&mut part);
        k = k + 1;
        proof {
            lemma_multiset_commutative(out_before, part_view);
            assert(out@ == out_before + part_view);
            assert(sq.take(k as int) =~= sq.take(k - 1).push(sv));
            if !(scheduler is Random) {
                assert(part_view == layout_of(buckets_of(ts, cat, sv, u), *scheduler));
                lemma_seq_groups_layout_push(ts, cat, u, sq.take(k - 1), sv, *scheduler);
                assert(out@ == seq_groups_layout(ts, cat, u, sq.take(k as int), *scheduler));
            }
            assert forall|q: usize| #[trigger] sq.take(k as int).contains(q) <==> (sq.take(
                k - 1,
            ).contains(q) || q == sv) by {
                if sq.take(k as int).contains(q) {
                    let a = choose|a: int| 0 <= a < k && #[trigger] sq.take(k as int)[a] == q;
                    if a < k - 1 {
                        assert(sq.take(k - 1)[a] == q);
                    }
                }
                if sq.take(k - 1).contains(q) {
                    let a = choose|a: int| 0 <= a < k - 1 && #[trigger] sq.take(k - 1)[a] == q;
                    assert(sq.take(k as int)[a] == q);
                }
                if q == sv {
                    assert(sq.take(k as int)[k - 1] == q);
                }
            }
            assert forall|x: usize| out@.to_multiset().count(x) == group_count(
                ts,
                cat,
                u,
                x,
                sq.take(k as int),
                false,
            ) by {
                lemma_buckets_of_count(ts, cat, sv, u, x);
                assert(out@.to_multiset().count(x) == out_before.to_multiset().count(x)
                    + part_view.to_multiset().count(x));
            }
            // Entries of earlier groups have strictly smaller sequence values.
            assert forall|i: int, j: int| 0 <= i < j < out@.len() implies sequence_rank(
                ts[#[trigger] out@[i] as int],
            ) <= sequence_rank(ts[#[trigger] out@[j] as int]) by {
                if j >= out_before.len() && i < out_before.len() {
                    let si = ts[out@[i] as int].sequence;
                    assert(sq.take(k - 1).contains(si));
                    let a = choose|a: int| 0 <= a < k - 1 && #[trigger] sq.take(k - 1)[a] == si;
                    assert(sq[a] < sq[k - 1]);
                    assert(ts[out@[j] as int].sequence == sv);
                } else if i >= out_before.len() {
                    assert(ts[out@[i] as int].sequence == sv);
                    assert(ts[out@[j] as int].sequence == sv);
                }
            }
        }
    }
    // The unsequenced tasks come after all sequenced groups.
    let (buckets, total) = weight_unsequenced_tasks(tasks, cat, 0, u);
    let mut part = schedule_unsequenced_tasks(&buckets, total, scheduler);
    let ghost out_before = out@;
    let ghost part_view = part@;
    proof {
        assert(sq.take(sq.len() as int) =~= sq);
        assert forall|i: int| 0 <= i < part_view.len() implies #[trigger] part_view[i] < ts.len()
            && selects(ts[part_view[i] as int], cat, 0) by {
            to_multiset_contains(part_view, part_view[i]);
            assert(part_view.contains(part_view[i]));
            lemma_buckets_of_count(ts, cat, 0, u, part_view[i]);
        }
    }
    out.append(&mut part);
    proof {
        lemma_multiset_commutative(out_before, part_view);
        assert(out@ == out_before + part_view);
        if !(scheduler is Random) {
            assert(part_view == layout_of(buckets_of(ts, cat, 0, u), *scheduler));
            assert(out@ == category_layout(ts, cat, u, *scheduler));
        }
        assert forall|x: usize| out@.to_multiset().count(x) == group_count(
            ts,
            cat,
            u,
            x,
            sq,
            true,
        ) by {
            lemma_buckets_of_count(ts, cat, 0, u, x);
            assert(out@.to_multiset().count(x) == out_before.to_multiset().count(x)
                + part_view.to_multiset().count(x));
        }
        assert forall|x: usize| #[trigger] out@.to_multiset().count(x) == category_count(
            ts,
            cat,
            u,
            x,
        ) by {
            if x < ts.len() && in_category(ts[x as int], cat) && ts[x as int].sequence != 0 {
                assert(sq.contains(ts[x as int].sequence));
            }
        }
        assert forall|i: int, j: int| 0 <= i < j < out@.len() implies sequence_rank(
            ts[#[trigger] out@[i] as int],
        ) <= sequence_rank(ts[#[trigger] out@[j] as int]) by {
            if j >= out_before.len() && i < out_before.len() {
                assert(ts[out@[j] as int].sequence == 0);
            } else if i >= out_before.len() {
                assert(ts[out@[i] as int].sequence == 0);
                assert(ts[out@[j] as int].sequence == 0);
            }
        }
    }
    out
}

/// Attaches each scheduled task's name to its index.
fn name_allocation(tasks: &Vec<SwanlingTask>, sched: Vec<usize>) -> (out: WeightedSwanlingTasks)
    requires
        forall|i: int| 0 <= i < sched@.len() ==> #[trigger] sched@[i] < tasks@.len(),
    ensures
        firsts(out@) == sched@,
        forall|i: int|
            0 <= i < out@.len() ==> (#[trigger] out@[i]).1@ == tasks@[out@[i].0 as int].name@,
{
    let mut out: WeightedSwanlingTasks = Vec::new();
    let mut i: usize = 0;
    proof {
        assert(firsts(out@) =~= sched@.take(0));
    }
    while i < sched.len()
        invariant
            i <= sched@.len(),
            forall|j: int| 0 <= j < sched@.len() ==> #[trigger] sched@[j] < tasks@.len(),
            out@.len() == i,
            firsts(out@) == sched@.take(i as int),
            forall|j: int|
                0 <= j < out@.len() ==> (#[trigger] out@[j]).1@ == tasks@[out@[j].0 as int].name@,
        decreases sched@.len() - i,
    {
        let idx = sched[i];
        out.push((idx, tasks[idx].name.clone()));
        i = i + 1;
        proof {
            assert(firsts(out@) =~= sched@.take(i as int));
        }
    }
    proof {
        assert(sched@.take(sched@.len() as int) =~= sched@);
    }
    out
}

/// Uses the configured scheduler to allocate all tasks of a task set in the
/// appropriate order. Returns three ordered lists: the on-start tasks, the
/// main tasks, and the on-stop tasks. In each list, every task of the list's
/// category appears exactly its weight divided by the gcd of all the set's
/// task weights times, sequenced groups come in ascending order, and
/// unsequenced tasks come last.
pub fn allocate_tasks(task_set: &SwanlingTaskSet, scheduler: &SwanlingScheduler) -> (r: (
    WeightedSwanlingTasks,
    WeightedSwanlingTasks,
    WeightedSwanlingTasks,
))
    requires
        tasks_well_indexed(task_set.tasks@),
        tasks_weights_positive(task_set.tasks@),
        sum_weights(task_set.tasks@) <= usize::MAX,
    ensures
        allocated_list_correct(task_set.tasks@, r.0@, TaskCategory::Start, tasks_gcd(task_set.tasks@)),
        allocated_list_correct(task_set.tasks@, r.1@, TaskCategory::Main, tasks_gcd(task_set.tasks@)),
        allocated_list_correct(task_set.tasks@, r.2@, TaskCategory::Stop, tasks_gcd(task_set.tasks@)),
        !(scheduler is Random) ==> {
            &&& firsts(r.0@) == category_layout(
                task_set.tasks@,
                TaskCategory::Start,
                tasks_gcd(task_set.tasks@) as usize,
                *scheduler,
            )
            &&& firsts(r.1@) == category_layout(
                task_set.tasks@,
                TaskCategory::Main,
                tasks_gcd(task_set.tasks@) as usize,
                *scheduler,
            )
            &&& firsts(r.2@) == category_layout(
                task_set.tasks@,
                TaskCategory::Stop,
                tasks_gcd(task_set.tasks@) as usize,
                *scheduler,
            )
        },
{
    let ghost ts = task_set.tasks@;
    if task_set.tasks.len() == 0 {
        let on_start: WeightedSwanlingTasks = Vec::new();
        let main: WeightedSwanlingTasks = Vec::new();
        let on_stop: WeightedSwanlingTasks = Vec::new();
        proof {
            lemma_allocated_empty(ts, on_start@, TaskCategory::Start, tasks_gcd(ts));
            lemma_allocated_empty(ts, main@, TaskCategory::Main, tasks_gcd(ts));
            lemma_allocated_empty(ts, on_stop@, TaskCategory::Stop, tasks_gcd(ts));
            if !(scheduler is Random) {
                let g = tasks_gcd(ts) as usize;
                lemma_empty_category_layout(ts, TaskCategory::Start, g, *scheduler);
                lemma_empty_category_layout(ts, TaskCategory::Main, g, *scheduler);
                lemma_empty_category_layout(ts, TaskCategory::Stop, g, *scheduler);
                assert(firsts(on_start@) =~= Seq::<usize>::empty());
                assert(firsts(main@) =~= Seq::<usize>::empty());
                assert(firsts(on_stop@) =~= Seq::<usize>::empty());
            }
        }
        return (on_start, main, on_stop);
    }
    let u = fold_weights_gcd(&task_set.tasks);
    proof {
        lemma_weights_gcd_fold(task_weights(ts), 0);
    }
    let start_sched = allocate_category(&task_set.tasks, TaskCategory::Start, u, scheduler);
    let main_sched = allocate_category(&task_set.tasks, TaskCategory::Main, u, scheduler);
    let stop_sched = allocate_category(&task_set.tasks, TaskCategory::Stop, u, scheduler);
    let ghost start_sv = start_sched@;
    let ghost main_sv = main_sched@;
    let ghost stop_sv = stop_sched@;
    let on_start = name_allocation(&task_set.tasks, start_sched);
    let main = name_allocation(&task_set.tasks, main_sched);
    let on_stop = name_allocation(&task_set.tasks, stop_sched);
    proof {
        lemma_name_allocation_correct(ts, on_start@, start_sv, TaskCategory::Start, u);
        lemma_name_allocation_correct(ts, main@, main_sv, TaskCategory::Main, u);
        lemma_name_allocation_correct(ts, on_stop@, stop_sv, TaskCategory::Stop, u);
        assert(u == tasks_gcd(ts) as usize);
    }
    (on_start, main, on_stop)
}

/// With no tasks at all, every layout is empty.
proof fn lemma_empty_category_layout(
    tasks: Seq<SwanlingTask>,
    cat: TaskCategory,
    g: usize,
    scheduler: SwanlingScheduler,
)
    requires
        tasks.len() == 0,
    ensures
        category_layout(tasks, cat, g, scheduler) == Seq::<usize>::empty(),
{
    assert(category_sequences_spec(tasks, cat) == Seq::<usize>::empty());
    assert(buckets_of(tasks, cat, 0, g) == Seq::<(usize, usize)>::empty());
    assert(buckets_flat(buckets_of(tasks, cat, 0, g)) == Seq::<usize>::empty());
    assert(counts_of(buckets_of(tasks, cat, 0, g)) =~= Seq::<usize>::empty());
    assert(sum_vals(counts_of(buckets_of(tasks, cat, 0, g))) == 0);
    assert(rr_layout(buckets_of(tasks, cat, 0, g)) == Seq::<usize>::empty());
    assert(seq_groups_layout(tasks, cat, g, category_sequences_spec(tasks, cat), scheduler)
        == Seq::<usize>::empty());
    assert(category_layout(tasks, cat, g, scheduler) =~= Seq::<usize>::empty());
}

/// Carrying names along does not change which tasks are scheduled where.
proof fn lemma_name_allocation_correct(
    tasks: Seq<SwanlingTask>,
    out: Seq<(usize, String)>,
    sched: Seq<usize>,
    cat: TaskCategory,
    u: usize,
)
    requires
        u >= 1,
        u as nat == tasks_gcd(tasks),
        firsts(out) == sched,
        forall|i: int|
            0 <= i < out.len() ==> (#[trigger] out[i]).1@ == tasks[out[i].0 as int].name@,
        forall|x: usize| #[trigger] sched.to_multiset().count(x) == category_count(tasks, cat, u, x),
        forall|i: int|
            0 <= i < sched.len() ==> #[trigger] sched[i] < tasks.len() && in_category(
                tasks[sched[i] as int],
                cat,
            ),
        forall|i: int, j: int|
            0 <= i < j < sched.len() ==> sequence_rank(tasks[#[trigger] sched[i] as int])
                <= sequence_rank(tasks[#[trigger] sched[j] as int]),
    ensures
        allocated_list_correct(tasks, out, cat, tasks_gcd(tasks)),
{
    assert(out.len() == sched.len());
    assert forall|i: int| 0 <= i < out.len() implies (#[trigger] out[i]).0 == sched[i] by {
        assert(firsts(out)[i] == out[i].0);
    }
    assert forall|x: usize| #[trigger] firsts(out).to_multiset().count(x) == allocated_count(
        tasks,
        cat,
        tasks_gcd(tasks),
        x,
    ) by {
        assert(firsts(out).to_multiset().count(x) == sched.to_multiset().count(x));
        assert(sched.to_multiset().count(x) == category_count(tasks, cat, u, x));
        if x < tasks.len() && in_category(tasks[x as int], cat) {
            assert((tasks[x as int].weight / u) as nat == tasks[x as int].weight as nat / (
            u as nat));
        }
    }
}

/// An empty allocation is correct for an empty task set.
proof fn lemma_allocated_empty(
    tasks: Seq<SwanlingTask>,
    out: Seq<(usize, String)>,
    cat: TaskCategory,
    g: nat,
)
    requires
        tasks.len() == 0,
        out.len() == 0,
    ensures
        allocated_list_correct(tasks, out, cat, g),
{
    assert forall|x: usize| #[trigger] firsts(out).to_multiset().count(x) == allocated_count(
        tasks,
        cat,
        g,
        x,
    ) by {
        to_multiset_len(firsts(out));
        if firsts(out).to_multiset().count(x) > 0 {
            vstd::multiset::axiom_count_le_len::<usize>(firsts(out).to_multiset(), x);
        }
    }
}

/// Folds the gcd over the weights of a task list, zero standing for "none
/// seen yet" as the accumulator starts.
fn fold_weights_gcd(tasks: &Vec<SwanlingTask>) -> (u: usize)
    ensures
        u as nat == tasks_gcd(tasks@),
    decreases tasks@.len(),
{
    let ghost ws = task_weights(tasks@);
    let mut u: usize = 0;
    let mut i: usize = 0;
    proof {
        assert(ws.skip(0) =~= ws);
    }
    while i < tasks.len()
        invariant
            ws == task_weights(tasks@),
            i <= tasks@.len(),
            weights_gcd(ws) == weights_gcd_fold(ws.skip(i as int), u as nat),
        decreases tasks@.len() - i,
    {
        let w = tasks[i].weight;
        proof {
            assert(ws.skip(i as int)[0] == ws[i as int]);
            assert(ws[i as int] == w);
            assert(ws.skip(i as int).drop_first() =~= ws.skip(i + 1));
        }
        if u == 0 {
            u = w;
        } else {
            u = util::gcd(u, w);
        }
        i = i + 1;
    }
    proof {
        assert(ws.skip(tasks@.len() as int) =~= Seq::<usize>::empty());
    }
    u
}

/// The total of a weight list.
pub open spec fn sum_usizes(ws: Seq<usize>) -> nat
    decreases ws.len(),
{
    if ws.len() == 0 {
        0
    } else {
        sum_usizes(ws.drop_last()) + ws.last() as nat
    }
}

/// In buckets whose value is their position, a value appears exactly its
/// bucket's count of times.
proof fn lemma_index_buckets_count(b: Seq<(usize, usize)>, x: usize)
    requires
        forall|i: int| 0 <= i < b.len() ==> (#[trigger] b[i]).0 == i,
    ensures
        buckets_flat(b).to_multiset().count(x) == if x < b.len() {
            b[x as int].1 as nat
        } else {
            0
        },
    decreases b.len(),
{
    if b.len() == 0 {
        lemma_empty_count(buckets_flat(b), x);
    } else {
        let b0 = b.drop_last();
        let p = b.last();
        assert(forall|i: int| 0 <= i < b0.len() ==> (#[trigger] b0[i]).0 == i);
        lemma_index_buckets_count(b0, x);
        assert(b =~= b0.push(p));
        lemma_buckets_flat_push(b0, p);
        lemma_multiset_commutative(buckets_flat(b0), repeat_val(p.0, p.1 as nat));
        lemma_repeat_count(p.0, p.1 as nat, x);
        assert(buckets_flat(b).to_multiset().count(x) == buckets_flat(b0).to_multiset().count(x)
            + repeat_val(p.0, p.1 as nat).to_multiset().count(x));
    }
}

/// A prefix of a weight list never outweighs the whole list.
proof fn lemma_sum_usizes_take_le(ws: Seq<usize>, i: int)
    requires
        0 <= i <= ws.len(),
    ensures
        sum_usizes(ws.take(i)) <= sum_usizes(ws),
    decreases ws.len() - i,
{
    if i == ws.len() {
        assert(ws.take(i) =~= ws);
    } else {
        lemma_sum_usizes_take_le(ws, i + 1);
        assert(ws.take(i + 1).drop_last() =~= ws.take(i));
        assert(sum_usizes(ws.take(i + 1)) == sum_usizes(ws.take(i)) + ws.take(i + 1).last() as nat);
    }
}

/// Builds the weighted allocation of task sets to users: set `i` appears
/// exactly `weight(i) / gcd(all set weights)` times, at least once, laid out
/// by the chosen policy.
pub fn allocate_set_indexes(weights: &Vec<usize>, scheduler: &SwanlingScheduler) -> (out: Vec<
    usize,
>)
    requires
        weights@.len() >= 1,
        forall|i: int| 0 <= i < weights@.len() ==> #[trigger] weights@[i] >= 1,
        sum_usizes(weights@) <= usize::MAX,
    ensures
        forall|x: usize|
            out@.to_multiset().count(x) == if x < weights@.len() {
                weights@[x as int] as nat / weights_gcd(weights@)
            } else {
                0
            },
        forall|i: int| 0 <= i < weights@.len() ==> weights@[i] as nat / weights_gcd(weights@) >= 1,
        forall|i: int| 0 <= i < out@.len() ==> #[trigger] out@[i] < weights@.len(),
        out@.len() >= 1,
        scheduler is RoundRobin ==> out@ == rr_layout(
            index_buckets(weights@, weights_gcd(weights@) as usize),
        ),
        scheduler is Serial ==> out@ == buckets_flat(
            index_buckets(weights@, weights_gcd(weights@) as usize),
        ),
{
    let ghost ws = weights@;
    // Fold the gcd of all set weights.
    let mut u: usize = 0;
    let mut i: usize = 0;
    proof {
        assert(ws.skip(0) =~= ws);
    }
    while i < weights.len()
        invariant
            ws == weights@,
            i <= ws.len(),
            weights_gcd(ws) == weights_gcd_fold(ws.skip(i as int), u as nat),
        decreases ws.len() - i,
    {
        let w = weights[i];
        proof {
            assert(ws.skip(i as int)[0] == ws[i as int]);
            assert(ws.skip(i as int).drop_first() =~= ws.skip(i + 1));
        }
        if u == 0 {
            u = w;
        } else {
            u = util::gcd(u, w);
        }
        i = i + 1;
    }
    proof {
        assert(ws.skip(ws.len() as int) =~= Seq::<usize>::empty());
        lemma_weights_gcd_fold(ws, 0);
        assert forall|j: int| 0 <= j < ws.len() implies ws[j] as nat / weights_gcd(ws) >= 1 by {
            lemma_divides_le(ws[j] as nat, weights_gcd(ws));
        }
    }
    // Build one bucket per set.
    let mut buckets: Vec<(usize, usize)> = Vec::new();
    let mut total: usize = 0;
    let mut i: usize = 0;
    while i < weights.len()
        invariant
            ws == weights@,
            i <= ws.len(),
            u as nat == weights_gcd(ws),
            u >= 1,
            buckets@.len() == i,
            forall|j: int| 0 <= j < i ==> (#[trigger] buckets@[j]).0 == j,
            forall|j: int| 0 <= j < i ==> (#[trigger] buckets@[j]).1 == ws[j] / u,
            total == sum_counts(buckets@),
            total <= sum_usizes(ws.take(i as int)),
            forall|j: int| 0 <= j < ws.len() ==> #[trigger] ws[j] >= 1,
            sum_usizes(ws) <= usize::MAX,
        decreases ws.len() - i,
    {
        let w = weights[i];
        let count = w / u;
        proof {
            lemma_sum_counts_push(buckets@, (i, count));
            assert(ws.take(i + 1).drop_last() =~= ws.take(i as int));
            assert(ws.take(i + 1).last() == ws[i as int]);
            lemma_sum_usizes_take_le(ws, i + 1);
            assert(w / u <= w) by (nonlinear_arith)
                requires
                    u >= 1,
            {
            }
        }
        buckets.push((i, count));
        total = total + count;
        i = i + 1;
    }
    let out = schedule_unsequenced_tasks(&buckets, total, scheduler);
    proof {
        assert(u == weights_gcd(ws) as usize);
        assert(buckets@ =~= index_buckets(ws, u));
        assert forall|x: usize| out@.to_multiset().count(x) == (if x < ws.len() {
            ws[x as int] as nat / weights_gcd(ws)
        } else {
            0
        }) by {
            lemma_index_buckets_count(buckets@, x);
            if x < ws.len() {
                assert(buckets@[x as int].1 == ws[x as int] / u);
            }
        }
        assert forall|j: int| 0 <= j < out@.len() implies #[trigger] out@[j] < ws.len() by {
            to_multiset_contains(out@, out@[j]);
            assert(out@.contains(out@[j]));
        }
        assert(out@.len() >= 1) by {
            assert(out@.to_multiset().count(0) >= 1);
            vstd::multiset::axiom_count_le_len::<usize>(out@.to_multiset(), 0);
            to_multiset_len(out@);
        }
    }
    out
}

} // verus!
