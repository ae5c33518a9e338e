//! Splitting a pool of tokens among weighted holders without losing a unit.
//!
//! Every holder receives the pool times its weight over the total weight, rounded down.
//! What rounding leaves over goes to the last holder with a positive weight, so the shares
//! always add up to the pool whenever anybody holds weight at all.

use vstd::prelude::*;
use crate::uint::{U256, lemma_scaled_quotient_bounded, u256_limit};

verus! {

/// Why a distribution could not be computed.
#[derive(Clone, Copy, Debug, PartialEq, Eq, Structural)]
pub enum RewardError {
    /// A sum of amounts or weights needs more than 256 bits.
    ArithmeticOverflow,
}

/// The sum of a sequence of numbers.
pub open spec fn sum(ws: Seq<nat>) -> nat
    decreases ws.len(),
{
    if ws.len() == 0 {
        0
    } else {
        sum(ws.drop_last()) + ws.last()
    }
}

/// The numbers that a sequence of 256-bit integers stands for.
pub open spec fn values(ws: Seq<U256>) -> Seq<nat> {
    ws.map_values(|w: U256| w.value())
}

/// The share of holder `i` before the remainder is assigned.
pub open spec fn floor_share(pool: nat, ws: Seq<nat>, i: int) -> nat {
    if sum(ws) == 0 {
        0
    } else {
        (pool * ws[i]) / sum(ws)
    }
}

/// The sum of the rounded-down shares of the first `n` holders.
pub open spec fn floor_total(pool: nat, ws: Seq<nat>, n: int) -> nat
    decreases n,
{
    if n <= 0 {
        0
    } else {
        floor_total(pool, ws, n - 1) + floor_share(pool, ws, n - 1)
    }
}

/// The index of the last holder with a positive weight, or -1 where there is none.
pub open spec fn remainder_holder(ws: Seq<nat>) -> int
    decreases ws.len(),
{
    if ws.len() == 0 {
        -1
    } else if ws.last() > 0 {
        ws.len() - 1
    } else {
        remainder_holder(ws.drop_last())
    }
}

/// What rounding down leaves of the pool.
pub open spec fn remainder(pool: nat, ws: Seq<nat>) -> nat {
    (pool - floor_total(pool, ws, ws.len() as int)) as nat
}

/// The share of holder `i`.
pub open spec fn share(pool: nat, ws: Seq<nat>, i: int) -> nat {
    if i == remainder_holder(ws) {
        floor_share(pool, ws, i) + remainder(pool, ws)
    } else {
        floor_share(pool, ws, i)
    }
}

/// The sum of the shares of the first `n` holders.
pub open spec fn share_total(pool: nat, ws: Seq<nat>, n: int) -> nat
    decreases n,
{
    if n <= 0 {
        0
    } else {
        share_total(pool, ws, n - 1) + share(pool, ws, n - 1)
    }
}

/// The sum of a prefix is at most the sum of the whole, and so is every element.
pub proof fn lemma_sum_prefix(ws: Seq<nat>, n: int)
    requires
        0 <= n <= ws.len(),
    ensures
        sum(ws.take(n)) <= sum(ws),
        n < ws.len() ==> sum(ws.take(n + 1)) == sum(ws.take(n)) + ws[n],
        n < ws.len() ==> ws[n] <= sum(ws),
    decreases ws.len() - n,
{
    if n == ws.len() {
        assert(ws.take(n) =~= ws);
    } else {
        assert(ws.take(n + 1).drop_last() =~= ws.take(n));
        assert(ws.take(n + 1).last() == ws[n]);
        lemma_sum_prefix(ws, n + 1);
    }
}

/// The holder of the remainder has a positive weight, and every later holder has none.
pub proof fn lemma_remainder_holder(ws: Seq<nat>)
    ensures
        -1 <= remainder_holder(ws) < ws.len(),
        remainder_holder(ws) >= 0 ==> ws[remainder_holder(ws)] > 0,
        forall|j: int| remainder_holder(ws) < j < ws.len() ==> ws[j] == 0,
        (remainder_holder(ws) == -1) == (sum(ws) == 0),
    decreases ws.len(),
{
    if ws.len() > 0 {
        lemma_remainder_holder(ws.drop_last());
        if ws.last() == 0 {
            assert forall|j: int| remainder_holder(ws) < j < ws.len() implies ws[j] == 0 by {
                if j < ws.len() - 1 {
                    assert(ws.drop_last()[j] == ws[j]);
                }
            }
        }
    }
}

/// The holder of the remainder among the first `n + 1` weights, from that among the first `n`.
proof fn lemma_remainder_holder_step(ws: Seq<nat>, n: int)
    requires
        0 <= n < ws.len(),
    ensures
        remainder_holder(ws.take(n + 1)) == if ws[n] > 0 {
            n
        } else {
            remainder_holder(ws.take(n))
        },
{
    assert(ws.take(n + 1).drop_last() =~= ws.take(n));
    assert(ws.take(n + 1).last() == ws[n]);
}

/// The rounded-down shares of the first `n` holders, times the total weight, are at most
/// the pool times the weight of those holders.
proof fn lemma_floor_total_scaled(pool: nat, ws: Seq<nat>, n: int)
    requires
        0 <= n <= ws.len(),
        sum(ws) > 0,
    ensures
        floor_total(pool, ws, n) * sum(ws) <= pool * sum(ws.take(n)),
    decreases n,
{
    let total = sum(ws);
    if n == 0 {
        assert(ws.take(0) =~= Seq::<nat>::empty());
        assert(floor_total(pool, ws, 0) * total == 0) by (nonlinear_arith)
            requires
                floor_total(pool, ws, 0) == 0,
        ;
    } else {
        lemma_floor_total_scaled(pool, ws, n - 1);
        lemma_sum_prefix(ws, n - 1);
        let x = pool * ws[n - 1];
        let f = floor_share(pool, ws, n - 1);
        assert(f * total <= x) by {
            vstd::arithmetic::div_mod::lemma_fundamental_div_mod(x as int, total as int);
            vstd::arithmetic::div_mod::lemma_mod_bound(x as int, total as int);
            assert(f * total == total * f) by (nonlinear_arith);
        }
        let before = floor_total(pool, ws, n - 1);
        let held = sum(ws.take(n - 1));
        assert((before + f) * total == before * total + f * total) by (nonlinear_arith);
        assert(pool * (held + ws[n - 1]) == pool * held + pool * ws[n - 1]) by (nonlinear_arith);
    }
}

/// The rounded-down shares never add up to more than the pool.
pub proof fn lemma_floor_total_bounded(pool: nat, ws: Seq<nat>, n: int)
    requires
        0 <= n <= ws.len(),
    ensures
        floor_total(pool, ws, n) <= pool,
        n < ws.len() ==> floor_total(pool, ws, n) + floor_share(pool, ws, n) <= pool,
        forall|j: int| 0 <= j < n ==> floor_share(pool, ws, j) <= floor_total(pool, ws, n),
    decreases n,
{
    let total = sum(ws);
    if total == 0 {
        lemma_floor_total_zero(pool, ws, n);
    } else {
        lemma_floor_total_scaled(pool, ws, n);
        lemma_sum_prefix(ws, n);
        let f = floor_total(pool, ws, n);
        let held = sum(ws.take(n));
        assert(f <= pool) by (nonlinear_arith)
            requires
                f * total <= pool * held,
                held <= total,
                total > 0,
        ;
        if n < ws.len() {
            lemma_floor_total_scaled(pool, ws, n + 1);
            lemma_sum_prefix(ws, n + 1);
            let g = floor_total(pool, ws, n + 1);
            let more = sum(ws.take(n + 1));
            assert(g <= pool) by (nonlinear_arith)
                requires
                    g * total <= pool * more,
                    more <= total,
                    total > 0,
            ;
        }
    }
    if n > 0 {
        lemma_floor_total_bounded(pool, ws, n - 1);
    }
}

/// Without any weight every rounded-down share is zero.
proof fn lemma_floor_total_zero(pool: nat, ws: Seq<nat>, n: int)
    requires
        0 <= n <= ws.len(),
        sum(ws) == 0,
    ensures
        floor_total(pool, ws, n) == 0,
    decreases n,
{
    if n > 0 {
        lemma_floor_total_zero(pool, ws, n - 1);
    }
}

/// The shares of the first `n` holders are their rounded-down shares, and the remainder
/// once its holder is among them.
proof fn lemma_share_total(pool: nat, ws: Seq<nat>, n: int)
    requires
        0 <= n <= ws.len(),
    ensures
        share_total(pool, ws, n) == floor_total(pool, ws, n) + if 0 <= remainder_holder(ws) < n {
            remainder(pool, ws)
        } else {
            0
        },
    decreases n,
{
    if n > 0 {
        lemma_share_total(pool, ws, n - 1);
    }
}

/// Conservation: where some holder has a positive weight, the shares add up to the pool
/// exactly.
pub proof fn lemma_shares_conserve(pool: nat, ws: Seq<nat>)
    requires
        sum(ws) > 0,
    ensures
        share_total(pool, ws, ws.len() as int) == pool,
{
    lemma_share_total(pool, ws, ws.len() as int);
    lemma_remainder_holder(ws);
    lemma_floor_total_bounded(pool, ws, ws.len() as int);
}

/// Without any weight nothing is handed out.
pub proof fn lemma_no_weight_no_share(pool: nat, ws: Seq<nat>, i: int)
    requires
        sum(ws) == 0,
        0 <= i < ws.len(),
    ensures
        share(pool, ws, i) == 0,
{
    lemma_remainder_holder(ws);
}

/// A holder without weight receives nothing.
pub proof fn lemma_zero_weight_zero_share(pool: nat, ws: Seq<nat>, i: int)
    requires
        0 <= i < ws.len(),
        ws[i] == 0,
    ensures
        share(pool, ws, i) == 0,
{
    lemma_remainder_holder(ws);
    if sum(ws) > 0 {
        assert(pool * ws[i] == 0) by (nonlinear_arith)
            requires
                ws[i] == 0,
        ;
    }
}

/// Splits `pool` among the holders of `weights`.
///
/// The result has one share per weight, in the same order. It fails only where the
/// weights do not add up within 256 bits.
pub fn distribute(pool: &U256, weights: &Vec<U256>) -> (r: Result<Vec<U256>, RewardError>)
    ensures
        r.is_err() == (sum(values(weights@)) >= u256_limit()),
        r matches Ok(shares) ==> {
            &&& shares@.len() == weights@.len()
            &&& forall|i: int|
                0 <= i < shares@.len() ==> (#[trigger] shares@[i]).value() == share(
                    pool.value(),
                    values(weights@),
                    i,
                )
        },
{
    let ghost ws = values(weights@);
    let ghost p = pool.value();
    let n = weights.len();
    let mut total = U256::zero();
    let mut i: usize = 0;
    proof {
        assert(ws.take(0) =~= Seq::<nat>::empty());
    }
    while i < n
        invariant
            i <= n,
            n == weights@.len(),
            ws == values(weights@),
            total.value() == sum(ws.take(i as int)),
        decreases n - i,
    {
        proof {
            lemma_sum_prefix(ws, i as int);
            lemma_sum_prefix(ws, i as int + 1);
        }
        match total.checked_add(&weights[i]) {
            Some(t) => {
                total = t;
            },
            None => {
                return Err(RewardError::ArithmeticOverflow);
            },
        }
        i += 1;
    }
    proof {
        assert(ws.take(n as int) =~= ws);
        total.lemma_value_bounded();
        lemma_remainder_holder(ws);
    }
    let mut shares: Vec<U256> = Vec::new();
    let mut given = U256::zero();
    let mut holder: usize = 0;
    let mut found = false;
    let mut k: usize = 0;
    proof {
        assert(ws.take(0) =~= Seq::<nat>::empty());
    }
    while k < n
        invariant
            k <= n,
            n == weights@.len(),
            ws == values(weights@),
            p == pool.value(),
            total.value() == sum(ws),
            shares@.len() == k,
            forall|j: int| 0 <= j < k ==> (#[trigger] shares@[j]).value() == floor_share(p, ws, j),
            given.value() == floor_total(p, ws, k as int),
            found ==> holder < k && holder == remainder_holder(ws.take(k as int)),
            !found ==> remainder_holder(ws.take(k as int)) == -1,
        decreases n - k,
    {
        proof {
            lemma_sum_prefix(ws, k as int);
            lemma_floor_total_bounded(p, ws, k as int);
            lemma_remainder_holder_step(ws, k as int);
            pool.lemma_value_bounded();
            if sum(ws) > 0 {
                lemma_scaled_quotient_bounded(p, ws[k as int], sum(ws));
            }
        }
        let part = if total.is_zero() {
            U256::zero()
        } else {
            pool.mul_div(&weights[k], &total)
        };
        given = given.checked_add(&part).unwrap();
        if !weights[k].is_zero() {
            holder = k;
            found = true;
        }
        shares.push(part);
        k += 1;
    }
    proof {
        assert(ws.take(n as int) =~= ws);
        lemma_floor_total_bounded(p, ws, n as int);
        pool.lemma_value_bounded();
    }
    if found {
        let rest = pool.checked_sub(&given).unwrap();
        let raised = shares[holder].checked_add(&rest).unwrap();
        shares.set(holder, raised);
    }
    Ok(shares)
}

} // verus!
