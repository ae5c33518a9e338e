//! The weight of each address in one window: its latest debt share, and the pool fees
//! of its exchanges.

use vstd::prelude::*;
use crate::address::{Address, Rank, contains_address};
use crate::fees::Window;
use crate::graphql::{DebtEntry, ExchangeEntry};
use crate::shares::RewardError;
use crate::uint::{U256, u256_limit};

verus! {

/// The weights of one address.
#[derive(Clone, Copy, Debug, PartialEq, Eq)]
pub struct AddressWeights {
    pub address: Address,
    pub staking_weight: U256,
    pub fee_weight: U256,
}

/// Whether a debt snapshot counts: it was taken within the window by an address that is
/// not blocked.
pub open spec fn debt_counts(e: DebtEntry, w: Window, blocked: Seq<Address>) -> bool {
    w.holds(e.timestamp) && !blocked.contains(e.address)
}

/// Whether an exchange counts for the weight of the address that made it.
pub open spec fn exchange_counts(e: ExchangeEntry, w: Window, blocked: Seq<Address>) -> bool {
    w.holds(e.timestamp) && !blocked.contains(e.from_addr)
}

/// The staking weight of `a`: the debt proportion of its last snapshot that counts, and
/// zero where it has none.
pub open spec fn staking_weight(
    debts: Seq<DebtEntry>,
    w: Window,
    blocked: Seq<Address>,
    a: Address,
) -> nat
    decreases debts.len(),
{
    if debts.len() == 0 {
        0
    } else if debts.last().address == a && debt_counts(debts.last(), w, blocked) {
        debts.last().debt_proportion.value()
    } else {
        staking_weight(debts.drop_last(), w, blocked, a)
    }
}

/// The fee weight of `a`: the pool fees of its exchanges that count.
pub open spec fn fee_weight(
    exchanges: Seq<ExchangeEntry>,
    w: Window,
    blocked: Seq<Address>,
    a: Address,
) -> nat
    decreases exchanges.len(),
{
    if exchanges.len() == 0 {
        0
    } else {
        fee_weight(exchanges.drop_last(), w, blocked, a) + if exchanges.last().from_addr == a
            && exchange_counts(exchanges.last(), w, blocked) {
            exchanges.last().fee_for_pool.value()
        } else {
            0
        }
    }
}

/// The fee weight of all addresses together.
pub open spec fn total_fee_weight(
    exchanges: Seq<ExchangeEntry>,
    w: Window,
    blocked: Seq<Address>,
) -> nat
    decreases exchanges.len(),
{
    if exchanges.len() == 0 {
        0
    } else {
        total_fee_weight(exchanges.drop_last(), w, blocked) + if exchange_counts(
            exchanges.last(),
            w,
            blocked,
        ) {
            exchanges.last().fee_for_pool.value()
        } else {
            0
        }
    }
}

/// Whether `a` has any weight.
pub open spec fn has_weight(
    debts: Seq<DebtEntry>,
    exchanges: Seq<ExchangeEntry>,
    w: Window,
    blocked: Seq<Address>,
    a: Address,
) -> bool {
    staking_weight(debts, w, blocked, a) > 0 || fee_weight(exchanges, w, blocked, a) > 0
}

/// Exclusion: a blocked address has no weight of either kind.
pub proof fn lemma_blocked_weightless(
    debts: Seq<DebtEntry>,
    exchanges: Seq<ExchangeEntry>,
    w: Window,
    blocked: Seq<Address>,
    a: Address,
)
    requires
        blocked.contains(a),
    ensures
        staking_weight(debts, w, blocked, a) == 0,
        fee_weight(exchanges, w, blocked, a) == 0,
    decreases debts.len() + exchanges.len(),
{
    if debts.len() > 0 {
        lemma_blocked_weightless(debts.drop_last(), exchanges, w, blocked, a);
    } else if exchanges.len() > 0 {
        lemma_blocked_weightless(debts, exchanges.drop_last(), w, blocked, a);
    }
}

/// An address with staking weight has a snapshot in the window.
pub proof fn lemma_staking_weight_source(
    debts: Seq<DebtEntry>,
    w: Window,
    blocked: Seq<Address>,
    a: Address,
)
    requires
        staking_weight(debts, w, blocked, a) > 0,
    ensures
        exists|i: int|
            0 <= i < debts.len() && (#[trigger] debts[i]).address == a && w.holds(
                debts[i].timestamp,
            ),
    decreases debts.len(),
{
    if debts.last().address == a && debt_counts(debts.last(), w, blocked) {
        assert(debts[debts.len() - 1].address == a);
    } else {
        lemma_staking_weight_source(debts.drop_last(), w, blocked, a);
        let i = choose|i: int|
            0 <= i < debts.drop_last().len() && (#[trigger] debts.drop_last()[i]).address == a
                && w.holds(debts.drop_last()[i].timestamp);
        assert(debts[i] == debts.drop_last()[i]);
    }
}

/// An address with fee weight has an exchange in the window.
pub proof fn lemma_fee_weight_source(
    exchanges: Seq<ExchangeEntry>,
    w: Window,
    blocked: Seq<Address>,
    a: Address,
)
    requires
        fee_weight(exchanges, w, blocked, a) > 0,
    ensures
        exists|i: int|
            0 <= i < exchanges.len() && (#[trigger] exchanges[i]).from_addr == a && w.holds(
                exchanges[i].timestamp,
            ),
    decreases exchanges.len(),
{
    if exchanges.last().from_addr == a && exchange_counts(exchanges.last(), w, blocked) {
        assert(exchanges[exchanges.len() - 1].from_addr == a);
    } else {
        lemma_fee_weight_source(exchanges.drop_last(), w, blocked, a);
        let i = choose|i: int|
            0 <= i < exchanges.drop_last().len() && (#[trigger] exchanges.drop_last()[i]).from_addr
                == a && w.holds(exchanges.drop_last()[i].timestamp);
        assert(exchanges[i] == exchanges.drop_last()[i]);
    }
}

/// The fee weight of one address over a prefix is at most the fee weight of all addresses
/// over the whole.
pub proof fn lemma_fee_weight_bounded(
    exchanges: Seq<ExchangeEntry>,
    w: Window,
    blocked: Seq<Address>,
    a: Address,
    n: int,
)
    requires
        0 <= n <= exchanges.len(),
    ensures
        fee_weight(exchanges.take(n), w, blocked, a) <= total_fee_weight(
            exchanges.take(n),
            w,
            blocked,
        ),
        total_fee_weight(exchanges.take(n), w, blocked) <= total_fee_weight(
            exchanges,
            w,
            blocked,
        ),
    decreases exchanges.len() - n, n,
{
    if n > 0 {
        assert(exchanges.take(n).drop_last() =~= exchanges.take(n - 1));
        lemma_fee_weight_below_total(exchanges.take(n), w, blocked, a);
    }
    if n == exchanges.len() {
        assert(exchanges.take(n) =~= exchanges);
    } else {
        assert(exchanges.take(n + 1).drop_last() =~= exchanges.take(n));
        lemma_fee_weight_bounded(exchanges, w, blocked, a, n + 1);
    }
}

/// The fee weight of one address is at most the fee weight of all.
pub proof fn lemma_fee_weight_below_total(
    exchanges: Seq<ExchangeEntry>,
    w: Window,
    blocked: Seq<Address>,
    a: Address,
)
    ensures
        fee_weight(exchanges, w, blocked, a) <= total_fee_weight(exchanges, w, blocked),
    decreases exchanges.len(),
{
    if exchanges.len() > 0 {
        lemma_fee_weight_below_total(exchanges.drop_last(), w, blocked, a);
    }
}

/// The staking weight of `a`.
pub fn staking_weight_of(
    debts: &Vec<DebtEntry>,
    w: &Window,
    blocked: &Vec<Address>,
    a: &Address,
) -> (r: U256)
    ensures
        r.value() == staking_weight(debts@, *w, blocked@, *a),
{
    let mut weight = U256::zero();
    if contains_address(blocked, a) {
        proof {
            lemma_blocked_weightless(debts@, Seq::empty(), *w, blocked@, *a);
        }
        return weight;
    }
    let mut i: usize = 0;
    assert(debts@.take(0) =~= Seq::<DebtEntry>::empty());
    while i < debts.len()
        invariant
            i <= debts.len(),
            !blocked@.contains(*a),
            weight.value() == staking_weight(debts@.take(i as int), *w, blocked@, *a),
        decreases debts.len() - i,
    {
        assert(debts@.take(i as int + 1).drop_last() =~= debts@.take(i as int));
        if w.contains(debts[i].timestamp) && debts[i].address.same(a) {
            weight = debts[i].debt_proportion;
        }
        i += 1;
    }
    assert(debts@.take(i as int) =~= debts@);
    weight
}

/// The fee weight of `a`, where the fee weights of all addresses fit in 256 bits together.
pub fn fee_weight_of(
    exchanges: &Vec<ExchangeEntry>,
    w: &Window,
    blocked: &Vec<Address>,
    a: &Address,
) -> (r: U256)
    requires
        total_fee_weight(exchanges@, *w, blocked@) < u256_limit(),
    ensures
        r.value() == fee_weight(exchanges@, *w, blocked@, *a),
{
    let mut weight = U256::zero();
    if contains_address(blocked, a) {
        proof {
            lemma_blocked_weightless(Seq::empty(), exchanges@, *w, blocked@, *a);
        }
        return weight;
    }
    let mut i: usize = 0;
    assert(exchanges@.take(0) =~= Seq::<ExchangeEntry>::empty());
    while i < exchanges.len()
        invariant
            i <= exchanges.len(),
            !blocked@.contains(*a),
            total_fee_weight(exchanges@, *w, blocked@) < u256_limit(),
            weight.value() == fee_weight(exchanges@.take(i as int), *w, blocked@, *a),
        decreases exchanges.len() - i,
    {
        proof {
            assert(exchanges@.take(i as int + 1).drop_last() =~= exchanges@.take(i as int));
            lemma_fee_weight_bounded(exchanges@, *w, blocked@, *a, i as int + 1);
        }
        if w.contains(exchanges[i].timestamp) && exchanges[i].from_addr.same(a) {
            weight = weight.checked_add(&exchanges[i].fee_for_pool).unwrap();
        }
        i += 1;
    }
    assert(exchanges@.take(i as int) =~= exchanges@);
    weight
}

/// The fee weight of all addresses together, or `None` where it needs more than 256 bits.
pub fn total_fee_weight_of(
    exchanges: &Vec<ExchangeEntry>,
    w: &Window,
    blocked: &Vec<Address>,
) -> (r: Option<U256>)
    ensures
        r.is_some() == (total_fee_weight(exchanges@, *w, blocked@) < u256_limit()),
        r matches Some(t) ==> t.value() == total_fee_weight(exchanges@, *w, blocked@),
{
    let mut total = U256::zero();
    let mut i: usize = 0;
    assert(exchanges@.take(0) =~= Seq::<ExchangeEntry>::empty());
    while i < exchanges.len()
        invariant
            i <= exchanges.len(),
            total.value() == total_fee_weight(exchanges@.take(i as int), *w, blocked@),
        decreases exchanges.len() - i,
    {
        proof {
            assert(exchanges@.take(i as int + 1).drop_last() =~= exchanges@.take(i as int));
            lemma_fee_weight_bounded(
                exchanges@,
                *w,
                blocked@,
                exchanges@[i as int].from_addr,
                i as int + 1,
            );
        }
        if w.contains(exchanges[i].timestamp) && !contains_address(
            blocked,
            &exchanges[i].from_addr,
        ) {
            match total.checked_add(&exchanges[i].fee_for_pool) {
                Some(t) => {
                    total = t;
                },
                None => {
                    return None;
                },
            }
        }
        i += 1;
    }
    proof {
        assert(exchanges@.take(i as int) =~= exchanges@);
        total.lemma_value_bounded();
    }
    Some(total)
}

/// Whether the addresses stand in strictly ascending canonical order.
pub open spec fn ascending(s: Seq<Address>) -> bool {
    forall|i: int, j: int| 0 <= i < j < s.len() ==> s[i].key() < s[j].key()
}

/// Canonical order is unique: two strictly ascending sequences that hold the same
/// addresses are the same sequence.
pub proof fn lemma_ascending_unique(s: Seq<Address>, t: Seq<Address>)
    requires
        ascending(s),
        ascending(t),
        forall|a: Address| s.contains(a) <==> t.contains(a),
    ensures
        s == t,
    decreases s.len(),
{
    if s.len() == 0 {
        if t.len() > 0 {
            assert(t.contains(t[0]));
        }
        assert(s =~= t);
    } else {
        let top = s.last();
        assert(s.contains(top));
        assert(t.contains(top));
        assert(t.contains(t.last()));
        assert(s.contains(t.last()));
        let i = choose|i: int| 0 <= i < t.len() && t[i] == top;
        let j = choose|j: int| 0 <= j < s.len() && s[j] == t.last();
        assert(t.last().key() == top.key());
        top.lemma_key_injective(t.last());
        let s0 = s.drop_last();
        let t0 = t.drop_last();
        assert forall|a: Address| s0.contains(a) <==> t0.contains(a) by {
            if s0.contains(a) {
                let k = choose|k: int| 0 <= k < s0.len() && s0[k] == a;
                assert(s[k] == a);
                assert(s.contains(a));
                let m = choose|m: int| 0 <= m < t.len() && t[m] == a;
                assert(a.key() < top.key());
                assert(m < t.len() - 1);
                assert(t0[m] == a);
            }
            if t0.contains(a) {
                let k = choose|k: int| 0 <= k < t0.len() && t0[k] == a;
                assert(t[k] == a);
                assert(t.contains(a));
                let m = choose|m: int| 0 <= m < s.len() && s[m] == a;
                assert(a.key() < top.key());
                assert(m < s.len() - 1);
                assert(s0[m] == a);
            }
        }
        lemma_ascending_unique(s0, t0);
        assert(s =~= s0.push(top));
        assert(t =~= t0.push(top));
    }
}

/// Puts `a` at its place in an ascending list, unless the list holds it already.
pub fn insert_sorted(list: &mut Vec<Address>, a: Address)
    requires
        ascending(old(list)@),
    ensures
        ascending(final(list)@),
        forall|x: Address| final(list)@.contains(x) <==> (old(list)@.contains(x) || x == a),
{
    let mut i: usize = 0;
    let mut stop = false;
    while i < list.len() && !stop
        invariant
            i <= list.len(),
            list@ == old(list)@,
            ascending(list@),
            forall|j: int| 0 <= j < i ==> list@[j].key() < a.key(),
            stop ==> i < list.len() && list@[i as int].key() > a.key(),
        decreases list.len() - i + if stop { 0int } else { 1int },
    {
        match list[i].rank(&a) {
            Rank::Below => {
                i += 1;
            },
            Rank::Same => {
                assert(list@.contains(a));
                return ;
            },
            Rank::Above => {
                stop = true;
            },
        }
    }
    let ghost before = list@;
    list.insert(i, a);
    proof {
        let after = list@;
        assert(after == before.insert(i as int, a));
        assert forall|p: int, q: int| 0 <= p < q < after.len() implies after[p].key()
            < after[q].key() by {
            if q < i {
                assert(after[p] == before[p] && after[q] == before[q]);
            } else if q == i {
                assert(after[p] == before[p]);
            } else if p < i {
                assert(after[p] == before[p] && after[q] == before[q - 1]);
                assert(i <= q - 1);
            } else if p == i {
                assert(after[q] == before[q - 1]);
            } else {
                assert(after[p] == before[p - 1] && after[q] == before[q - 1]);
            }
        }
        assert forall|x: Address| after.contains(x) <==> (before.contains(x) || x == a) by {
            if before.contains(x) {
                let k = choose|k: int| 0 <= k < before.len() && before[k] == x;
                if k < i {
                    assert(after[k] == x);
                } else {
                    assert(after[k + 1] == x);
                }
            }
            if x == a {
                assert(after[i as int] == a);
            }
            if after.contains(x) {
                let k = choose|k: int| 0 <= k < after.len() && after[k] == x;
                if k < i {
                    assert(before[k] == x);
                } else if k > i {
                    assert(before[k - 1] == x);
                }
            }
        }
    }
}

/// Whether `a` made a debt snapshot or an exchange within the window.
pub open spec fn is_candidate(
    debts: Seq<DebtEntry>,
    exchanges: Seq<ExchangeEntry>,
    w: Window,
    a: Address,
) -> bool {
    ||| exists|i: int|
        0 <= i < debts.len() && (#[trigger] debts[i]).address == a && w.holds(debts[i].timestamp)
    ||| exists|i: int|
        0 <= i < exchanges.len() && (#[trigger] exchanges[i]).from_addr == a && w.holds(
            exchanges[i].timestamp,
        )
}

/// The addresses that may have weight in the window, in ascending order: exactly those of
/// the debt snapshots and of the exchanges that lie in it.
pub fn candidates(debts: &Vec<DebtEntry>, exchanges: &Vec<ExchangeEntry>, w: &Window) -> (r: Vec<
    Address,
>)
    ensures
        ascending(r@),
        forall|a: Address| r@.contains(a) <==> is_candidate(debts@, exchanges@, *w, a),
{
    let mut list: Vec<Address> = Vec::new();
    let mut i: usize = 0;
    while i < debts.len()
        invariant
            i <= debts.len(),
            ascending(list@),
            forall|k: int|
                0 <= k < i && w.holds((#[trigger] debts@[k]).timestamp) ==> list@.contains(
                    debts@[k].address,
                ),
            forall|a: Address| list@.contains(a) ==> is_candidate(debts@, exchanges@, *w, a),
        decreases debts.len() - i,
    {
        if w.contains(debts[i].timestamp) {
            assert(is_candidate(debts@, exchanges@, *w, debts@[i as int].address));
            insert_sorted(&mut list, debts[i].address);
        }
        i += 1;
    }
    let mut j: usize = 0;
    while j < exchanges.len()
        invariant
            j <= exchanges.len(),
            ascending(list@),
            forall|k: int|
                0 <= k < debts@.len() && w.holds((#[trigger] debts@[k]).timestamp)
                    ==> list@.contains(debts@[k].address),
            forall|k: int|
                0 <= k < j && w.holds((#[trigger] exchanges@[k]).timestamp) ==> list@.contains(
                    exchanges@[k].from_addr,
                ),
            forall|a: Address| list@.contains(a) ==> is_candidate(debts@, exchanges@, *w, a),
        decreases exchanges.len() - j,
    {
        if w.contains(exchanges[j].timestamp) {
            assert(is_candidate(debts@, exchanges@, *w, exchanges@[j as int].from_addr));
            insert_sorted(&mut list, exchanges[j].from_addr);
        }
        j += 1;
    }
    list
}

/// The addresses of a table of weights.
pub open spec fn addresses(t: Seq<AddressWeights>) -> Seq<Address> {
    t.map_values(|e: AddressWeights| e.address)
}

/// The staking weights of a table as numbers.
pub open spec fn staking_weights(t: Seq<AddressWeights>) -> Seq<nat> {
    t.map_values(|e: AddressWeights| e.staking_weight.value())
}

/// The fee weights of a table as numbers.
pub open spec fn fee_weights(t: Seq<AddressWeights>) -> Seq<nat> {
    t.map_values(|e: AddressWeights| e.fee_weight.value())
}

/// Whether `t` is the table of weights of the window: exactly the addresses that have
/// weight, each once and with its weights, in ascending order of address.
pub open spec fn is_weight_table(
    t: Seq<AddressWeights>,
    debts: Seq<DebtEntry>,
    exchanges: Seq<ExchangeEntry>,
    w: Window,
    blocked: Seq<Address>,
) -> bool {
    &&& ascending(addresses(t))
    &&& forall|i: int|
        0 <= i < t.len() ==> {
            &&& (#[trigger] t[i]).staking_weight.value() == staking_weight(
                debts,
                w,
                blocked,
                t[i].address,
            )
            &&& t[i].fee_weight.value() == fee_weight(exchanges, w, blocked, t[i].address)
            &&& has_weight(debts, exchanges, w, blocked, t[i].address)
        }
    &&& forall|a: Address| #[trigger]
        has_weight(debts, exchanges, w, blocked, a) ==> addresses(t).contains(a)
}

/// Determinism: the inputs admit one table of weights only.
pub proof fn lemma_weight_table_unique(
    s: Seq<AddressWeights>,
    t: Seq<AddressWeights>,
    debts: Seq<DebtEntry>,
    exchanges: Seq<ExchangeEntry>,
    w: Window,
    blocked: Seq<Address>,
)
    requires
        is_weight_table(s, debts, exchanges, w, blocked),
        is_weight_table(t, debts, exchanges, w, blocked),
    ensures
        s == t,
{
    assert forall|a: Address| addresses(s).contains(a) <==> addresses(t).contains(a) by {
        if addresses(s).contains(a) {
            let k = choose|k: int| 0 <= k < addresses(s).len() && addresses(s)[k] == a;
            assert(s[k].address == a);
        }
        if addresses(t).contains(a) {
            let k = choose|k: int| 0 <= k < addresses(t).len() && addresses(t)[k] == a;
            assert(t[k].address == a);
        }
    }
    lemma_ascending_unique(addresses(s), addresses(t));
    assert(s.len() == addresses(s).len());
    assert(t.len() == addresses(t).len());
    assert forall|i: int| 0 <= i < s.len() implies s[i] == t[i] by {
        assert(addresses(s)[i] == s[i].address);
        assert(addresses(t)[i] == t[i].address);
        s[i].staking_weight.lemma_value_injective(t[i].staking_weight);
        s[i].fee_weight.lemma_value_injective(t[i].fee_weight);
    }
    assert(s =~= t);
}

/// Builds the table of weights of the window.
///
/// It fails only where the fee weights of all addresses do not fit in 256 bits together.
pub fn collect_weights(
    debts: &Vec<DebtEntry>,
    exchanges: &Vec<ExchangeEntry>,
    w: &Window,
    blocked: &Vec<Address>,
) -> (r: Result<Vec<AddressWeights>, RewardError>)
    ensures
        r.is_err() == (total_fee_weight(exchanges@, *w, blocked@) >= u256_limit()),
        r matches Ok(t) ==> is_weight_table(t@, debts@, exchanges@, *w, blocked@),
{
    if total_fee_weight_of(exchanges, w, blocked).is_none() {
        return Err(RewardError::ArithmeticOverflow);
    }
    let list = candidates(debts, exchanges, w);
    let mut table: Vec<AddressWeights> = Vec::new();
    let mut i: usize = 0;
    while i < list.len()
        invariant
            i <= list.len(),
            ascending(list@),
            total_fee_weight(exchanges@, *w, blocked@) < u256_limit(),
            ascending(addresses(table@)),
            forall|k: int|
                0 <= k < table@.len() ==> {
                    &&& (#[trigger] table@[k]).staking_weight.value() == staking_weight(
                        debts@,
                        *w,
                        blocked@,
                        table@[k].address,
                    )
                    &&& table@[k].fee_weight.value() == fee_weight(
                        exchanges@,
                        *w,
                        blocked@,
                        table@[k].address,
                    )
                    &&& has_weight(debts@, exchanges@, *w, blocked@, table@[k].address)
                },
            forall|k: int|
                0 <= k < table@.len() && i < list@.len() ==> (#[trigger] table@[k]).address.key()
                    < list@[i as int].key(),
            forall|k: int|
                0 <= k < i && has_weight(debts@, exchanges@, *w, blocked@, #[trigger] list@[k])
                    ==> addresses(table@).contains(list@[k]),
        decreases list.len() - i,
    {
        let a = list[i];
        let staking = staking_weight_of(debts, w, blocked, &a);
        let fee = fee_weight_of(exchanges, w, blocked, &a);
        let ghost before = table@;
        if !staking.is_zero() || !fee.is_zero() {
            table.push(AddressWeights { address: a, staking_weight: staking, fee_weight: fee });
            proof {
                let after = table@;
                assert(after == before.push(after.last()));
                assert forall|p: int, q: int| 0 <= p < q < after.len() implies addresses(
                    after,
                )[p].key() < addresses(after)[q].key() by {
                    assert(addresses(after)[p] == after[p].address);
                    assert(addresses(after)[q] == after[q].address);
                    if q < before.len() {
                        assert(addresses(before)[p] == before[p].address);
                        assert(addresses(before)[q] == before[q].address);
                    } else {
                        assert(after[p] == before[p]);
                    }
                }
                assert(addresses(after)[after.len() - 1] == a);
            }
        }
        proof {
            let after = table@;
            assert forall|k: int|
                0 <= k < i + 1 && has_weight(debts@, exchanges@, *w, blocked@, #[trigger] list@[k])
                implies addresses(after).contains(list@[k]) by {
                if k < i {
                    let m = choose|m: int|
                        0 <= m < addresses(before).len() && addresses(before)[m] == list@[k];
                    assert(before[m] == after[m]);
                    assert(addresses(after)[m] == list@[k]);
                } else {
                    assert(addresses(after)[after.len() - 1] == a);
                }
            }
        }
        i += 1;
    }
    proof {
        assert forall|a: Address| #[trigger]
            has_weight(debts@, exchanges@, *w, blocked@, a) implies addresses(table@).contains(
            a,
        ) by {
            if staking_weight(debts@, *w, blocked@, a) > 0 {
                lemma_staking_weight_source(debts@, *w, blocked@, a);
            } else {
                lemma_fee_weight_source(exchanges@, *w, blocked@, a);
            }
            assert(is_candidate(debts@, exchanges@, *w, a));
            assert(list@.contains(a));
            let k = choose|k: int| 0 <= k < list@.len() && list@[k] == a;
            assert(has_weight(debts@, exchanges@, *w, blocked@, list@[k]));
        }
    }
    Ok(table)
}

} // verus!
