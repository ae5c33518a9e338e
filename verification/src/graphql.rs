//! The entries that the indexed-data query service reports.

use vstd::prelude::*;
use crate::address::{Address, address_digits, is_address_text};
use crate::decimal::{
    FromDecStrErr,
    dec_failure,
    dec_value,
    is_u256_text,
    is_u32_text,
    is_u64_text,
    parse_u32,
    parse_u64,
    unsigned_body,
};
use crate::hexcode::hex_bytes;
use crate::uint::U256;

verus! {

/// A snapshot of an address's share of the protocol debt. Times are seconds since the
/// UNIX epoch.
#[derive(Clone, Debug, PartialEq, Eq)]
pub struct DebtEntry {
    pub id: String,
    pub index: u64,
    pub address: Address,
    pub debt_factor: U256,
    pub debt_proportion: U256,
    pub timestamp: u64,
}

/// An exchange, with the fees it paid.
#[derive(Clone, Debug, PartialEq, Eq)]
pub struct ExchangeEntry {
    pub id: String,
    pub index: u64,
    pub from_addr: Address,
    pub source_key: String,
    pub source_amount: U256,
    pub dest_addr: Address,
    pub dest_key: String,
    pub dest_recived: U256,
    pub fee_for_pool: U256,
    pub fee_for_foundation: U256,
    pub timestamp: u64,
}

/// A fee paid on a derivative position.
#[derive(Clone, Debug, PartialEq, Eq)]
pub struct PerpFeeEntry {
    pub id: String,
    pub index: u64,
    pub fee_for_pool: U256,
    pub fee_for_foundation: U256,
    pub timestamp: u64,
}

/// A reward that was claimed on chain.
#[derive(Clone, Debug, PartialEq, Eq)]
pub struct RewardClaim {
    pub id: String,
    pub index: u64,
    pub recipient: Address,
    pub period_id: u32,
    pub staking_reward: U256,
    pub fee_reward: U256,
}

/// A debt snapshot as the query service sends it: every number and address as text.
#[derive(Clone, Debug, PartialEq, Eq)]
pub struct RawDebtEntry {
    pub id: String,
    pub index: String,
    pub address: String,
    pub debt_factor: String,
    pub debt_proportion: String,
    pub timestamp: String,
}

/// An exchange as the query service sends it.
#[derive(Clone, Debug, PartialEq, Eq)]
pub struct RawExchangeEntry {
    pub id: String,
    pub index: String,
    pub from_addr: String,
    pub source_key: String,
    pub source_amount: String,
    pub dest_addr: String,
    pub dest_key: String,
    pub dest_recived: String,
    pub fee_for_pool: String,
    pub fee_for_foundation: String,
    pub timestamp: String,
}

/// A derivative fee as the query service sends it.
#[derive(Clone, Debug, PartialEq, Eq)]
pub struct RawPerpFeeEntry {
    pub id: String,
    pub index: String,
    pub fee_for_pool: String,
    pub fee_for_foundation: String,
    pub timestamp: String,
}

/// A reward claim as the query service sends it.
#[derive(Clone, Debug, PartialEq, Eq)]
pub struct RawRewardClaim {
    pub id: String,
    pub index: String,
    pub recipient: String,
    pub period_id: String,
    pub staking_reward: String,
    pub fee_reward: String,
}

/// Why a row of the query service is no entry.
#[derive(Clone, Copy, Debug, PartialEq, Eq, Structural)]
pub enum ParseError {
    /// An index, a period id or a timestamp is no unsigned integer of its width.
    Integer,
    /// An address is not 40 hexadecimal digits.
    Address,
    /// An amount is no 256-bit decimal integer.
    Amount(FromDecStrErr),
}

/// A row of the query service, which may or may not stand for an entry.
pub trait RawEntry {
    /// The entry that such a row stands for.
    type Entry;

    /// Whether every field of the row can be read.
    spec fn convertible(&self) -> bool;

    /// Whether `e` is the entry that the row stands for.
    spec fn converts_to(&self, e: Self::Entry) -> bool;

    /// What is wrong with the first field of the row that cannot be read.
    spec fn failure(&self) -> ParseError;

    /// Reads the row.
    fn convert(&self) -> (r: Result<Self::Entry, ParseError>)
        ensures
            r.is_ok() == self.convertible(),
            r matches Ok(e) ==> self.converts_to(e),
            r matches Err(x) ==> x == self.failure(),
    ;
}

/// Reads a 64-bit integer field.
fn integer_field(text: &String) -> (r: Result<u64, ParseError>)
    ensures
        r.is_ok() == is_u64_text(text@),
        r matches Ok(v) ==> v == dec_value(unsigned_body(text@)),
        r matches Err(x) ==> x == ParseError::Integer,
{
    match parse_u64(text.as_str()) {
        Some(v) => Ok(v),
        None => Err(ParseError::Integer),
    }
}

/// Reads a period id.
fn period_field(text: &String) -> (r: Result<u32, ParseError>)
    ensures
        r.is_ok() == is_u32_text(text@),
        r matches Ok(v) ==> v == dec_value(unsigned_body(text@)),
        r matches Err(x) ==> x == ParseError::Integer,
{
    match parse_u32(text.as_str()) {
        Some(v) => Ok(v),
        None => Err(ParseError::Integer),
    }
}

/// Reads an address field.
fn address_field(text: &String) -> (r: Result<Address, ParseError>)
    ensures
        r.is_ok() == is_address_text(text@),
        r matches Ok(a) ==> a.bytes@ == hex_bytes(address_digits(text@)),
        r matches Err(x) ==> x == ParseError::Address,
{
    match Address::from_text(text.as_str()) {
        Some(a) => Ok(a),
        None => Err(ParseError::Address),
    }
}

/// Reads an amount field.
fn amount_field(text: &String) -> (r: Result<U256, ParseError>)
    ensures
        r.is_ok() == is_u256_text(text@),
        r matches Ok(v) ==> v.value() == dec_value(text@),
        r matches Err(x) ==> x == ParseError::Amount(dec_failure(text@)),
{
    match U256::from_dec_str(text.as_str()) {
        Ok(v) => Ok(v),
        Err(e) => Err(ParseError::Amount(e)),
    }
}

impl RawEntry for RawDebtEntry {
    type Entry = DebtEntry;

    open spec fn convertible(&self) -> bool {
        &&& is_u64_text(self.index@)
        &&& is_address_text(self.address@)
        &&& is_u256_text(self.debt_factor@)
        &&& is_u256_text(self.debt_proportion@)
        &&& is_u64_text(self.timestamp@)
    }

    open spec fn converts_to(&self, e: DebtEntry) -> bool {
        &&& e.id@ == self.id@
        &&& e.index == dec_value(unsigned_body(self.index@))
        &&& e.address.bytes@ == hex_bytes(address_digits(self.address@))
        &&& e.debt_factor.value() == dec_value(self.debt_factor@)
        &&& e.debt_proportion.value() == dec_value(self.debt_proportion@)
        &&& e.timestamp == dec_value(unsigned_body(self.timestamp@))
    }

    open spec fn failure(&self) -> ParseError {
        if !is_u64_text(self.index@) {
            ParseError::Integer
        } else if !is_address_text(self.address@) {
            ParseError::Address
        } else if !is_u256_text(self.debt_factor@) {
            ParseError::Amount(dec_failure(self.debt_factor@))
        } else if !is_u256_text(self.debt_proportion@) {
            ParseError::Amount(dec_failure(self.debt_proportion@))
        } else {
            ParseError::Integer
        }
    }

    fn convert(&self) -> (r: Result<DebtEntry, ParseError>) {
        DebtEntry::try_from(self)
    }
}

impl DebtEntry {
    /// Reads a debt snapshot from a row, field by field in the order of the fields; the
    /// first field that cannot be read decides the error.
    pub fn try_from(value: &RawDebtEntry) -> (r: Result<DebtEntry, ParseError>)
        ensures
            r.is_ok() == value.convertible(),
            r matches Ok(e) ==> value.converts_to(e),
            r matches Err(x) ==> x == value.failure(),
    {
        let index = integer_field(&value.index)?;
        let address = address_field(&value.address)?;
        let debt_factor = amount_field(&value.debt_factor)?;
        let debt_proportion = amount_field(&value.debt_proportion)?;
        let timestamp = integer_field(&value.timestamp)?;
        Ok(
            DebtEntry {
                id: value.id.clone(),
                index,
                address,
                debt_factor,
                debt_proportion,
                timestamp,
            },
        )
    }
}

impl RawEntry for RawExchangeEntry {
    type Entry = ExchangeEntry;

    open spec fn convertible(&self) -> bool {
        &&& is_u64_text(self.index@)
        &&& is_address_text(self.from_addr@)
        &&& is_u256_text(self.source_amount@)
        &&& is_address_text(self.dest_addr@)
        &&& is_u256_text(self.dest_recived@)
        &&& is_u256_text(self.fee_for_pool@)
        &&& is_u256_text(self.fee_for_foundation@)
        &&& is_u64_text(self.timestamp@)
    }

    open spec fn converts_to(&self, e: ExchangeEntry) -> bool {
        &&& e.id@ == self.id@
        &&& e.index == dec_value(unsigned_body(self.index@))
        &&& e.from_addr.bytes@ == hex_bytes(address_digits(self.from_addr@))
        &&& e.source_key@ == self.source_key@
        &&& e.source_amount.value() == dec_value(self.source_amount@)
        &&& e.dest_addr.bytes@ == hex_bytes(address_digits(self.dest_addr@))
        &&& e.dest_key@ == self.dest_key@
        &&& e.dest_recived.value() == dec_value(self.dest_recived@)
        &&& e.fee_for_pool.value() == dec_value(self.fee_for_pool@)
        &&& e.fee_for_foundation.value() == dec_value(self.fee_for_foundation@)
        &&& e.timestamp == dec_value(unsigned_body(self.timestamp@))
    }

    open spec fn failure(&self) -> ParseError {
        if !is_u64_text(self.index@) {
            ParseError::Integer
        } else if !is_address_text(self.from_addr@) {
            ParseError::Address
        } else if !is_u256_text(self.source_amount@) {
            ParseError::Amount(dec_failure(self.source_amount@))
        } else if !is_address_text(self.dest_addr@) {
            ParseError::Address
        } else if !is_u256_text(self.dest_recived@) {
            ParseError::Amount(dec_failure(self.dest_recived@))
        } else if !is_u256_text(self.fee_for_pool@) {
            ParseError::Amount(dec_failure(self.fee_for_pool@))
        } else if !is_u256_text(self.fee_for_foundation@) {
            ParseError::Amount(dec_failure(self.fee_for_foundation@))
        } else {
            ParseError::Integer
        }
    }

    fn convert(&self) -> (r: Result<ExchangeEntry, ParseError>) {
        ExchangeEntry::try_from(self)
    }
}

impl ExchangeEntry {
    /// Reads an exchange from a row, field by field in the order of the fields; the first
    /// field that cannot be read decides the error.
    pub fn try_from(value: &RawExchangeEntry) -> (r: Result<ExchangeEntry, ParseError>)
        ensures
            r.is_ok() == value.convertible(),
            r matches Ok(e) ==> value.converts_to(e),
            r matches Err(x) ==> x == value.failure(),
    {
        let index = integer_field(&value.index)?;
        let from_addr = address_field(&value.from_addr)?;
        let source_amount = amount_field(&value.source_amount)?;
        let dest_addr = address_field(&value.dest_addr)?;
        let dest_recived = amount_field(&value.dest_recived)?;
        let fee_for_pool = amount_field(&value.fee_for_pool)?;
        let fee_for_foundation = amount_field(&value.fee_for_foundation)?;
        let timestamp = integer_field(&value.timestamp)?;
        Ok(
            ExchangeEntry {
                id: value.id.clone(),
                index,
                from_addr,
                source_key: value.source_key.clone(),
                source_amount,
                dest_addr,
                dest_key: value.dest_key.clone(),
                dest_recived,
                fee_for_pool,
                fee_for_foundation,
                timestamp,
            },
        )
    }
}

impl RawEntry for RawPerpFeeEntry {
    type Entry = PerpFeeEntry;

    open spec fn convertible(&self) -> bool {
        &&& is_u64_text(self.index@)
        &&& is_u256_text(self.fee_for_pool@)
        &&& is_u256_text(self.fee_for_foundation@)
        &&& is_u64_text(self.timestamp@)
    }

    open spec fn converts_to(&self, e: PerpFeeEntry) -> bool {
        &&& e.id@ == self.id@
        &&& e.index == dec_value(unsigned_body(self.index@))
        &&& e.fee_for_pool.value() == dec_value(self.fee_for_pool@)
        &&& e.fee_for_foundation.value() == dec_value(self.fee_for_foundation@)
        &&& e.timestamp == dec_value(unsigned_body(self.timestamp@))
    }

    open spec fn failure(&self) -> ParseError {
        if !is_u64_text(self.index@) {
            ParseError::Integer
        } else if !is_u256_text(self.fee_for_pool@) {
            ParseError::Amount(dec_failure(self.fee_for_pool@))
        } else if !is_u256_text(self.fee_for_foundation@) {
            ParseError::Amount(dec_failure(self.fee_for_foundation@))
        } else {
            ParseError::Integer
        }
    }

    fn convert(&self) -> (r: Result<PerpFeeEntry, ParseError>) {
        PerpFeeEntry::try_from(self)
    }
}

impl PerpFeeEntry {
    /// Reads a derivative fee from a row, field by field in the order of the fields; the
    /// first field that cannot be read decides the error.
    pub fn try_from(value: &RawPerpFeeEntry) -> (r: Result<PerpFeeEntry, ParseError>)
        ensures
            r.is_ok() == value.convertible(),
            r matches Ok(e) ==> value.converts_to(e),
            r matches Err(x) ==> x == value.failure(),
    {
        let index = integer_field(&value.index)?;
        let fee_for_pool = amount_field(&value.fee_for_pool)?;
        let fee_for_foundation = amount_field(&value.fee_for_foundation)?;
        let timestamp = integer_field(&value.timestamp)?;
        Ok(
            PerpFeeEntry {
                id: value.id.clone(),
                index,
                fee_for_pool,
                fee_for_foundation,
                timestamp,
            },
        )
    }
}

impl RawEntry for RawRewardClaim {
    type Entry = RewardClaim;

    open spec fn convertible(&self) -> bool {
        &&& is_u64_text(self.index@)
        &&& is_address_text(self.recipient@)
        &&& is_u32_text(self.period_id@)
        &&& is_u256_text(self.staking_reward@)
        &&& is_u256_text(self.fee_reward@)
    }

    open spec fn converts_to(&self, e: RewardClaim) -> bool {
        &&& e.id@ == self.id@
        &&& e.index == dec_value(unsigned_body(self.index@))
        &&& e.recipient.bytes@ == hex_bytes(address_digits(self.recipient@))
        &&& e.period_id == dec_value(unsigned_body(self.period_id@))
        &&& e.staking_reward.value() == dec_value(self.staking_reward@)
        &&& e.fee_reward.value() == dec_value(self.fee_reward@)
    }

    open spec fn failure(&self) -> ParseError {
        if !is_u64_text(self.index@) {
            ParseError::Integer
        } else if !is_address_text(self.recipient@) {
            ParseError::Address
        } else if !is_u32_text(self.period_id@) {
            ParseError::Integer
        } else if !is_u256_text(self.staking_reward@) {
            ParseError::Amount(dec_failure(self.staking_reward@))
        } else {
            ParseError::Amount(dec_failure(self.fee_reward@))
        }
    }

    fn convert(&self) -> (r: Result<RewardClaim, ParseError>) {
        RewardClaim::try_from(self)
    }
}

impl RewardClaim {
    /// Reads a reward claim from a row, field by field in the order of the fields; the
    /// first field that cannot be read decides the error.
    pub fn try_from(value: &RawRewardClaim) -> (r: Result<RewardClaim, ParseError>)
        ensures
            r.is_ok() == value.convertible(),
            r matches Ok(e) ==> value.converts_to(e),
            r matches Err(x) ==> x == value.failure(),
    {
        let index = integer_field(&value.index)?;
        let recipient = address_field(&value.recipient)?;
        let period_id = period_field(&value.period_id)?;
        let staking_reward = amount_field(&value.staking_reward)?;
        let fee_reward = amount_field(&value.fee_reward)?;
        Ok(
            RewardClaim {
                id: value.id.clone(),
                index,
                recipient,
                period_id,
                staking_reward,
                fee_reward,
            },
        )
    }
}

/// Whether `entries` are what the rows of a page stand for, one for one.
pub open spec fn page_converts_to<R: RawEntry>(page: Seq<R>, entries: Seq<R::Entry>) -> bool {
    &&& entries.len() == page.len()
    &&& forall|i: int| 0 <= i < page.len() ==> (#[trigger] page[i]).converts_to(entries[i])
}

/// The index of the first row of a page that cannot be read, or the length of the page.
pub open spec fn first_malformed<R: RawEntry>(page: Seq<R>) -> int
    decreases page.len(),
{
    if page.len() == 0 {
        0
    } else if first_malformed(page.drop_last()) < page.len() - 1 {
        first_malformed(page.drop_last())
    } else if page.last().convertible() {
        page.len() as int
    } else {
        page.len() - 1
    }
}

/// The rows before the first malformed row can be read, and that row cannot.
pub proof fn lemma_first_malformed<R: RawEntry>(page: Seq<R>)
    ensures
        0 <= first_malformed(page) <= page.len(),
        forall|i: int| 0 <= i < first_malformed(page) ==> (#[trigger] page[i]).convertible(),
        first_malformed(page) < page.len() ==> !page[first_malformed(page)].convertible(),
    decreases page.len(),
{
    if page.len() > 0 {
        lemma_first_malformed(page.drop_last());
        assert forall|i: int| 0 <= i < first_malformed(page) implies (#[trigger] page[
            i
        ]).convertible() by {
            if i < page.len() - 1 {
                assert(page[i] == page.drop_last()[i]);
            }
        }
        if first_malformed(page) < page.len() - 1 {
            assert(page[first_malformed(page)] == page.drop_last()[first_malformed(page)]);
        }
    }
}

/// Reads a page row by row. One row that cannot be read fails the whole page, with the
/// error of the first such row.
pub fn convert_page<R: RawEntry>(page: &Vec<R>) -> (r: Result<Vec<R::Entry>, ParseError>)
    ensures
        r.is_ok() == (first_malformed(page@) == page@.len()),
        r matches Ok(entries) ==> page_converts_to(page@, entries@),
        r matches Err(x) ==> x == page@[first_malformed(page@)].failure(),
{
    let mut entries: Vec<R::Entry> = Vec::new();
    let mut i: usize = 0;
    assert(page@.take(0) =~= Seq::<R>::empty());
    while i < page.len()
        invariant
            i <= page.len(),
            entries@.len() == i,
            first_malformed(page@.take(i as int)) == i,
            forall|k: int| 0 <= k < i ==> (#[trigger] page@[k]).converts_to(entries@[k]),
        decreases page.len() - i,
    {
        assert(page@.take(i as int + 1).drop_last() =~= page@.take(i as int));
        match page[i].convert() {
            Ok(e) => {
                entries.push(e);
            },
            Err(x) => {
                proof {
                    lemma_first_malformed_prefix(page@, i as int + 1);
                }
                return Err(x);
            },
        }
        i += 1;
    }
    assert(page@.take(i as int) =~= page@);
    Ok(entries)
}

/// A malformed row within a prefix is the first malformed row of the whole page too.
proof fn lemma_first_malformed_prefix<R: RawEntry>(page: Seq<R>, n: int)
    requires
        0 <= n <= page.len(),
        first_malformed(page.take(n)) < n,
    ensures
        first_malformed(page) == first_malformed(page.take(n)),
    decreases page.len() - n,
{
    if n == page.len() {
        assert(page.take(n) =~= page);
    } else {
        assert(page.take(n + 1).drop_last() =~= page.take(n));
        lemma_first_malformed_prefix(page, n + 1);
    }
}

} // verus!
