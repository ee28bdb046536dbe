//! Flattening of one transactions page into export rows.
use vstd::prelude::*;
use crate::digits::{
    decimal_of, decimal_text, digits_value, fraction_digits, hex_body, hex_parses, hex_to_decimal,
    hex_value, lemma_decimal_value, lemma_shift_round_trip, point_text, pow10, shift_point,
    shifted_text, whole_digits,
};
use crate::models::{AddressEntry, Transaction, TransactionApiResponse, TransactionOutputRecord};

verus! {

/// Decimal places from wei to gwei.
pub const GWEI_PLACES: usize = 9;

/// Decimal places from wei to the native unit.
pub const NATIVE_PLACES: usize = 18;

/// A hexadecimal wei amount divided by `10^k`, in exact decimal; `0` where
/// the hexadecimal does not parse into a `u64`.
pub open spec fn scaled_hex_text(h: Seq<char>, k: nat) -> Seq<char> {
    if hex_parses(h) {
        shifted_text(decimal_of(hex_value(hex_body(h))), k)
    } else {
        seq!['0']
    }
}

/// Gwei per unit of gas of an optional fee: the fee where it is given,
/// else `fallback`.
pub open spec fn fee_text(fee: Option<String>, fallback: Seq<char>) -> Seq<char> {
    match fee {
        Some(f) => scaled_hex_text(f@, GWEI_PLACES as nat),
        None => fallback,
    }
}

/// `r` is the export row of transaction `t` of address `e`.
pub open spec fn is_transaction_row(r: TransactionOutputRecord, e: AddressEntry, t: Transaction) -> bool {
    let gas = scaled_hex_text(t.gas_price@, GWEI_PLACES as nat);
    &&& r.address_type@ == e.address_type@
    &&& r.address@ == e.address@
    &&& r.chain@ == t.chain@
    &&& r.from@ == t.from@
    &&& r.to@ == t.to@
    &&& r.value@ == scaled_hex_text(t.value@, NATIVE_PLACES as nat)
    &&& r.transaction_type@ == t.transaction_type@
    &&& r.gas_price@ == gas
    &&& r.max_fee_per_gas@ == fee_text(t.max_fee_per_gas, gas)
    &&& r.max_priority_fee_per_gas@ == fee_text(t.max_priority_fee_per_gas, seq!['0'])
    &&& r.block_time@ == t.block_time@
}

/// A wei amount written in units of `10^k` wei scales back exactly: for every
/// hexadecimal amount that parses, the whole part times `10^k` plus the
/// fraction at its place equals the amount in wei.
pub proof fn lemma_scaled_hex_round_trip(h: Seq<char>, k: nat)
    requires
        hex_parses(h),
    ensures
        ({
            let wei = hex_value(hex_body(h));
            let whole = whole_digits(decimal_of(wei), k);
            let fraction = fraction_digits(decimal_of(wei), k);
            &&& scaled_hex_text(h, k) == point_text(whole, fraction)
            &&& fraction.len() <= k
            &&& digits_value(whole) * pow10(k) + digits_value(fraction) * pow10(
                (k - fraction.len()) as nat,
            ) == wei
        }),
{
    let wei = hex_value(hex_body(h));
    lemma_decimal_value(wei);
    lemma_shift_round_trip(decimal_of(wei), k);
}

/// A hexadecimal wei amount divided by `10^k`, in exact decimal, or `0`
/// where it is not a hexadecimal `u64`.
pub fn scale_hex(h: &str, k: usize) -> (r: String)
    requires
        k < usize::MAX,
    ensures
        r@ == scaled_hex_text(h@, k as nat),
{
    match hex_to_decimal(h) {
        Some(v) => {
            let digits = decimal_text(v);
            shift_point(digits.as_str(), k)
        },
        None => {
            proof {
                reveal_strlit("0");
            }
            let r = String::from_str("0");
            assert(r@ =~= seq!['0']);
            r
        },
    }
}

fn fee_or(fee: &Option<String>, fallback: &String) -> (r: String)
    ensures
        r@ == fee_text(*fee, fallback@),
{
    match fee {
        Some(f) => scale_hex(f.as_str(), GWEI_PLACES),
        None => fallback.clone(),
    }
}

/// The export row of one transaction of address `entry`.
pub fn normalize_transaction(entry: &AddressEntry, tx: &Transaction) -> (r: TransactionOutputRecord)
    ensures
        is_transaction_row(r, *entry, *tx),
{
    proof {
        reveal_strlit("0");
    }
    let gas_price = scale_hex(tx.gas_price.as_str(), GWEI_PLACES);
    let max_fee_per_gas = fee_or(&tx.max_fee_per_gas, &gas_price);
    let zero = String::from_str("0");
    assert(zero@ =~= seq!['0']);
    let max_priority_fee_per_gas = fee_or(&tx.max_priority_fee_per_gas, &zero);
    let value = scale_hex(tx.value.as_str(), NATIVE_PLACES);
    let r = TransactionOutputRecord {
        address_type: entry.address_type.clone(),
        address: entry.address.clone(),
        chain: tx.chain.clone(),
        from: tx.from.clone(),
        to: tx.to.clone(),
        value,
        transaction_type: tx.transaction_type.clone(),
        gas_price,
        max_fee_per_gas,
        max_priority_fee_per_gas,
        block_time: tx.block_time.clone(),
    };
    assert(r.address_type@ == entry.address_type@);
    assert(r.chain@ == tx.chain@);
    assert(r.from@ == tx.from@);
    assert(r.to@ == tx.to@);
    assert(r.transaction_type@ == tx.transaction_type@);
    assert(r.block_time@ == tx.block_time@);
    r
}

/// The export rows of one transactions page for address `entry`: one row per
/// transaction, in the order of the page.
pub fn normalize_transactions(entry: &AddressEntry, page: &TransactionApiResponse) -> (r: Vec<
    TransactionOutputRecord,
>)
    ensures
        r.len() == page.transactions.len(),
        forall|i: int|
            0 <= i < r.len() ==> is_transaction_row(#[trigger] r[i], *entry, page.transactions[i]),
{
    let mut rows: Vec<TransactionOutputRecord> = Vec::new();
    let mut i: usize = 0;
    while i < page.transactions.len()
        invariant
            i <= page.transactions.len(),
            rows.len() == i,
            forall|j: int|
                0 <= j < i ==> is_transaction_row(#[trigger] rows[j], *entry, page.transactions[j]),
        decreases page.transactions.len() - i,
    {
        rows.push(normalize_transaction(entry, &page.transactions[i]));
        i += 1;
    }
    rows
}

impl TransactionOutputRecord {
    /// The row's cells in column order: address_type, address, chain, from,
    /// to, value, transaction_type, gas_price, max_fee_per_gas,
    /// max_priority_fee_per_gas, block_time.
    pub fn fields(&self) -> (r: Vec<String>)
        ensures
            r@.map_values(|s: String| s@) == seq![
                self.address_type@,
                self.address@,
                self.chain@,
                self.from@,
                self.to@,
                self.value@,
                self.transaction_type@,
                self.gas_price@,
                self.max_fee_per_gas@,
                self.max_priority_fee_per_gas@,
                self.block_time@,
            ],
    {
        let mut r: Vec<String> = Vec::new();
        r.push(self.address_type.clone());
        r.push(self.address.clone());
        r.push(self.chain.clone());
        r.push(self.from.clone());
        r.push(self.to.clone());
        r.push(self.value.clone());
        r.push(self.transaction_type.clone());
        r.push(self.gas_price.clone());
        r.push(self.max_fee_per_gas.clone());
        r.push(self.max_priority_fee_per_gas.clone());
        r.push(self.block_time.clone());
        assert(r@.map_values(|s: String| s@) =~= seq![
            self.address_type@,
            self.address@,
            self.chain@,
            self.from@,
            self.to@,
            self.value@,
            self.transaction_type@,
            self.gas_price@,
            self.max_fee_per_gas@,
            self.max_priority_fee_per_gas@,
            self.block_time@,
        ]);
        r
    }
}

} // verus!
