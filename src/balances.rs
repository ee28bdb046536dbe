//! Flattening of one balances response into export rows.
use vstd::prelude::*;
use crate::digits::{
    all_digits, decimal_of, decimal_text, digits_value, fraction_digits, is_digit,
    lemma_shift_round_trip, point_text, pow10, shift_point, shifted_text, whole_digits,
};
use crate::models::{AddressEntry, Balance, BalanceApiResponse, BalanceOutputRecord};

verus! {

/// Whether a raw amount is a count of base units: one or more decimal digits.
pub open spec fn amount_parses(raw: Seq<char>) -> bool {
    raw.len() > 0 && all_digits(raw)
}

/// The amount in whole tokens, `raw / 10^decimals`, or `0` where `raw` does not parse.
pub open spec fn adjusted_amount_text(raw: Seq<char>, decimals: nat) -> Seq<char> {
    if amount_parses(raw) {
        shifted_text(raw, decimals)
    } else {
        seq!['0']
    }
}

pub open spec fn t_free(s: Seq<char>) -> bool {
    forall|i: int| 0 <= i < s.len() ==> s[i] != 'T'
}

pub open spec fn is_first_t(ts: Seq<char>, j: int) -> bool {
    0 <= j < ts.len() && ts[j] == 'T' && t_free(ts.take(j))
}

/// The date of an ISO-8601 timestamp: what comes before the first `T`, or
/// `unknown` where there is none.
pub open spec fn date_part(ts: Seq<char>) -> Seq<char> {
    if exists|j: int| is_first_t(ts, j) {
        ts.take(choose|j: int| is_first_t(ts, j))
    } else {
        "unknown"@
    }
}

pub open spec fn text_or(o: Option<String>, default: Seq<char>) -> Seq<char> {
    match o {
        Some(s) => s@,
        None => default,
    }
}

pub open spec fn decimals_or_zero(o: Option<u8>) -> u8 {
    match o {
        Some(d) => d,
        None => 0,
    }
}

/// `r` is the export row of balance `b` of address `e`, on date `date`.
pub open spec fn is_balance_row(
    r: BalanceOutputRecord,
    e: AddressEntry,
    b: Balance,
    date: Seq<char>,
) -> bool {
    &&& r.address_type@ == e.address_type@
    &&& r.address@ == e.address@
    &&& r.chain@ == b.chain@
    &&& r.symbol@ == text_or(b.symbol, "UNKNOWN"@)
    &&& r.raw_amount@ == b.amount@
    &&& r.adjusted_amount@ == adjusted_amount_text(b.amount@, decimals_or_zero(b.decimals) as nat)
    &&& r.decimals == decimals_or_zero(b.decimals)
    &&& r.price_usd@ == text_or(b.price_usd, seq!['0'])
    &&& r.value_usd@ == text_or(b.value_usd, seq!['0'])
    &&& r.date@ == date
    &&& r.token_address@ == b.address@
}

/// The adjusted amount scaled back by `10^decimals` is the raw amount exactly:
/// for every raw amount that parses, the adjusted text is a whole part and an
/// optional fraction of at most `decimals` digits, and whole times
/// `10^decimals` plus the fraction at its place equals the raw count.
pub proof fn lemma_adjusted_amount_round_trip(raw: Seq<char>, decimals: nat)
    requires
        amount_parses(raw),
    ensures
        ({
            let whole = whole_digits(raw, decimals);
            let fraction = fraction_digits(raw, decimals);
            &&& adjusted_amount_text(raw, decimals) == point_text(whole, fraction)
            &&& fraction.len() <= decimals
            &&& digits_value(whole) * pow10(decimals) + digits_value(fraction) * pow10(
                (decimals - fraction.len()) as nat,
            ) == digits_value(raw)
        }),
{
    lemma_shift_round_trip(raw, decimals);
}

/// Whether `raw` is one or more decimal digits.
pub fn is_unit_count(raw: &str) -> (r: bool)
    ensures
        r == amount_parses(raw@),
{
    let n = raw.unicode_len();
    let mut i: usize = 0;
    while i < n
        invariant
            i <= n == raw@.len(),
            forall|j: int| 0 <= j < i ==> is_digit(#[trigger] raw@[j]),
        decreases n - i,
    {
        let c = raw.get_char(i);
        if !('0' <= c && c <= '9') {
            return false;
        }
        i += 1;
    }
    n > 0
}

/// The amount in whole tokens: `raw / 10^decimals` in exact decimal, or `0`
/// where `raw` is not a count of base units.
pub fn adjust_amount(raw: &str, decimals: u8) -> (r: String)
    ensures
        r@ == adjusted_amount_text(raw@, decimals as nat),
{
    if is_unit_count(raw) {
        shift_point(raw, decimals as usize)
    } else {
        proof {
            reveal_strlit("0");
        }
        let r = String::from_str("0");
        assert(r@ =~= seq!['0']);
        r
    }
}

/// The date part of a response timestamp.
pub fn date_from_timestamp(ts: &str) -> (r: String)
    ensures
        r@ == date_part(ts@),
{
    let n = ts.unicode_len();
    let mut i: usize = 0;
    while i < n
        invariant
            i <= n == ts@.len(),
            t_free(ts@.take(i as int)),
        decreases n - i,
    {
        if ts.get_char(i) == 'T' {
            assert(is_first_t(ts@, i as int));
            let ghost j = choose|j: int| is_first_t(ts@, j);
            assert(j == i) by {
                if j < i {
                    assert(ts@.take(i as int)[j] == 'T');
                } else if j > i {
                    assert(ts@.take(j)[i as int] == 'T');
                }
            }
            return String::from_str(ts.substring_char(0, i));
        }
        assert(t_free(ts@.take(i + 1))) by {
            assert forall|k: int| 0 <= k < i + 1 implies #[trigger] ts@.take(i + 1)[k] != 'T' by {
                if k < i {
                    assert(ts@.take(i as int)[k] == ts@[k]);
                }
            }
        }
        i += 1;
    }
    assert(!exists|j: int| is_first_t(ts@, j)) by {
        assert(ts@.take(n as int) =~= ts@);
        assert forall|j: int| !is_first_t(ts@, j) by {
            if 0 <= j < n {
                assert(ts@.take(n as int)[j] != 'T');
            }
        }
    }
    String::from_str("unknown")
}

fn text_or_clone(o: &Option<String>, default: &str) -> (r: String)
    ensures
        r@ == text_or(*o, default@),
{
    match o {
        Some(s) => s.clone(),
        None => String::from_str(default),
    }
}

/// The export row of one balance of address `entry`, dated `date`.
pub fn normalize_balance(entry: &AddressEntry, balance: &Balance, date: &str) -> (r:
    BalanceOutputRecord)
    ensures
        is_balance_row(r, *entry, *balance, date@),
{
    proof {
        reveal_strlit("0");
    }
    let decimals = match balance.decimals {
        Some(d) => d,
        None => 0,
    };
    let symbol = text_or_clone(&balance.symbol, "UNKNOWN");
    let adjusted_amount = adjust_amount(balance.amount.as_str(), decimals);
    let price_usd = text_or_clone(&balance.price_usd, "0");
    let value_usd = text_or_clone(&balance.value_usd, "0");
    assert(symbol@ == text_or(balance.symbol, "UNKNOWN"@));
    assert(price_usd@ == text_or(balance.price_usd, seq!['0']));
    assert(adjusted_amount@ == adjusted_amount_text(balance.amount@, decimals_or_zero(balance.decimals) as nat));
    let r = BalanceOutputRecord {
        address_type: entry.address_type.clone(),
        address: entry.address.clone(),
        chain: balance.chain.clone(),
        symbol,
        raw_amount: balance.amount.clone(),
        adjusted_amount,
        decimals,
        price_usd,
        value_usd,
        date: String::from_str(date),
        token_address: balance.address.clone(),
    };
    assert(r.address_type@ == entry.address_type@);
    assert(r.chain@ == balance.chain@);
    assert(r.symbol@ == text_or(balance.symbol, "UNKNOWN"@));
    assert(r.decimals == decimals_or_zero(balance.decimals));
    assert(r.date@ == date@);
    assert(r.value_usd@ == text_or(balance.value_usd, seq!['0']));
    r
}

/// The export rows of one balances response for address `entry`: one row
/// per balance, in the order of the response, all dated by the response time.
pub fn normalize_balances(entry: &AddressEntry, response: &BalanceApiResponse) -> (r: Vec<
    BalanceOutputRecord,
>)
    ensures
        r.len() == response.balances.len(),
        forall|i: int|
            0 <= i < r.len() ==> is_balance_row(
                #[trigger] r[i],
                *entry,
                response.balances[i],
                date_part(response.response_time@),
            ),
{
    let date = date_from_timestamp(response.response_time.as_str());
    let mut rows: Vec<BalanceOutputRecord> = Vec::new();
    let mut i: usize = 0;
    while i < response.balances.len()
        invariant
            i <= response.balances.len(),
            rows.len() == i,
            date@ == date_part(response.response_time@),
            forall|j: int|
                0 <= j < i ==> is_balance_row(
                    #[trigger] rows[j],
                    *entry,
                    response.balances[j],
                    date_part(response.response_time@),
                ),
        decreases response.balances.len() - i,
    {
        rows.push(normalize_balance(entry, &response.balances[i], date.as_str()));
        i += 1;
    }
    rows
}

impl BalanceOutputRecord {
    /// The row's cells in column order: address_type, address, chain, symbol,
    /// raw_amount, adjusted_amount, decimals, price_usd, value_usd, date,
    /// token_address.
    pub fn fields(&self) -> (r: Vec<String>)
        ensures
            r@.map_values(|s: String| s@) == seq![
                self.address_type@,
                self.address@,
                self.chain@,
                self.symbol@,
                self.raw_amount@,
                self.adjusted_amount@,
                decimal_of(self.decimals as nat),
                self.price_usd@,
                self.value_usd@,
                self.date@,
                self.token_address@,
            ],
    {
        let mut r: Vec<String> = Vec::new();
        r.push(self.address_type.clone());
        r.push(self.address.clone());
        r.push(self.chain.clone());
        r.push(self.symbol.clone());
        r.push(self.raw_amount.clone());
        r.push(self.adjusted_amount.clone());
        r.push(decimal_text(self.decimals as u64));
        r.push(self.price_usd.clone());
        r.push(self.value_usd.clone());
        r.push(self.date.clone());
        r.push(self.token_address.clone());
        assert(r@.map_values(|s: String| s@) =~= seq![
            self.address_type@,
            self.address@,
            self.chain@,
            self.symbol@,
            self.raw_amount@,
            self.adjusted_amount@,
            decimal_of(self.decimals as nat),
            self.price_usd@,
            self.value_usd@,
            self.date@,
            self.token_address@,
        ]);
        r
    }
}

} // verus!
