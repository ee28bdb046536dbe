//! Records as the endpoint returns them, and the flat rows that are exported.
//! Amounts that the endpoint writes as JSON numbers are held as their decimal
//! text, and computed amounts as exact decimal text.
use vstd::prelude::*;

verus! {

/// One row of the address list: what kind of address it is, and the address.
pub struct AddressEntry {
    pub address_type: String,
    pub address: String,
}

#[derive(PartialEq, Eq, Structural, Clone, Copy, Debug)]
pub enum InputError {
    /// The row has no first column, the address type.
    MissingType,
    /// The row has no second column, the address.
    MissingAddress,
}

impl AddressEntry {
    /// The entry of one input row: its first column is the type, its second
    /// the address; further columns are ignored.
    pub fn from_row(row: &Vec<String>) -> (r: Result<AddressEntry, InputError>)
        ensures
            row.len() == 0 ==> r == Err::<AddressEntry, InputError>(InputError::MissingType),
            row.len() == 1 ==> r == Err::<AddressEntry, InputError>(InputError::MissingAddress),
            row.len() >= 2 ==> (r matches Ok(e) && e.address_type@ == row[0]@ && e.address@
                == row[1]@),
    {
        if row.len() == 0 {
            Err(InputError::MissingType)
        } else if row.len() == 1 {
            Err(InputError::MissingAddress)
        } else {
            Ok(AddressEntry { address_type: row[0].clone(), address: row[1].clone() })
        }
    }
}

pub struct BalanceApiResponse {
    pub balances: Vec<Balance>,
    pub request_time: String,
    pub response_time: String,
}

pub struct Balance {
    pub address: String,
    pub chain: String,
    pub symbol: Option<String>,
    /// A count of base units, in decimal digits.
    pub amount: String,
    pub decimals: Option<u8>,
    pub price_usd: Option<String>,
    pub value_usd: Option<String>,
}

pub struct BalanceOutputRecord {
    pub address_type: String,
    pub address: String,
    pub chain: String,
    pub symbol: String,
    pub raw_amount: String,
    pub adjusted_amount: String,
    pub decimals: u8,
    pub price_usd: String,
    pub value_usd: String,
    pub date: String,
    pub token_address: String,
}

pub struct TransactionApiResponse {
    pub transactions: Vec<Transaction>,
    pub next_offset: Option<String>,
}

impl TransactionApiResponse {
    /// The page that stands for a client error: no transactions, no cursor.
    pub fn end_of_data() -> (r: Self)
        ensures
            r.transactions.len() == 0,
            r.next_offset is None,
    {
        TransactionApiResponse { transactions: Vec::new(), next_offset: None }
    }
}

pub struct Transaction {
    pub address: String,
    pub block_hash: String,
    pub block_number: u64,
    pub block_time: String,
    pub chain: String,
    pub from: String,
    pub to: String,
    pub data: String,
    /// Wei per unit of gas, as a hexadecimal literal.
    pub gas_price: String,
    pub hash: String,
    pub index: u64,
    pub transaction_type: String,
    /// Wei, as a hexadecimal literal.
    pub value: String,
    pub max_fee_per_gas: Option<String>,
    pub max_priority_fee_per_gas: Option<String>,
}

pub struct TransactionOutputRecord {
    pub address_type: String,
    pub address: String,
    pub chain: String,
    pub from: String,
    pub to: String,
    /// Native units (wei / 10^18), in decimal.
    pub value: String,
    pub transaction_type: String,
    /// Gwei (wei / 10^9), in decimal.
    pub gas_price: String,
    pub max_fee_per_gas: String,
    pub max_priority_fee_per_gas: String,
    pub block_time: String,
}

} // verus!
