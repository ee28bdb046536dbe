//! Normalisation of per-address balance and transaction data fetched from
//! a paginated REST endpoint into flat export rows.
pub mod api;
pub mod balances;
pub mod digits;
pub mod models;
pub mod pagination;
pub mod transactions;

pub use api::{balances_disposition, balances_url, transactions_disposition, transactions_url, Disposition};
pub use balances::{adjust_amount, date_from_timestamp, normalize_balance, normalize_balances};
pub use digits::{decimal_text, hex_to_decimal, shift_point};
pub use models::{
    AddressEntry, Balance, BalanceApiResponse, BalanceOutputRecord, InputError, Transaction,
    TransactionApiResponse, TransactionOutputRecord,
};
pub use pagination::{PaginationStatus, Paginator, MAX_PAGES_PER_ADDRESS};
pub use transactions::{normalize_transaction, normalize_transactions, scale_hex, GWEI_PLACES, NATIVE_PLACES};
