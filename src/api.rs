//! What the library decides about the remote endpoint: the request URLs, and
//! what an HTTP status means for the response body.
use vstd::prelude::*;

verus! {

#[derive(PartialEq, Eq, Structural, Clone, Copy, Debug)]
pub enum Disposition {
    /// A success: the body is to be decoded as the response envelope.
    Decode,
    /// A client error on the transactions endpoint: no more data, taken
    /// as an empty page without a cursor.
    EndOfData,
    /// Any other status: the request failed.
    Failure,
}

pub open spec fn is_success(status: u16) -> bool {
    200 <= status <= 299
}

pub open spec fn is_client_error(status: u16) -> bool {
    400 <= status <= 499
}

pub open spec fn balances_url_text(address: Seq<char>) -> Seq<char> {
    "https://api.dune.com/api/echo/v1/balances/evm/"@ + address
        + "?filters=native&exclude_spam_tokens=exclude_spam_tokens"@
}

pub open spec fn transactions_url_text(address: Seq<char>, offset: Option<Seq<char>>) -> Seq<char> {
    let base = "https://api.dune.com/api/echo/v1/transactions/evm/"@ + address + "?chain_ids=1"@;
    match offset {
        Some(o) => base + "&offset="@ + o,
        None => base,
    }
}

/// The URL of the native balances of `address`, spam tokens excluded.
pub fn balances_url(address: &str) -> (r: String)
    ensures
        r@ == balances_url_text(address@),
{
    let mut url = String::from_str("https://api.dune.com/api/echo/v1/balances/evm/");
    url.append(address);
    url.append("?filters=native&exclude_spam_tokens=exclude_spam_tokens");
    url
}

/// The URL of one page of the mainnet transactions of `address`; `offset`
/// is the continuation token of the page before, none for the first.
pub fn transactions_url(address: &str, offset: Option<&str>) -> (r: String)
    ensures
        r@ == transactions_url_text(
            address@,
            match offset {
                Some(o) => Some(o@),
                None => None,
            },
        ),
{
    let mut url = String::from_str("https://api.dune.com/api/echo/v1/transactions/evm/");
    url.append(address);
    url.append("?chain_ids=1");
    match offset {
        Some(o) => {
            url.append("&offset=");
            url.append(o);
        },
        None => {},
    }
    url
}

/// What a balances response with HTTP `status` means.
pub fn balances_disposition(status: u16) -> (r: Disposition)
    ensures
        r == (if is_success(status) {
            Disposition::Decode
        } else {
            Disposition::Failure
        }),
{
    if 200 <= status && status <= 299 {
        Disposition::Decode
    } else {
        Disposition::Failure
    }
}

/// What a transactions response with HTTP `status` means.
pub fn transactions_disposition(status: u16) -> (r: Disposition)
    ensures
        r == (if is_success(status) {
            Disposition::Decode
        } else if is_client_error(status) {
            Disposition::EndOfData
        } else {
            Disposition::Failure
        }),
{
    if 200 <= status && status <= 299 {
        Disposition::Decode
    } else if 400 <= status && status <= 499 {
        Disposition::EndOfData
    } else {
        Disposition::Failure
    }
}

} // verus!
