use chain_export::{
    date_from_timestamp, normalize_balances, normalize_transaction, normalize_transactions,
    AddressEntry, Balance, BalanceApiResponse, InputError, Transaction, TransactionApiResponse,
};

fn entry() -> AddressEntry {
    AddressEntry { address_type: "EOA".to_string(), address: "0xABC".to_string() }
}

fn eth_balance() -> Balance {
    Balance {
        address: "native".to_string(),
        chain: "ethereum".to_string(),
        symbol: Some("ETH".to_string()),
        amount: "1000000000000000000".to_string(),
        decimals: Some(18),
        price_usd: Some("2000".to_string()),
        value_usd: Some("2000".to_string()),
    }
}

fn transaction(value: &str, gas_price: &str) -> Transaction {
    Transaction {
        address: "0xABC".to_string(),
        block_hash: "0xblock".to_string(),
        block_number: 19000000,
        block_time: "2024-01-01T00:00:00Z".to_string(),
        chain: "ethereum".to_string(),
        from: "0xABC".to_string(),
        to: "0xDEF".to_string(),
        data: "0x".to_string(),
        gas_price: gas_price.to_string(),
        hash: "0xhash".to_string(),
        index: 0,
        transaction_type: "DynamicFee".to_string(),
        value: value.to_string(),
        max_fee_per_gas: None,
        max_priority_fee_per_gas: None,
    }
}

#[test]
fn date_before_t() {
    assert_eq!(date_from_timestamp("2024-01-01T00:00:00Z"), "2024-01-01");
    assert_eq!(date_from_timestamp("T12:00"), "");
}

#[test]
fn date_without_t_is_unknown() {
    assert_eq!(date_from_timestamp("2024-01-01"), "unknown");
    assert_eq!(date_from_timestamp(""), "unknown");
}

#[test]
fn balance_end_to_end() {
    let response = BalanceApiResponse {
        balances: vec![eth_balance()],
        request_time: "2024-01-01T00:00:00Z".to_string(),
        response_time: "2024-01-01T00:00:00Z".to_string(),
    };
    let rows = normalize_balances(&entry(), &response);
    assert_eq!(rows.len(), 1);
    let r = &rows[0];
    assert_eq!(r.address_type, "EOA");
    assert_eq!(r.address, "0xABC");
    assert_eq!(r.chain, "ethereum");
    assert_eq!(r.symbol, "ETH");
    assert_eq!(r.raw_amount, "1000000000000000000");
    assert_eq!(r.adjusted_amount, "1");
    assert_eq!(r.decimals, 18);
    assert_eq!(r.price_usd, "2000");
    assert_eq!(r.value_usd, "2000");
    assert_eq!(r.date, "2024-01-01");
    assert_eq!(r.token_address, "native");
    assert_eq!(
        r.fields(),
        vec![
            "EOA", "0xABC", "ethereum", "ETH", "1000000000000000000", "1", "18", "2000", "2000",
            "2024-01-01", "native"
        ]
    );
}

#[test]
fn balance_defaults_for_missing_fields() {
    let mut b = eth_balance();
    b.symbol = None;
    b.decimals = None;
    b.price_usd = None;
    b.value_usd = None;
    b.amount = "42".to_string();
    let response = BalanceApiResponse {
        balances: vec![b],
        request_time: "x".to_string(),
        response_time: "malformed".to_string(),
    };
    let rows = normalize_balances(&entry(), &response);
    assert_eq!(rows.len(), 1);
    assert_eq!(rows[0].symbol, "UNKNOWN");
    assert_eq!(rows[0].decimals, 0);
    assert_eq!(rows[0].adjusted_amount, "42");
    assert_eq!(rows[0].price_usd, "0");
    assert_eq!(rows[0].value_usd, "0");
    assert_eq!(rows[0].date, "unknown");
}

#[test]
fn no_balances_no_rows() {
    let response = BalanceApiResponse {
        balances: vec![],
        request_time: "2024-01-01T00:00:00Z".to_string(),
        response_time: "2024-01-01T00:00:00Z".to_string(),
    };
    assert!(normalize_balances(&entry(), &response).is_empty());
}

#[test]
fn no_transactions_no_rows() {
    assert!(normalize_transactions(&entry(), &TransactionApiResponse::end_of_data()).is_empty());
    let page = TransactionApiResponse::end_of_data();
    assert!(page.next_offset.is_none());
}

#[test]
fn balances_keep_response_order() {
    let mut second = eth_balance();
    second.symbol = Some("USDC".to_string());
    second.amount = "2500000".to_string();
    second.decimals = Some(6);
    let response = BalanceApiResponse {
        balances: vec![eth_balance(), second],
        request_time: "t".to_string(),
        response_time: "2024-05-06T07:08:09Z".to_string(),
    };
    let rows = normalize_balances(&entry(), &response);
    assert_eq!(rows.len(), 2);
    assert_eq!(rows[0].symbol, "ETH");
    assert_eq!(rows[1].symbol, "USDC");
    assert_eq!(rows[1].adjusted_amount, "2.5");
    assert_eq!(rows[1].date, "2024-05-06");
}

#[test]
fn transaction_end_to_end() {
    let r = normalize_transaction(&entry(), &transaction("0xde0b6b3a7640000", "0x3b9aca00"));
    assert_eq!(r.value, "1");
    assert_eq!(r.gas_price, "1");
    assert_eq!(r.max_fee_per_gas, "1");
    assert_eq!(r.max_priority_fee_per_gas, "0");
    assert_eq!(r.address_type, "EOA");
    assert_eq!(r.address, "0xABC");
    assert_eq!(r.chain, "ethereum");
    assert_eq!(r.from, "0xABC");
    assert_eq!(r.to, "0xDEF");
    assert_eq!(r.transaction_type, "DynamicFee");
    assert_eq!(r.block_time, "2024-01-01T00:00:00Z");
    assert_eq!(
        r.fields(),
        vec![
            "EOA", "0xABC", "ethereum", "0xABC", "0xDEF", "1", "DynamicFee", "1", "1", "0",
            "2024-01-01T00:00:00Z"
        ]
    );
}

#[test]
fn transaction_fees_given() {
    let mut tx = transaction("0x0", "0x3b9aca00");
    tx.max_fee_per_gas = Some("0x77359400".to_string());
    tx.max_priority_fee_per_gas = Some("0x3b9aca0".to_string());
    let r = normalize_transaction(&entry(), &tx);
    assert_eq!(r.value, "0");
    assert_eq!(r.max_fee_per_gas, "2");
    assert_eq!(r.max_priority_fee_per_gas, "0.0625");
}

#[test]
fn transaction_bad_hex_falls_back_to_zero() {
    let mut tx = transaction("garbage", "");
    tx.max_fee_per_gas = Some("0xnope".to_string());
    let r = normalize_transaction(&entry(), &tx);
    assert_eq!(r.value, "0");
    assert_eq!(r.gas_price, "0");
    assert_eq!(r.max_fee_per_gas, "0");
}

#[test]
fn transactions_keep_page_order() {
    let page = TransactionApiResponse {
        transactions: vec![transaction("0x1", "0x1"), transaction("0x2", "0x2")],
        next_offset: Some("next".to_string()),
    };
    let rows = normalize_transactions(&entry(), &page);
    assert_eq!(rows.len(), 2);
    assert_eq!(rows[0].value, "0.000000000000000001");
    assert_eq!(rows[1].value, "0.000000000000000002");
}

#[test]
fn entry_from_full_row() {
    let row = vec!["EOA".to_string(), "0xABC".to_string(), "extra".to_string()];
    let e = AddressEntry::from_row(&row).ok().unwrap();
    assert_eq!(e.address_type, "EOA");
    assert_eq!(e.address, "0xABC");
}

#[test]
fn entry_missing_columns() {
    assert_eq!(AddressEntry::from_row(&vec![]).err(), Some(InputError::MissingType));
    assert_eq!(
        AddressEntry::from_row(&vec!["EOA".to_string()]).err(),
        Some(InputError::MissingAddress)
    );
}
