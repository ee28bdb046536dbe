use chain_export::{
    balances_disposition, balances_url, normalize_transactions, transactions_disposition,
    transactions_url, AddressEntry, Disposition, PaginationStatus, Paginator, Transaction,
    TransactionApiResponse,
};

fn tx(hash: &str) -> Transaction {
    Transaction {
        address: "0xABC".to_string(),
        block_hash: "0xb".to_string(),
        block_number: 1,
        block_time: hash.to_string(),
        chain: "ethereum".to_string(),
        from: "0xABC".to_string(),
        to: "0xDEF".to_string(),
        data: "0x".to_string(),
        gas_price: "0x0".to_string(),
        hash: hash.to_string(),
        index: 0,
        transaction_type: "Legacy".to_string(),
        value: "0x0".to_string(),
        max_fee_per_gas: None,
        max_priority_fee_per_gas: None,
    }
}

#[test]
fn pagination_follows_cursors_to_the_end() {
    let script: Vec<(Vec<&str>, Option<&str>)> =
        vec![(vec!["t1", "t2"], Some("a")), (vec!["t3"], Some("b")), (vec!["t4", "t5"], None)];
    let entry = AddressEntry { address_type: "EOA".to_string(), address: "0xABC".to_string() };
    let mut pager = Paginator::new(100);
    let mut sent: Vec<Option<String>> = vec![];
    let mut out: Vec<String> = vec![];
    while pager.status() == PaginationStatus::Fetching {
        sent.push(pager.cursor().map(|c| c.to_string()));
        let (txs, next) = &script[sent.len() - 1];
        let page = TransactionApiResponse {
            transactions: txs.iter().map(|h| tx(h)).collect(),
            next_offset: next.map(|c| c.to_string()),
        };
        for row in normalize_transactions(&entry, &page) {
            out.push(row.block_time);
        }
        pager.record_page(page.next_offset);
    }
    assert_eq!(sent, vec![None, Some("a".to_string()), Some("b".to_string())]);
    assert_eq!(pager.pages_fetched(), 3);
    assert_eq!(pager.status(), PaginationStatus::Done);
    assert_eq!(out, vec!["t1", "t2", "t3", "t4", "t5"]);
}

#[test]
fn pagination_stops_on_endless_cursors() {
    let mut pager = Paginator::new(5);
    let mut fetches: u32 = 0;
    while pager.status() == PaginationStatus::Fetching && fetches < 1000 {
        fetches += 1;
        pager.record_page(Some(format!("cursor{}", fetches)));
    }
    assert_eq!(fetches, 5);
    assert_eq!(pager.pages_fetched(), 5);
    assert_eq!(pager.status(), PaginationStatus::BudgetExceeded);
}

#[test]
fn pagination_failure_abandons_address() {
    let mut pager = Paginator::new(10);
    pager.record_page(Some("a".to_string()));
    assert_eq!(pager.cursor(), Some("a"));
    pager.record_failure();
    assert_eq!(pager.status(), PaginationStatus::Done);
    assert_eq!(pager.pages_fetched(), 1);
    pager.record_page(Some("b".to_string()));
    assert_eq!(pager.pages_fetched(), 1);
}

#[test]
fn pagination_empty_cursor_ends() {
    let mut pager = Paginator::new(10);
    pager.record_page(Some(String::new()));
    assert_eq!(pager.status(), PaginationStatus::Done);
    assert_eq!(pager.cursor(), None);
}

#[test]
fn pagination_zero_budget() {
    let pager = Paginator::new(0);
    assert_eq!(pager.status(), PaginationStatus::BudgetExceeded);
}

#[test]
fn last_budgeted_page_without_cursor_is_done() {
    let mut pager = Paginator::new(1);
    pager.record_page(None);
    assert_eq!(pager.status(), PaginationStatus::Done);
}

#[test]
fn urls() {
    assert_eq!(
        balances_url("0xABC"),
        "https://api.dune.com/api/echo/v1/balances/evm/0xABC?filters=native&exclude_spam_tokens=exclude_spam_tokens"
    );
    assert_eq!(
        transactions_url("0xABC", None),
        "https://api.dune.com/api/echo/v1/transactions/evm/0xABC?chain_ids=1"
    );
    assert_eq!(
        transactions_url("0xABC", Some("xyz")),
        "https://api.dune.com/api/echo/v1/transactions/evm/0xABC?chain_ids=1&offset=xyz"
    );
}

#[test]
fn status_dispositions() {
    assert_eq!(transactions_disposition(200), Disposition::Decode);
    assert_eq!(transactions_disposition(404), Disposition::EndOfData);
    assert_eq!(transactions_disposition(500), Disposition::Failure);
    assert_eq!(transactions_disposition(302), Disposition::Failure);
    assert_eq!(balances_disposition(204), Disposition::Decode);
    assert_eq!(balances_disposition(404), Disposition::Failure);
    assert_eq!(balances_disposition(503), Disposition::Failure);
}
