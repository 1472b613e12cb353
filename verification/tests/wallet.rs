use cashu_service::activity::{
    mark_reclaimed, sort_wallet_activity_entries, topup_activity_status, TopupQuoteState,
};
use cashu_service::wallet::{
    cashu_wallet_db_path, cashu_wallet_dir, cashu_wallet_seed_path,
    legacy_cashu_wallet_state_path, normalize_cross_mint_transfer_request, normalize_mint_url,
    CashuCrossMintTransferRequest, CashuWalletActivityEntry, CashuWalletActivityKind,
    CashuWalletActivityStatus,
};

#[test]
fn wallet_test_normalize_mint_url_trims_trailing_slash_and_rejects_query() {
    assert_eq!(
        normalize_mint_url("https://mint.example/").unwrap(),
        "https://mint.example"
    );
    assert_eq!(
        normalize_mint_url("http://127.0.0.1:3338/api/v1/").unwrap(),
        "http://127.0.0.1:3338/api/v1"
    );
    assert!(normalize_mint_url("wss://mint.example").is_err());
    assert!(normalize_mint_url("https://mint.example/?x=1").is_err());
}

#[test]
fn tests_test_normalize_mint_url_trims_trailing_slash_and_rejects_query() {
    assert_eq!(
        normalize_mint_url("https://mint.example/").unwrap(),
        "https://mint.example"
    );
    assert_eq!(
        normalize_mint_url("http://127.0.0.1:3338/api/v1/").unwrap(),
        "http://127.0.0.1:3338/api/v1"
    );
    assert!(normalize_mint_url("wss://mint.example").is_err());
    assert!(normalize_mint_url("https://mint.example/?x=1").is_err());
}

#[test]
fn mint_url_errors_name_the_cause() {
    assert_eq!(normalize_mint_url("not a url").unwrap_err(), "Invalid mint URL: not a url");
    assert_eq!(
        normalize_mint_url("wss://mint.example").unwrap_err(),
        "Unsupported mint URL scheme: wss"
    );
    assert_eq!(
        normalize_mint_url("https://mint.example/#frag").unwrap_err(),
        "Mint URL must not include query or fragment"
    );
    assert_eq!(normalize_mint_url("https://Mint.Example///").unwrap(), "https://mint.example");
}

fn transfer(id: &str, source: &str, destination: &str, amount_sat: u64) -> CashuCrossMintTransferRequest {
    CashuCrossMintTransferRequest {
        transfer_id: id.to_string(),
        source_mint_url: source.to_string(),
        destination_mint_url: destination.to_string(),
        amount_sat,
        max_fee_sat: 2,
    }
}

#[test]
fn cross_mint_transfer_request_is_normalized_and_checked() {
    let ok = normalize_cross_mint_transfer_request(transfer(
        " transfer_1 ",
        "https://a.example/",
        "https://b.example",
        250_000,
    ))
    .unwrap();
    assert_eq!(ok.transfer_id, "transfer_1");
    assert_eq!(ok.source_mint_url, "https://a.example");
    assert_eq!(ok.destination_mint_url, "https://b.example");
    assert_eq!(ok.max_fee_sat, 2);

    let bad_id = normalize_cross_mint_transfer_request(transfer("a b", "https://a", "https://b", 1));
    assert_eq!(
        bad_id.unwrap_err(),
        "Cashu cross-mint transfer id must be 1-128 ASCII letters, digits, '-' or '_'"
    );
    let long_id = "x".repeat(129);
    assert!(normalize_cross_mint_transfer_request(transfer(&long_id, "https://a", "https://b", 1)).is_err());
    let max_id = "y".repeat(128);
    assert!(normalize_cross_mint_transfer_request(transfer(&max_id, "https://a", "https://b", 1)).is_ok());
    assert_eq!(
        normalize_cross_mint_transfer_request(transfer("t", "https://a", "https://b", 0)).unwrap_err(),
        "Cashu cross-mint transfer amount must be greater than zero"
    );
    assert_eq!(
        normalize_cross_mint_transfer_request(transfer("t", "https://a", "https://b", u64::MAX))
            .unwrap_err(),
        "Cashu cross-mint transfer amount is too large"
    );
    assert_eq!(
        normalize_cross_mint_transfer_request(transfer("t", "https://a/", "https://a", 5)).unwrap_err(),
        "Cashu cross-mint transfer requires two different mints"
    );
    assert!(normalize_cross_mint_transfer_request(transfer("t", "ftp://a", "https://a", 5)).is_err());
}

#[test]
fn wallet_file_layout() {
    assert_eq!(cashu_wallet_dir("/data"), "/data/cashu");
    assert_eq!(cashu_wallet_db_path("/data"), "/data/cashu/wallet.sqlite");
    assert_eq!(cashu_wallet_seed_path("/data/"), "/data/cashu/seed.json");
    assert_eq!(legacy_cashu_wallet_state_path("/data"), "/data/cashu-wallet.json");
}

fn entry(id: &str, created_at_unix: u64) -> CashuWalletActivityEntry {
    CashuWalletActivityEntry {
        id: id.to_string(),
        kind: CashuWalletActivityKind::TopUp,
        status: CashuWalletActivityStatus::Pending,
        mint_url: "https://mint.example".to_string(),
        unit: "sat".to_string(),
        amount_sat: 1,
        fee_sat: None,
        created_at_unix,
        expires_at_unix: None,
        quote_id: Some("quote-1".to_string()),
        operation_id: None,
        payment_request: None,
        token: None,
    }
}

#[test]
fn activity_is_newest_first_and_capped() {
    let mut entries = vec![entry("b", 5), entry("c", 9), entry("a", 5), entry("d", 1)];
    sort_wallet_activity_entries(&mut entries);
    let ids: Vec<&str> = entries.iter().map(|e| e.id.as_str()).collect();
    assert_eq!(ids, ["c", "b", "a", "d"]);

    let mut many: Vec<CashuWalletActivityEntry> = (0..205).map(|i| entry(&format!("e{i:03}"), i)).collect();
    sort_wallet_activity_entries(&mut many);
    assert_eq!(many.len(), 200);
    assert_eq!(many[0].created_at_unix, 204);
    assert_eq!(many[199].created_at_unix, 5);
}

#[test]
fn topup_status_follows_quote_state_and_expiry() {
    let e = entry("t", 1);
    assert_eq!(topup_activity_status(&e, Some(TopupQuoteState::Paid), 10), CashuWalletActivityStatus::Complete);
    assert_eq!(topup_activity_status(&e, Some(TopupQuoteState::Issued), 10), CashuWalletActivityStatus::Complete);
    assert_eq!(
        topup_activity_status(&e, Some(TopupQuoteState::Unpaid { expiry_unix: 5 }), 10),
        CashuWalletActivityStatus::Expired
    );
    assert_eq!(
        topup_activity_status(&e, Some(TopupQuoteState::Unpaid { expiry_unix: 0 }), 10),
        CashuWalletActivityStatus::Pending
    );
    assert_eq!(topup_activity_status(&e, None, 10), CashuWalletActivityStatus::Pending);
    let expiring = CashuWalletActivityEntry { expires_at_unix: Some(3), ..entry("t", 1) };
    assert_eq!(topup_activity_status(&expiring, None, 10), CashuWalletActivityStatus::Expired);
    let no_quote = CashuWalletActivityEntry { quote_id: None, ..entry("t", 1) };
    assert_eq!(topup_activity_status(&no_quote, Some(TopupQuoteState::Paid), 10), CashuWalletActivityStatus::Pending);
}

#[test]
fn reclaiming_marks_only_matching_token_sends() {
    let send = CashuWalletActivityEntry {
        kind: CashuWalletActivityKind::TokenSend,
        operation_id: Some("op-1".to_string()),
        ..entry("s", 1)
    };
    let other = CashuWalletActivityEntry { operation_id: Some("op-2".to_string()), ..send.clone() };
    let mut entries = vec![send.clone(), other.clone(), entry("topup", 2)];
    assert!(mark_reclaimed(&mut entries, "op-1"));
    assert_eq!(entries[0].status, CashuWalletActivityStatus::Reclaimed);
    assert_eq!(entries[1], other);
    assert!(!mark_reclaimed(&mut entries, "op-1"));
}
