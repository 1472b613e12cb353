use cashu_service::activity::TopupQuoteState;
use cashu_service::transfer::MeltQuoteState;
use cashu_service::wallet::{
    CashuTopupQuote, CashuWalletActivityEntry, CashuWalletActivityKind, CashuWalletActivityStatus,
    CashuWalletEntry,
};
use cashu_service::wallet_ops::{
    check_payment_amount, check_proof_unit, check_topup_amount,
    lightning_activity_entry, lightning_payment_preimage, mint_balance, mint_sat_balance,
    received_activity_entry, refresh_wallet_activity, select_new_proofs, send_saga_to_check, token_send_activity_entry,
    topup_activity_entry, CashuLightningPayment, CashuReceivedPayment, CashuSentPayment,
};

fn texts(v: &[&str]) -> Vec<String> {
    v.iter().map(|s| s.to_string()).collect()
}

fn entry(
    id: &str,
    kind: CashuWalletActivityKind,
    status: CashuWalletActivityStatus,
) -> CashuWalletActivityEntry {
    CashuWalletActivityEntry {
        id: id.to_string(),
        kind,
        status,
        mint_url: "https://mint.example".to_string(),
        unit: "sat".to_string(),
        amount_sat: 21,
        fee_sat: None,
        created_at_unix: 100,
        expires_at_unix: None,
        quote_id: None,
        operation_id: None,
        payment_request: None,
        token: None,
    }
}

#[test]
fn zero_amounts_are_refused() {
    assert_eq!(
        check_topup_amount(0).unwrap_err(),
        "Cashu topup amount must be greater than zero"
    );
    assert_eq!(
        check_payment_amount(0).unwrap_err(),
        "Cashu payment amount must be greater than zero"
    );
    assert!(check_topup_amount(1).is_ok());
    assert!(check_payment_amount(1).is_ok());
}

#[test]
fn only_sat_units_are_accepted() {
    assert!(check_proof_unit("  sat \n").is_ok());
    assert_eq!(
        check_proof_unit(" msat ").unwrap_err(),
        "Unsupported Cashu proof unit: msat"
    );
}

#[test]
fn only_proofs_the_wallet_lacks_are_imported_and_summed_with_saturation() {
    let ys = texts(&["y1", "y2", "y3", "y4"]);
    let amounts = vec![8, 4, u64::MAX, 2];
    let (kept, total) = select_new_proofs(&ys, &amounts, &texts(&["y2"]));
    assert_eq!(kept, vec![0, 2, 3]);
    assert_eq!(total, u64::MAX);
    let (kept, total) = select_new_proofs(&ys, &amounts, &texts(&["y3"]));
    assert_eq!(kept, vec![0, 1, 3]);
    assert_eq!(total, 14);
    let (kept, total) = select_new_proofs(&ys, &amounts, &ys);
    assert!(kept.is_empty());
    assert_eq!(total, 0);
}

#[test]
fn the_mint_balance_is_the_first_sat_entry_for_that_mint() {
    let entries = vec![
        CashuWalletEntry {
            mint_url: "https://a.example".to_string(),
            unit: "usd".to_string(),
            balance: 7,
        },
        CashuWalletEntry {
            mint_url: "https://a.example".to_string(),
            unit: "sat".to_string(),
            balance: 40,
        },
        CashuWalletEntry {
            mint_url: "https://b.example".to_string(),
            unit: "sat".to_string(),
            balance: 9,
        },
    ];
    assert_eq!(mint_sat_balance(&entries, "https://a.example"), 40);
    assert_eq!(mint_sat_balance(&entries, "https://b.example"), 9);
    assert_eq!(mint_sat_balance(&entries, "https://c.example"), 0);
    let b = mint_balance("https://a.example".to_string(), &entries);
    assert_eq!(b.mint_url, "https://a.example");
    assert_eq!(b.unit, "sat");
    assert_eq!(b.balance_sat, 40);
}

#[test]
fn lightning_payments_must_end_paid_with_a_preimage() {
    assert_eq!(
        lightning_payment_preimage(MeltQuoteState::Pending, Some("ab".to_string())).unwrap_err(),
        "Cashu Lightning payment finished in unexpected state PENDING"
    );
    assert_eq!(
        lightning_payment_preimage(MeltQuoteState::Paid, Some(String::new())).unwrap_err(),
        "Cashu Lightning payment completed without a preimage"
    );
    assert_eq!(
        lightning_payment_preimage(MeltQuoteState::Paid, None).unwrap_err(),
        "Cashu Lightning payment completed without a preimage"
    );
    assert_eq!(
        lightning_payment_preimage(MeltQuoteState::Paid, Some("ab".to_string())).unwrap(),
        "ab"
    );
}

#[test]
fn each_operation_records_its_own_activity() {
    let quote = CashuTopupQuote {
        mint_url: "https://mint.example".to_string(),
        unit: "sat".to_string(),
        amount: 21,
        quote_id: "q1".to_string(),
        payment_request: "lnbc1".to_string(),
        expiry_unix: 900,
    };
    let e = topup_activity_entry("a1".to_string(), &quote, 100);
    assert_eq!(e.kind, CashuWalletActivityKind::TopUp);
    assert_eq!(e.status, CashuWalletActivityStatus::Pending);
    assert_eq!(e.expires_at_unix, Some(900));
    assert_eq!(e.quote_id.as_deref(), Some("q1"));
    assert_eq!(e.payment_request.as_deref(), Some("lnbc1"));
    assert_eq!(e.amount_sat, 21);

    let sent = CashuSentPayment {
        mint_url: "https://mint.example".to_string(),
        unit: "sat".to_string(),
        amount_sat: 5,
        send_fee_sat: 1,
        operation_id: "op".to_string(),
        token: "cashuA".to_string(),
    };
    let e = token_send_activity_entry("a2".to_string(), &sent, 101);
    assert_eq!(e.kind, CashuWalletActivityKind::TokenSend);
    assert_eq!(e.status, CashuWalletActivityStatus::Pending);
    assert_eq!(e.fee_sat, Some(1));
    assert_eq!(e.operation_id.as_deref(), Some("op"));
    assert_eq!(e.token.as_deref(), Some("cashuA"));

    let paid = CashuLightningPayment {
        mint_url: "https://mint.example".to_string(),
        unit: "sat".to_string(),
        amount_sat: 9,
        fee_paid_sat: 2,
        quote_id: "mq".to_string(),
        preimage: "00".to_string(),
    };
    let e = lightning_activity_entry("a3".to_string(), &paid, "lnbc9".to_string(), 102);
    assert_eq!(e.kind, CashuWalletActivityKind::LightningPayment);
    assert_eq!(e.status, CashuWalletActivityStatus::Complete);
    assert_eq!(e.fee_sat, Some(2));
    assert_eq!(e.quote_id.as_deref(), Some("mq"));
    assert_eq!(e.payment_request.as_deref(), Some("lnbc9"));

    let got = CashuReceivedPayment {
        mint_url: "https://mint.example".to_string(),
        unit: "sat".to_string(),
        amount_sat: 3,
    };
    let e = received_activity_entry("a4".to_string(), CashuWalletActivityKind::ChannelCollect, &got, 103);
    assert_eq!(e.kind, CashuWalletActivityKind::ChannelCollect);
    assert_eq!(e.status, CashuWalletActivityStatus::Complete);
    assert_eq!(e.amount_sat, 3);
    assert_eq!(e.created_at_unix, 103);
}

#[test]
fn stored_activity_follows_quotes_and_settled_sends() {
    let mut topup = entry("t", CashuWalletActivityKind::TopUp, CashuWalletActivityStatus::Pending);
    topup.quote_id = Some("q".to_string());
    let send = entry("s", CashuWalletActivityKind::TokenSend, CashuWalletActivityStatus::Pending);
    let reclaimed = entry("r", CashuWalletActivityKind::TokenSend, CashuWalletActivityStatus::Reclaimed);
    let received = entry("v", CashuWalletActivityKind::TokenReceive, CashuWalletActivityStatus::Complete);
    let mut entries = vec![topup.clone(), send.clone(), reclaimed.clone(), received.clone()];
    let quotes = vec![Some(TopupQuoteState::Paid), None, None, None];
    let settled = vec![false, true, true, true];
    assert!(refresh_wallet_activity(&mut entries, &quotes, &settled, 1_000));
    assert_eq!(entries[0].status, CashuWalletActivityStatus::Complete);
    assert_eq!(entries[1].status, CashuWalletActivityStatus::Complete);
    assert_eq!(entries[2], reclaimed);
    assert_eq!(entries[3], received);
    assert!(!refresh_wallet_activity(&mut entries, &quotes, &settled, 1_000));

    let mut expired = vec![topup];
    assert!(refresh_wallet_activity(
        &mut expired,
        &vec![Some(TopupQuoteState::Unpaid { expiry_unix: 10 })],
        &vec![false],
        1_000
    ));
    assert_eq!(expired[0].status, CashuWalletActivityStatus::Expired);
}

#[test]
fn only_pending_token_sends_with_an_operation_are_checked_against_their_saga() {
    let mut send = entry("s", CashuWalletActivityKind::TokenSend, CashuWalletActivityStatus::Pending);
    assert_eq!(send_saga_to_check(&send), None);
    send.operation_id = Some("op-1".to_string());
    assert_eq!(send_saga_to_check(&send), None);
    send.operation_id = Some("67e55044-10b1-426f-9247-bb680e5fe0c8".to_string());
    assert_eq!(
        send_saga_to_check(&send).as_deref(),
        Some("67e55044-10b1-426f-9247-bb680e5fe0c8")
    );
    send.status = CashuWalletActivityStatus::Complete;
    assert_eq!(send_saga_to_check(&send), None);
    let mut topup = entry("t", CashuWalletActivityKind::TopUp, CashuWalletActivityStatus::Pending);
    topup.operation_id = Some("67e55044-10b1-426f-9247-bb680e5fe0c8".to_string());
    assert_eq!(send_saga_to_check(&topup), None);
}
