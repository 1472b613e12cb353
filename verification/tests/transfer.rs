use cashu_service::transfer::{
    check_invoice_amount, check_stored_melt_quote, destination_mint_action, destination_quote,
    finish_cross_mint_transfer, preflight_source_payment, record_destination_quote,
    record_melt_quote, record_paid_transaction, record_recovered_payment, record_source_payment,
    resume_cross_mint_transfer, source_payment_action, source_quote_id,
    start_cross_mint_transfer, transaction_fee_for_quote, validate_exact_bolt11_amount,
    next_transfer_step, TransferStep, CashuCrossMintTransferSaga,
    DestinationMintAction, MeltQuoteState, MintQuoteState, SourcePaymentAction, TransferStart,
};
use cashu_service::wallet::CashuCrossMintTransferRequest;

// A valid mainnet invoice for 100 pico-BTC, that is 10 msat.
const TEN_MSAT_INVOICE: &str = "lnbc100p1psj9jhxdqud3jxktt5w46x7unfv9kz6mn0v3jsnp4q0d3p2sfluzdx45tqcs\
    h2pu5qc7lgq0xs578ngs6s0s68ua4h7cvspp5q6rmq35js88zp5dvwrv9m459tnk2zunwj5jalqtyxqulh0l\
    5gflssp5nf55ny5gcrfl30xuhzj3nphgj27rstekmr9fw3ny5989s300gyus9qyysgqcqpcrzjqw2sxwe993\
    h5pcm4dxzpvttgza8zhkqxpgffcrf5v25nwpr3cmfg7z54kuqq8rgqqqqqqqq2qqqqq9qq9qrzjqd0ylaqcl\
    j9424x9m8h2vcukcgnm6s56xfgu3j78zyqzhgs4hlpzvznlugqq9vsqqqqqqqlgqqqqqeqq9qrzjqwldmj9d\
    ha74df76zhx6l9we0vjdquygcdt3kssupehe64g6yyp5yz5rhuqqwccqqyqqqqlgqqqqjcqq9qrzjqf9e58a\
    guqr0rcun0ajlvmzq3ek63cw2w282gv3z5uupmuwvgjtq2z55qsqqg6qqqyqqqrtnqqqzq3cqygrzjqvphms\
    ywntrrhqjcraumvc4y6r8v4z5v593trte429v4hredj7ms5z52usqq9ngqqqqqqqlgqqqqqqgq9qrzjq2v0v\
    p62g49p7569ev48cmulecsxe59lvaw3wlxm7r982zxa9zzj7z5l0cqqxusqqyqqqqlgqqqqqzsqygarl9fh3\
    8s0gyuxjjgux34w75dnc6xp2l35j7es3jd4ugt3lu0xzre26yg5m7ke54n2d5sym4xcmxtl8238xxvw5h5h5\
    j5r6drg6k6zcqj0fcwg";

fn request(amount_sat: u64, max_fee_sat: u64) -> CashuCrossMintTransferRequest {
    CashuCrossMintTransferRequest {
        transfer_id: "move-1".to_string(),
        source_mint_url: "https://source.example".to_string(),
        destination_mint_url: "https://destination.example".to_string(),
        amount_sat,
        max_fee_sat,
    }
}

fn saga(amount_sat: u64, max_fee_sat: u64, before: u64) -> CashuCrossMintTransferSaga {
    start_cross_mint_transfer(request(amount_sat, max_fee_sat), before)
}

#[test]
fn a_missing_saga_starts_a_fresh_transfer() {
    assert!(matches!(
        resume_cross_mint_transfer(None, &request(100, 10)),
        Ok(TransferStart::Fresh)
    ));
}

#[test]
fn a_transfer_id_bound_to_another_request_is_refused() {
    let stored = saga(100, 10, 0);
    let err = resume_cross_mint_transfer(Some(stored), &request(101, 10)).unwrap_err();
    assert_eq!(
        err,
        "Cashu cross-mint transfer id move-1 is already bound to a different request"
    );
    let mut other_version = saga(100, 10, 0);
    other_version.version = 2;
    assert!(resume_cross_mint_transfer(Some(other_version), &request(100, 10)).is_err());
}

#[test]
fn an_unfinished_saga_is_resumed() {
    let stored = saga(100, 10, 7);
    match resume_cross_mint_transfer(Some(stored.clone()), &request(100, 10)) {
        Ok(TransferStart::Resume(s)) => assert_eq!(s, stored),
        other => panic!("unexpected {other:?}"),
    }
}

#[test]
fn a_new_saga_records_only_the_request_and_balance() {
    let s = saga(100, 10, 7);
    assert_eq!(s.version, 1);
    assert_eq!(s.request, request(100, 10));
    assert_eq!(s.destination_balance_before_sat, 7);
    assert!(s.destination_mint_quote_id.is_none());
    assert!(s.destination_payment_request.is_none());
    assert!(s.source_melt_quote_id.is_none());
    assert!(s.melt_fee_reserve_sat.is_none());
    assert!(s.wallet_fee_sat.is_none());
    assert!(s.fee_paid_sat.is_none());
    assert!(s.result.is_none());
}

#[test]
fn invoice_amounts_must_match_exactly() {
    assert_eq!(
        check_invoice_amount(None, 5).unwrap_err(),
        "Destination mint returned an invalid BOLT11 invoice"
    );
    assert_eq!(
        check_invoice_amount(Some(None), 5).unwrap_err(),
        "Destination mint returned an amountless BOLT11 invoice"
    );
    assert_eq!(
        check_invoice_amount(Some(Some(5_000)), u64::MAX).unwrap_err(),
        "Cashu cross-mint transfer amount is too large"
    );
    assert_eq!(
        check_invoice_amount(Some(Some(4_999)), 5).unwrap_err(),
        "Destination mint invoice amount 4999 msat does not match requested amount 5000 msat"
    );
    assert!(check_invoice_amount(Some(Some(5_000)), 5).is_ok());
}

#[test]
fn bolt11_invoices_are_parsed_for_their_amount() {
    assert_eq!(
        validate_exact_bolt11_amount("not an invoice", 1).unwrap_err(),
        "Destination mint returned an invalid BOLT11 invoice"
    );
    assert_eq!(
        validate_exact_bolt11_amount(TEN_MSAT_INVOICE, 1).unwrap_err(),
        "Destination mint invoice amount 10 msat does not match requested amount 1000 msat"
    );
}

#[test]
fn destination_quotes_must_be_for_the_exact_amount() {
    let mut s = saga(1, 10, 0);
    let err = record_destination_quote(
        &mut s,
        "dq".to_string(),
        Some(2),
        TEN_MSAT_INVOICE.to_string(),
    )
    .unwrap_err();
    assert_eq!(err, "Destination mint returned an incorrect mint quote amount");
    assert_eq!(s, saga(1, 10, 0));
    let err = record_destination_quote(
        &mut s,
        "dq".to_string(),
        Some(1),
        TEN_MSAT_INVOICE.to_string(),
    )
    .unwrap_err();
    assert!(err.starts_with("Destination mint invoice amount 10 msat"));
    assert!(s.destination_mint_quote_id.is_none());
    assert_eq!(
        destination_quote(&s).unwrap_err(),
        "Cashu cross-mint saga has no destination quote id"
    );
    s.destination_mint_quote_id = Some("dq".to_string());
    assert_eq!(
        destination_quote(&s).unwrap_err(),
        "Cashu cross-mint saga has no destination invoice"
    );
}

#[test]
fn melt_quotes_must_match_the_amount_and_fee_ceiling() {
    let mut s = saga(100, 10, 0);
    assert_eq!(
        record_melt_quote(&mut s, "mq".to_string(), 99, 1).unwrap_err(),
        "Source mint returned an incorrect melt quote amount"
    );
    assert_eq!(
        record_melt_quote(&mut s, "mq".to_string(), 100, 11).unwrap_err(),
        "Source mint melt fee reserve 11 sat exceeds caller maximum 10 sat"
    );
    assert_eq!(
        source_quote_id(&s).unwrap_err(),
        "Cashu cross-mint saga has no source quote id"
    );
    record_melt_quote(&mut s, "mq".to_string(), 100, 4).unwrap();
    assert_eq!(s.source_melt_quote_id.as_deref(), Some("mq"));
    assert_eq!(s.melt_fee_reserve_sat, Some(4));
    assert_eq!(source_quote_id(&s).unwrap(), "mq");
}

#[test]
fn stored_melt_quotes_are_checked_against_the_saga() {
    let mut s = saga(100, 10, 0);
    assert_eq!(
        check_stored_melt_quote(&s, "inv", "other", 100, 4).unwrap_err(),
        "Stored source mint melt quote does not match the cross-mint transfer"
    );
    assert_eq!(
        check_stored_melt_quote(&s, "inv", "inv", 100, 4).unwrap_err(),
        "Cashu cross-mint saga has no melt fee reserve"
    );
    s.melt_fee_reserve_sat = Some(4);
    assert_eq!(
        check_stored_melt_quote(&s, "inv", "inv", 100, 5).unwrap_err(),
        "Stored source mint melt quote does not match the cross-mint transfer"
    );
    assert!(check_stored_melt_quote(&s, "inv", "inv", 100, 4).is_ok());
}

#[test]
fn every_source_fee_is_preflighted_before_paying() {
    let mut s = saga(100, 10, 0);
    assert_eq!(
        preflight_source_payment(&mut s, 6, 5).unwrap_err(),
        "Source mint preflight fee 11 sat exceeds caller maximum 10 sat"
    );
    assert_eq!(
        preflight_source_payment(&mut s, u64::MAX, 1).unwrap_err(),
        "Cashu cross-mint fee overflow"
    );
    assert!(s.wallet_fee_sat.is_none());
    assert_eq!(preflight_source_payment(&mut s, 6, 4).unwrap(), 10);
    assert_eq!(s.wallet_fee_sat, Some(4));
}

#[test]
fn source_payment_states_decide_the_next_step() {
    assert_eq!(
        source_payment_action(MeltQuoteState::Unpaid).unwrap(),
        SourcePaymentAction::Pay
    );
    assert_eq!(
        source_payment_action(MeltQuoteState::Paid).unwrap(),
        SourcePaymentAction::AlreadyPaid
    );
    assert_eq!(
        source_payment_action(MeltQuoteState::Pending).unwrap_err(),
        "Source mint payment is not recoverable from state PENDING"
    );
    let mut s = saga(100, 10, 0);
    assert_eq!(
        record_recovered_payment(&mut s, MeltQuoteState::Failed, 3).unwrap_err(),
        "Recovered source mint payment finished in unexpected state FAILED"
    );
    assert_eq!(
        record_source_payment(&mut s, MeltQuoteState::Unknown, 3).unwrap_err(),
        "Source mint payment finished in unexpected state UNKNOWN"
    );
    assert!(s.fee_paid_sat.is_none());
    record_recovered_payment(&mut s, MeltQuoteState::Paid, 3).unwrap();
    assert_eq!(s.fee_paid_sat, Some(3));
    record_source_payment(&mut s, MeltQuoteState::Paid, 2).unwrap();
    assert_eq!(s.fee_paid_sat, Some(2));
    assert_eq!(
        record_paid_transaction(&mut s, None).unwrap_err(),
        "Paid source mint transfer has no durable wallet transaction"
    );
    assert_eq!(record_paid_transaction(&mut s, Some(5)).unwrap(), 5);
    assert_eq!(s.fee_paid_sat, Some(5));
}

#[test]
fn destination_quote_states_decide_minting() {
    let r = request(100, 10);
    assert_eq!(
        destination_mint_action(&r, Some(99), MintQuoteState::Paid).unwrap_err(),
        "Destination mint quote amount changed during transfer"
    );
    assert_eq!(
        destination_mint_action(&r, Some(100), MintQuoteState::Paid).unwrap(),
        DestinationMintAction::Mint
    );
    assert_eq!(
        destination_mint_action(&r, Some(100), MintQuoteState::Issued).unwrap(),
        DestinationMintAction::AlreadyIssued
    );
    assert_eq!(
        destination_mint_action(&r, Some(100), MintQuoteState::Unpaid).unwrap_err(),
        "Paid source transfer has destination mint quote in unexpected state UNPAID"
    );
}

#[test]
fn a_transfer_finishes_only_on_the_exact_balance_increase() {
    let mut s = saga(100, 10, 50);
    assert_eq!(
        finish_cross_mint_transfer(&mut s, "mq".to_string(), "dq".to_string(), 3, 149)
            .unwrap_err(),
        "Destination mint balance is 149 sat; expected 150 sat after transfer"
    );
    assert_eq!(
        finish_cross_mint_transfer(&mut s, "mq".to_string(), "dq".to_string(), 11, 150)
            .unwrap_err(),
        "Source mint charged 11 sat after a maximum 10 sat preflight"
    );
    let mut overflow = saga(100, 10, u64::MAX);
    assert_eq!(
        finish_cross_mint_transfer(&mut overflow, "mq".to_string(), "dq".to_string(), 3, 0)
            .unwrap_err(),
        "Destination mint balance overflow"
    );
    assert!(s.result.is_none());
}

#[test]
fn a_finished_transfer_is_returned_again_on_retry() {
    let mut s = saga(100, 10, 50);
    s.melt_fee_reserve_sat = Some(4);
    s.wallet_fee_sat = Some(2);
    let t = finish_cross_mint_transfer(&mut s, "mq".to_string(), "dq".to_string(), 5, 150)
        .unwrap();
    assert_eq!(t.transfer_id, "move-1");
    assert_eq!(t.source_mint_url, "https://source.example");
    assert_eq!(t.destination_mint_url, "https://destination.example");
    assert_eq!(t.unit, "sat");
    assert_eq!(t.amount_sat, 100);
    assert_eq!(t.max_fee_sat, 10);
    assert_eq!(t.melt_fee_reserve_sat, 4);
    assert_eq!(t.wallet_fee_sat, 2);
    assert_eq!(t.fee_paid_sat, 5);
    assert_eq!(t.source_melt_quote_id, "mq");
    assert_eq!(t.destination_mint_quote_id, "dq");
    assert_eq!(t.destination_balance_before_sat, 50);
    assert_eq!(t.destination_balance_after_sat, 150);
    assert_eq!(s.result.as_ref(), Some(&t));
    match resume_cross_mint_transfer(Some(s), &request(100, 10)) {
        Ok(TransferStart::Finished(again)) => assert_eq!(again, t),
        other => panic!("unexpected {other:?}"),
    }
}

#[test]
fn missing_fee_records_report_zero() {
    let mut s = saga(1, 0, 0);
    let t = finish_cross_mint_transfer(&mut s, "m".to_string(), "d".to_string(), 0, 1).unwrap();
    assert_eq!(t.melt_fee_reserve_sat, 0);
    assert_eq!(t.wallet_fee_sat, 0);
}

#[test]
fn a_saga_never_asks_again_for_a_step_it_recorded() {
    let mut s = saga(1, 10, 0);
    assert_eq!(next_transfer_step(&s), TransferStep::CreateDestinationQuote);
    s.destination_mint_quote_id = Some("dq".to_string());
    s.destination_payment_request = Some("lnbc".to_string());
    assert_eq!(next_transfer_step(&s), TransferStep::CreateMeltQuote);
    record_melt_quote(&mut s, "mq".to_string(), 1, 2).unwrap();
    assert_eq!(next_transfer_step(&s), TransferStep::SettleSource);
}

#[test]
fn the_paid_transaction_is_found_by_its_quote() {
    let txs = vec![
        (None, 9),
        (Some("other".to_string()), 7),
        (Some("mq".to_string()), 3),
        (Some("mq".to_string()), 4),
    ];
    assert_eq!(transaction_fee_for_quote(&txs, "mq"), Some(3));
    assert_eq!(transaction_fee_for_quote(&txs, "none"), None);
    assert_eq!(transaction_fee_for_quote(&Vec::new(), "mq"), None);
}
