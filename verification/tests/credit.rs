use cashu_service::account::CreditAccount;
use cashu_service::error::CreditError;
use cashu_service::model::{PeerCreditEvent, SettlementState};
use cashu_service::protocol::{
    AcceptanceMode, AccountPolicy, BackedCreditSettlement, BackingDeposit, ClosedLoopConsumption,
    CreditNovation, ExternalSettlementRequest, IssuerPolicy, ReceiptApplication,
    ServiceReceiptClaim, ValueClass,
};
use cashu_service::snapshot_model::CreditAccountSnapshotV1;

const NOW: u64 = 1_000;

fn policy() -> AccountPolicy {
    AccountPolicy {
        counterparty: "bob".into(),
        max_total_peer_credit_sat: 120,
        issuers: vec![
            IssuerPolicy {
                issuer: "alice".into(),
                max_peer_credit_sat: 100,
                max_offline_peer_credit_sat: 20,
                max_closed_loop_sat: 200,
                max_withdrawable_sat: 500,
                expires_at_unix: Some(NOW + 100),
            },
            IssuerPolicy {
                issuer: "carol".into(),
                max_peer_credit_sat: 50,
                max_offline_peer_credit_sat: 10,
                max_closed_loop_sat: 100,
                max_withdrawable_sat: 100,
                expires_at_unix: Some(NOW + 100),
            },
        ],
    }
}

fn new_account() -> CreditAccount {
    CreditAccount::new(policy()).unwrap()
}

fn claim(id: &str, amount_sat: u64, value_class: ValueClass) -> ServiceReceiptClaim {
    ServiceReceiptClaim {
        receipt_id: id.into(),
        issuer: "alice".into(),
        counterparty: "bob".into(),
        service: "pubsub_delivery".into(),
        resource: "subscription:alice:kind-1".into(),
        useful_service_units: 4_096,
        amount_sat,
        value_class,
        issued_at_unix: NOW - 10,
        expires_at_unix: NOW + 10,
    }
}

fn settlement(id: &str, amount_sat: u64) -> ExternalSettlementRequest {
    ExternalSettlementRequest {
        settlement_id: id.into(),
        issuer: "alice".into(),
        counterparty: "bob".into(),
        payout_destination: "https://mint.example".into(),
        amount_sat,
        max_fee_sat: 0,
        expires_at_unix: NOW + 10,
    }
}

fn claim_from(issuer: &str, id: &str, amount_sat: u64) -> ServiceReceiptClaim {
    ServiceReceiptClaim {
        issuer: issuer.into(),
        ..claim(id, amount_sat, ValueClass::PeerCredit)
    }
}

fn deposit(id: &str, issuer: &str, amount_sat: u64, value_class: ValueClass) -> BackingDeposit {
    BackingDeposit {
        deposit_id: id.into(),
        issuer: issuer.into(),
        amount_sat,
        value_class,
    }
}

fn backed_settlement(
    id: &str,
    from_issuer: &str,
    backing_issuer: &str,
    amount_sat: u64,
    value_class: ValueClass,
) -> BackedCreditSettlement {
    BackedCreditSettlement {
        settlement_id: id.into(),
        counterparty: "bob".into(),
        from_issuer: from_issuer.into(),
        backing_issuer: backing_issuer.into(),
        amount_sat,
        value_class,
        expires_at_unix: NOW + 10,
    }
}

#[test]
fn backing_deposits_are_idempotent_and_issuer_authenticated() {
    let mut account = new_account();
    let backing = deposit(
        "deposit-1",
        "alice",
        50,
        ValueClass::ReserveBackedWithdrawable,
    );

    assert_eq!(
        account.record_backing_deposit(&backing, "alice").unwrap(),
        ReceiptApplication::Applied
    );
    assert_eq!(
        account.record_backing_deposit(&backing, "alice").unwrap(),
        ReceiptApplication::AlreadyApplied
    );
    assert_eq!(account.sat_reserve("alice").unwrap().available_sat(), 50);

    let other_issuer = deposit("deposit-1", "carol", 7, ValueClass::ClosedLoopDeposit);
    assert_eq!(
        account
            .record_backing_deposit(&other_issuer, "carol")
            .unwrap(),
        ReceiptApplication::Applied
    );
    assert_eq!(
        account
            .backing_deposits()
            .iter()
            .map(|deposit| (deposit.issuer.as_str(), deposit.deposit_id.as_str()))
            .collect::<Vec<_>>(),
        [("alice", "deposit-1"), ("carol", "deposit-1")]
    );

    let mut conflict = backing.clone();
    conflict.amount_sat = 51;
    assert_eq!(
        account.record_backing_deposit(&conflict, "alice"),
        Err(CreditError::DepositConflict)
    );
    assert_eq!(
        account.record_backing_deposit(
            &deposit("deposit-2", "alice", 1, ValueClass::ClosedLoopDeposit,),
            "mallory"
        ),
        Err(CreditError::UnauthenticatedIssuer)
    );
}

#[test]
fn proof_backed_credit_settlement_is_idempotent_and_party_bound() {
    let mut account = new_account();
    account
        .apply_receipt(
            &claim_from("alice", "debt", 40),
            "alice",
            AcceptanceMode::Online,
            NOW,
        )
        .unwrap();
    account
        .record_backing_deposit(
            &deposit("deposit", "carol", 30, ValueClass::ClosedLoopDeposit),
            "carol",
        )
        .unwrap();
    let settlement = backed_settlement(
        "backed-1",
        "alice",
        "carol",
        20,
        ValueClass::ClosedLoopDeposit,
    );

    assert_eq!(
        account
            .settle_peer_credit_with_backing(&settlement, "carol", NOW)
            .unwrap(),
        ReceiptApplication::Applied
    );
    assert_eq!(
        account
            .settle_peer_credit_with_backing(&settlement, "carol", NOW)
            .unwrap(),
        ReceiptApplication::AlreadyApplied
    );
    assert_eq!(account.total_peer_credit_sat(), 20);
    assert_eq!(account.closed_loop("carol").unwrap().claimable_sat(), 20);

    let mut conflict = settlement.clone();
    conflict.amount_sat = 21;
    assert_eq!(
        account.settle_peer_credit_with_backing(&conflict, "carol", NOW),
        Err(CreditError::BackedSettlementConflict)
    );
    assert_eq!(
        account.settle_peer_credit_with_backing(
            &backed_settlement(
                "backed-2",
                "alice",
                "carol",
                1,
                ValueClass::ClosedLoopDeposit,
            ),
            "mallory",
            NOW,
        ),
        Err(CreditError::UnauthenticatedIssuer)
    );
}

#[test]
fn receipt_application_is_idempotent_and_conflicts_are_rejected() {
    let mut account = new_account();
    let receipt = claim("r1", 10, ValueClass::PeerCredit);

    assert_eq!(
        account
            .apply_receipt(&receipt, "alice", AcceptanceMode::Online, NOW)
            .unwrap(),
        ReceiptApplication::Applied
    );
    assert_eq!(
        account
            .apply_receipt(&receipt, "alice", AcceptanceMode::Online, NOW)
            .unwrap(),
        ReceiptApplication::AlreadyApplied
    );
    assert_eq!(account.peer_credit("alice").unwrap().outstanding_sat(), 10);

    let mut conflict = receipt;
    conflict.amount_sat = 11;
    assert_eq!(
        account.apply_receipt(&conflict, "alice", AcceptanceMode::Online, NOW),
        Err(CreditError::ReceiptConflict)
    );

    let mut rebound_resource = claim("r1", 10, ValueClass::PeerCredit);
    rebound_resource.resource = "fmp:generic-forwarded-bytes".into();
    assert_eq!(
        account.apply_receipt(&rebound_resource, "alice", AcceptanceMode::Online, NOW),
        Err(CreditError::ReceiptConflict)
    );
}

#[test]
fn committed_operations_remain_idempotent_after_their_deadline() {
    let mut account = new_account();
    let receipt = claim("deadline-receipt", 40, ValueClass::PeerCredit);
    account
        .apply_receipt(&receipt, "alice", AcceptanceMode::Online, NOW)
        .unwrap();
    assert_eq!(
        account
            .apply_receipt(&receipt, "alice", AcceptanceMode::Online, NOW + 20)
            .unwrap(),
        ReceiptApplication::AlreadyApplied
    );

    let novation = CreditNovation {
        novation_id: "deadline-novation".into(),
        counterparty: "bob".into(),
        from_issuer: "alice".into(),
        to_issuer: "carol".into(),
        amount_sat: 10,
        expires_at_unix: NOW + 10,
    };
    account.novate_peer_credit(&novation, "carol", NOW).unwrap();
    account
        .novate_peer_credit(&novation, "carol", NOW + 20)
        .unwrap();

    account
        .record_backing_deposit(
            &deposit(
                "deadline-deposit",
                "carol",
                20,
                ValueClass::ClosedLoopDeposit,
            ),
            "carol",
        )
        .unwrap();
    let backed = backed_settlement(
        "deadline-backed",
        "alice",
        "carol",
        10,
        ValueClass::ClosedLoopDeposit,
    );
    account
        .settle_peer_credit_with_backing(&backed, "carol", NOW)
        .unwrap();
    assert_eq!(
        account
            .settle_peer_credit_with_backing(&backed, "carol", NOW + 20)
            .unwrap(),
        ReceiptApplication::AlreadyApplied
    );

    account
        .record_backing_deposit(
            &deposit(
                "deadline-withdrawable",
                "alice",
                10,
                ValueClass::ReserveBackedWithdrawable,
            ),
            "alice",
        )
        .unwrap();
    account
        .apply_receipt(
            &claim(
                "deadline-reserve-receipt",
                10,
                ValueClass::ReserveBackedWithdrawable,
            ),
            "alice",
            AcceptanceMode::Online,
            NOW,
        )
        .unwrap();
    let external = settlement("deadline-external", 10);
    let first = account
        .authorize_external_settlement(&external, "bob", NOW)
        .unwrap();
    let replay = account
        .authorize_external_settlement(&external, "bob", NOW + 20)
        .unwrap();
    assert_eq!(replay, first);
}

#[test]
fn arithmetic_overflow_never_changes_ledgers() {
    let mut overflow_policy = policy();
    overflow_policy.max_total_peer_credit_sat = u64::MAX;
    overflow_policy.issuers[0].max_peer_credit_sat = u64::MAX;
    overflow_policy.issuers[0].max_offline_peer_credit_sat = u64::MAX;
    overflow_policy.issuers[0].max_withdrawable_sat = u64::MAX;
    let mut account = CreditAccount::new(overflow_policy).unwrap();

    account
        .apply_receipt(
            &claim("max", u64::MAX, ValueClass::PeerCredit),
            "alice",
            AcceptanceMode::Online,
            NOW,
        )
        .unwrap();
    assert_eq!(
        account.apply_receipt(
            &claim("overflow", 1, ValueClass::PeerCredit),
            "alice",
            AcceptanceMode::Online,
            NOW,
        ),
        Err(CreditError::ArithmeticOverflow)
    );
    assert_eq!(
        account.peer_credit("alice").unwrap().outstanding_sat(),
        u64::MAX
    );

    let mut reserve_account = new_account();
    reserve_account
        .record_backing_deposit(
            &deposit(
                "max-deposit",
                "alice",
                u64::MAX,
                ValueClass::ReserveBackedWithdrawable,
            ),
            "alice",
        )
        .unwrap();
    assert_eq!(
        reserve_account.record_backing_deposit(
            &deposit(
                "overflow-deposit",
                "alice",
                1,
                ValueClass::ReserveBackedWithdrawable,
            ),
            "alice",
        ),
        Err(CreditError::ArithmeticOverflow)
    );
    assert_eq!(
        reserve_account
            .sat_reserve("alice")
            .unwrap()
            .available_sat(),
        u64::MAX
    );
}

#[test]
fn authenticated_issuer_parties_and_unit_are_enforced() {
    let mut account = new_account();
    let receipt = claim("r1", 1, ValueClass::PeerCredit);

    assert_eq!(
        account.apply_receipt(&receipt, "mallory", AcceptanceMode::Online, NOW),
        Err(CreditError::UnauthenticatedIssuer)
    );

    let mut wrong_issuer = receipt.clone();
    wrong_issuer.issuer = "mallory".into();
    assert_eq!(
        account.apply_receipt(&wrong_issuer, "mallory", AcceptanceMode::Online, NOW),
        Err(CreditError::WrongIssuer)
    );

    let mut wrong_counterparty = receipt.clone();
    wrong_counterparty.counterparty = "carol".into();
    assert_eq!(
        account.apply_receipt(&wrong_counterparty, "alice", AcceptanceMode::Online, NOW),
        Err(CreditError::WrongCounterparty)
    );

    assert_eq!(
        account.apply_receipt(
            &claim("reserve", 1, ValueClass::ReserveBackedWithdrawable),
            "alice",
            AcceptanceMode::OfflineDeferred,
            NOW
        ),
        Err(CreditError::BackingVerificationRequired)
    );
}

#[test]
fn expired_policy_receipt_and_settlement_are_rejected() {
    let mut expired_policy = policy();
    expired_policy.issuers[0].expires_at_unix = Some(NOW);
    let mut expired_account = CreditAccount::new(expired_policy).unwrap();
    assert_eq!(
        expired_account.apply_receipt(
            &claim("r1", 1, ValueClass::PeerCredit),
            "alice",
            AcceptanceMode::Online,
            NOW
        ),
        Err(CreditError::PolicyExpired)
    );

    let mut account = new_account();
    let mut expired_receipt = claim("r2", 1, ValueClass::PeerCredit);
    expired_receipt.expires_at_unix = NOW;
    assert_eq!(
        account.apply_receipt(&expired_receipt, "alice", AcceptanceMode::Online, NOW),
        Err(CreditError::ReceiptExpired)
    );

    assert_eq!(
        account.authorize_external_settlement(
            &ExternalSettlementRequest {
                expires_at_unix: NOW,
                ..settlement("s1", 1)
            },
            "bob",
            NOW
        ),
        Err(CreditError::SettlementExpired)
    );
}

#[test]
fn empty_service_resource_and_zero_units_are_rejected() {
    let mut account = new_account();

    let mut no_service = claim("r1", 1, ValueClass::PeerCredit);
    no_service.useful_service_units = 0;
    assert_eq!(
        account.apply_receipt(&no_service, "alice", AcceptanceMode::Online, NOW),
        Err(CreditError::NoUsefulService)
    );

    let mut unnamed_service = claim("r2", 1, ValueClass::PeerCredit);
    unnamed_service.service.clear();
    assert_eq!(
        account.apply_receipt(&unnamed_service, "alice", AcceptanceMode::Online, NOW),
        Err(CreditError::NoUsefulService)
    );

    let mut unnamed_resource = claim("r2-resource", 1, ValueClass::PeerCredit);
    unnamed_resource.resource.clear();
    assert_eq!(
        account.apply_receipt(&unnamed_resource, "alice", AcceptanceMode::Online, NOW),
        Err(CreditError::NoUsefulService)
    );

    assert_eq!(
        account.apply_receipt(
            &claim("r3", 0, ValueClass::PeerCredit),
            "alice",
            AcceptanceMode::Online,
            NOW
        ),
        Err(CreditError::ZeroAmount)
    );
    assert_eq!(account.peer_credit("alice").unwrap().outstanding_sat(), 0);
}

#[test]
fn reserve_is_conserved_across_claim_authorize_and_complete() {
    let mut account = new_account();
    account
        .record_backing_deposit(
            &deposit(
                "reserve-deposit",
                "alice",
                100,
                ValueClass::ReserveBackedWithdrawable,
            ),
            "alice",
        )
        .unwrap();
    account
        .apply_receipt(
            &claim("r1", 30, ValueClass::ReserveBackedWithdrawable),
            "alice",
            AcceptanceMode::Online,
            NOW,
        )
        .unwrap();

    assert_eq!(account.sat_reserve("alice").unwrap().available_sat(), 70);
    assert_eq!(account.sat_reserve("alice").unwrap().redeemable_sat(), 30);
    assert_eq!(
        account
            .sat_reserve("alice")
            .unwrap()
            .conserved_sat()
            .unwrap(),
        100
    );

    let mut request = settlement("s1", 20);
    request.max_fee_sat = 2;
    let authorization = account
        .authorize_external_settlement(&request, "bob", NOW)
        .unwrap();
    assert_eq!(authorization.amount_sat, 20);
    assert_eq!(authorization.reserved_sat, 22);
    assert_eq!(account.sat_reserve("alice").unwrap().redeemable_sat(), 8);
    assert_eq!(
        account.sat_reserve("alice").unwrap().pending_external_sat(),
        22
    );
    assert_eq!(
        account
            .sat_reserve("alice")
            .unwrap()
            .conserved_sat()
            .unwrap(),
        100
    );

    account.complete_external_settlement("s1", 1).unwrap();
    assert_eq!(
        account.sat_reserve("alice").unwrap().pending_external_sat(),
        0
    );
    assert_eq!(
        account.sat_reserve("alice").unwrap().settled_external_sat(),
        21
    );
    assert_eq!(account.sat_reserve("alice").unwrap().redeemable_sat(), 9);
    assert_eq!(
        account
            .sat_reserve("alice")
            .unwrap()
            .conserved_sat()
            .unwrap(),
        100
    );
}

#[test]
fn offline_credit_has_an_independent_exposure_cap() {
    let mut account = new_account();
    account
        .apply_receipt(
            &claim("r1", 20, ValueClass::PeerCredit),
            "alice",
            AcceptanceMode::OfflineDeferred,
            NOW,
        )
        .unwrap();
    assert_eq!(
        account
            .peer_credit("alice")
            .unwrap()
            .offline_outstanding_sat(),
        20
    );

    assert_eq!(
        account.apply_receipt(
            &claim("r2", 1, ValueClass::PeerCredit),
            "alice",
            AcceptanceMode::OfflineDeferred,
            NOW,
        ),
        Err(CreditError::OfflineExposureExceeded)
    );
    assert_eq!(account.peer_credit("alice").unwrap().outstanding_sat(), 20);
}

#[test]
fn peer_credit_can_never_authorize_external_settlement() {
    let mut account = new_account();
    account
        .apply_receipt(
            &claim("credit", 100, ValueClass::PeerCredit),
            "alice",
            AcceptanceMode::Online,
            NOW,
        )
        .unwrap();

    assert_eq!(
        account.authorize_external_settlement(&settlement("steal", 1), "bob", NOW),
        Err(CreditError::InsufficientRedeemableReserve)
    );
    assert_eq!(account.peer_credit("alice").unwrap().outstanding_sat(), 100);
}

#[test]
fn settlement_authorization_is_idempotent_and_party_bound() {
    let mut account = new_account();
    account
        .record_backing_deposit(
            &deposit(
                "settlement-deposit",
                "alice",
                50,
                ValueClass::ReserveBackedWithdrawable,
            ),
            "alice",
        )
        .unwrap();
    account
        .apply_receipt(
            &claim("reserve", 50, ValueClass::ReserveBackedWithdrawable),
            "alice",
            AcceptanceMode::Online,
            NOW,
        )
        .unwrap();

    let mut request = settlement("s1", 20);
    request.max_fee_sat = 2;
    let first = account
        .authorize_external_settlement(&request, "bob", NOW)
        .unwrap();
    let replay = account
        .authorize_external_settlement(&request, "bob", NOW)
        .unwrap();
    assert_eq!(first, replay);
    assert_eq!(
        account.sat_reserve("alice").unwrap().pending_external_sat(),
        22
    );

    let mut conflict = request.clone();
    conflict.amount_sat = 21;
    assert_eq!(
        account.authorize_external_settlement(&conflict, "bob", NOW),
        Err(CreditError::SettlementConflict)
    );

    let mut redirected = request.clone();
    redirected.payout_destination = "https://mallory.example".into();
    assert_eq!(
        account.authorize_external_settlement(&redirected, "bob", NOW),
        Err(CreditError::SettlementConflict)
    );

    let mut fee_increased = request.clone();
    fee_increased.max_fee_sat = 3;
    assert_eq!(
        account.authorize_external_settlement(&fee_increased, "bob", NOW),
        Err(CreditError::SettlementConflict)
    );

    let mut wrong_party = settlement("s2", 1);
    wrong_party.counterparty = "mallory".into();
    assert_eq!(
        account.authorize_external_settlement(&wrong_party, "mallory", NOW),
        Err(CreditError::WrongCounterparty)
    );

    assert_eq!(
        account.authorize_external_settlement(&settlement("s3", 1), "mallory", NOW),
        Err(CreditError::UnauthenticatedCounterparty)
    );

    let mut missing_destination = settlement("s4", 1);
    missing_destination.payout_destination.clear();
    assert_eq!(
        account.authorize_external_settlement(&missing_destination, "bob", NOW),
        Err(CreditError::MissingPayoutDestination)
    );

    assert_eq!(
        account.complete_external_settlement("s1", 3),
        Err(CreditError::SettlementFeeExceeded)
    );
    assert_eq!(
        account.sat_reserve("alice").unwrap().pending_external_sat(),
        22
    );
    account.complete_external_settlement("s1", 1).unwrap();
    account.complete_external_settlement("s1", 1).unwrap();
    assert_eq!(
        account.complete_external_settlement("s1", 2),
        Err(CreditError::SettlementCompletionConflict)
    );
    assert_eq!(account.sat_reserve("alice").unwrap().redeemable_sat(), 29);
    assert_eq!(
        account.sat_reserve("alice").unwrap().settled_external_sat(),
        21
    );
}

#[test]
fn per_issuer_and_total_soft_exposure_are_both_bounded() {
    let mut account = new_account();
    account
        .apply_receipt(
            &claim_from("alice", "a", 100),
            "alice",
            AcceptanceMode::Online,
            NOW,
        )
        .unwrap();
    account
        .apply_receipt(
            &claim_from("carol", "c", 20),
            "carol",
            AcceptanceMode::Online,
            NOW,
        )
        .unwrap();
    assert_eq!(account.total_peer_credit_sat(), 120);

    assert_eq!(
        account.apply_receipt(
            &claim_from("carol", "total-cap", 1),
            "carol",
            AcceptanceMode::Online,
            NOW,
        ),
        Err(CreditError::TotalExposureExceeded)
    );

    let mut issuer_account = new_account();
    assert_eq!(
        issuer_account.apply_receipt(
            &claim_from("carol", "issuer-cap", 51),
            "carol",
            AcceptanceMode::Online,
            NOW,
        ),
        Err(CreditError::IssuerExposureExceeded)
    );
}

#[test]
fn trusted_peer_novation_moves_but_never_destroys_soft_exposure() {
    let mut account = new_account();
    account
        .apply_receipt(
            &claim_from("alice", "debt", 80),
            "alice",
            AcceptanceMode::Online,
            NOW,
        )
        .unwrap();
    let novation = CreditNovation {
        novation_id: "n1".into(),
        counterparty: "bob".into(),
        from_issuer: "alice".into(),
        to_issuer: "carol".into(),
        amount_sat: 30,
        expires_at_unix: NOW + 10,
    };

    account.novate_peer_credit(&novation, "carol", NOW).unwrap();
    account.novate_peer_credit(&novation, "carol", NOW).unwrap();
    assert_eq!(account.peer_credit("alice").unwrap().outstanding_sat(), 50);
    assert_eq!(account.peer_credit("carol").unwrap().outstanding_sat(), 30);
    assert_eq!(account.total_peer_credit_sat(), 80);

    let mut carol_cashout = settlement("carol-cashout", 1);
    carol_cashout.issuer = "carol".into();
    assert_eq!(
        account.authorize_external_settlement(&carol_cashout, "bob", NOW),
        Err(CreditError::InsufficientRedeemableReserve)
    );

    assert_eq!(
        account.novate_peer_credit(
            &CreditNovation {
                novation_id: "over-carol-cap".into(),
                amount_sat: 21,
                ..novation
            },
            "carol",
            NOW
        ),
        Err(CreditError::IssuerExposureExceeded)
    );
    assert_eq!(account.total_peer_credit_sat(), 80);
}

#[test]
fn withdrawable_backing_extinguishes_soft_exposure_and_enables_cashout() {
    let mut account = new_account();
    account
        .apply_receipt(
            &claim_from("alice", "debt", 40),
            "alice",
            AcceptanceMode::Online,
            NOW,
        )
        .unwrap();
    account
        .record_backing_deposit(
            &deposit(
                "withdrawable-deposit",
                "alice",
                20,
                ValueClass::ReserveBackedWithdrawable,
            ),
            "alice",
        )
        .unwrap();

    account
        .settle_peer_credit_with_backing(
            &backed_settlement(
                "withdrawable-conversion",
                "alice",
                "alice",
                20,
                ValueClass::ReserveBackedWithdrawable,
            ),
            "alice",
            NOW,
        )
        .unwrap();
    assert_eq!(account.total_peer_credit_sat(), 20);
    assert_eq!(account.peer_credit("alice").unwrap().outstanding_sat(), 20);
    assert_eq!(account.sat_reserve("alice").unwrap().redeemable_sat(), 20);

    account
        .authorize_external_settlement(&settlement("cashout", 20), "bob", NOW)
        .unwrap();
}

#[test]
fn closed_loop_backing_settles_peer_credit_without_creating_cashout() {
    let mut account = new_account();
    account
        .apply_receipt(
            &claim_from("alice", "debt", 40),
            "alice",
            AcceptanceMode::Online,
            NOW,
        )
        .unwrap();
    account
        .record_backing_deposit(
            &deposit(
                "closed-loop-deposit",
                "carol",
                20,
                ValueClass::ClosedLoopDeposit,
            ),
            "carol",
        )
        .unwrap();

    account
        .settle_peer_credit_with_backing(
            &backed_settlement(
                "closed-loop-conversion",
                "alice",
                "carol",
                20,
                ValueClass::ClosedLoopDeposit,
            ),
            "carol",
            NOW,
        )
        .unwrap();
    assert_eq!(account.total_peer_credit_sat(), 20);
    assert_eq!(account.peer_credit("alice").unwrap().outstanding_sat(), 20);
    assert_eq!(account.closed_loop("carol").unwrap().claimable_sat(), 20);
    assert_eq!(
        account
            .closed_loop("carol")
            .unwrap()
            .conserved_sat()
            .unwrap(),
        20
    );

    let mut request = settlement("no-transitive-cashout", 1);
    request.issuer = "carol".into();
    assert_eq!(
        account.authorize_external_settlement(&request, "bob", NOW),
        Err(CreditError::InsufficientRedeemableReserve)
    );
}

#[test]
fn closed_loop_receipts_require_backing_and_never_touch_withdrawable_reserve() {
    let mut account = new_account();
    account
        .record_backing_deposit(
            &deposit(
                "direct-closed-deposit",
                "alice",
                10,
                ValueClass::ClosedLoopDeposit,
            ),
            "alice",
        )
        .unwrap();
    let receipt = claim("closed", 10, ValueClass::ClosedLoopDeposit);

    assert_eq!(
        account.apply_receipt(&receipt, "alice", AcceptanceMode::OfflineDeferred, NOW),
        Err(CreditError::BackingVerificationRequired)
    );
    account
        .apply_receipt(&receipt, "alice", AcceptanceMode::Online, NOW)
        .unwrap();
    assert_eq!(account.closed_loop("alice").unwrap().claimable_sat(), 10);

    let consumption = ClosedLoopConsumption {
        consumption_id: "buy-bandwidth".into(),
        issuer: "alice".into(),
        counterparty: "bob".into(),
        resource: "fsp:destination:service:budget".into(),
        amount_sat: 4,
    };
    assert_eq!(
        account.consume_closed_loop(&consumption, "bob").unwrap(),
        ReceiptApplication::Applied
    );
    assert_eq!(
        account.consume_closed_loop(&consumption, "bob").unwrap(),
        ReceiptApplication::AlreadyApplied
    );
    let mut conflict = consumption;
    conflict.amount_sat = 5;
    assert_eq!(
        account.consume_closed_loop(&conflict, "bob"),
        Err(CreditError::ClosedLoopConsumptionConflict)
    );
    assert_eq!(account.closed_loop("alice").unwrap().claimable_sat(), 6);
    assert_eq!(account.closed_loop("alice").unwrap().consumed_sat(), 4);
    assert_eq!(account.sat_reserve("alice").unwrap().redeemable_sat(), 0);
    assert_eq!(
        account.authorize_external_settlement(&settlement("closed-cashout", 1), "bob", NOW),
        Err(CreditError::InsufficientRedeemableReserve)
    );
}


#[test]
fn revision_advances_once_for_each_applied_mutation_and_never_for_replay() {
    let mut account = new_account();
    assert_eq!(account.revision(), 0);

    let carol_backing = deposit("carol-backing", "carol", 20, ValueClass::ClosedLoopDeposit);
    account
        .record_backing_deposit(&carol_backing, "carol")
        .unwrap();
    assert_eq!(account.revision(), 1);
    account
        .record_backing_deposit(&carol_backing, "carol")
        .unwrap();
    assert_eq!(account.revision(), 1);

    let debt = claim("debt", 40, ValueClass::PeerCredit);
    account
        .apply_receipt(&debt, "alice", AcceptanceMode::Online, NOW)
        .unwrap();
    assert_eq!(account.revision(), 2);
    account
        .apply_receipt(&debt, "alice", AcceptanceMode::Online, NOW)
        .unwrap();
    assert_eq!(account.revision(), 2);

    let novation = CreditNovation {
        novation_id: "novation".into(),
        counterparty: "bob".into(),
        from_issuer: "alice".into(),
        to_issuer: "carol".into(),
        amount_sat: 5,
        expires_at_unix: NOW + 10,
    };
    account.novate_peer_credit(&novation, "carol", NOW).unwrap();
    assert_eq!(account.revision(), 3);
    account.novate_peer_credit(&novation, "carol", NOW).unwrap();
    assert_eq!(account.revision(), 3);

    let backed = backed_settlement(
        "backed",
        "alice",
        "carol",
        10,
        ValueClass::ClosedLoopDeposit,
    );
    account
        .settle_peer_credit_with_backing(&backed, "carol", NOW)
        .unwrap();
    assert_eq!(account.revision(), 4);
    account
        .settle_peer_credit_with_backing(&backed, "carol", NOW)
        .unwrap();
    assert_eq!(account.revision(), 4);

    let alice_closed = deposit("alice-closed", "alice", 10, ValueClass::ClosedLoopDeposit);
    account
        .record_backing_deposit(&alice_closed, "alice")
        .unwrap();
    let closed_receipt = claim("closed", 10, ValueClass::ClosedLoopDeposit);
    account
        .apply_receipt(&closed_receipt, "alice", AcceptanceMode::Online, NOW)
        .unwrap();
    assert_eq!(account.revision(), 6);
    let consumption = ClosedLoopConsumption {
        consumption_id: "consume".into(),
        issuer: "alice".into(),
        counterparty: "bob".into(),
        resource: "fsp:budget".into(),
        amount_sat: 4,
    };
    account.consume_closed_loop(&consumption, "bob").unwrap();
    assert_eq!(account.revision(), 7);
    account.consume_closed_loop(&consumption, "bob").unwrap();
    assert_eq!(account.revision(), 7);

    let reserve = deposit(
        "reserve",
        "alice",
        40,
        ValueClass::ReserveBackedWithdrawable,
    );
    account.record_backing_deposit(&reserve, "alice").unwrap();
    account
        .apply_receipt(
            &claim("withdrawable", 30, ValueClass::ReserveBackedWithdrawable),
            "alice",
            AcceptanceMode::Online,
            NOW,
        )
        .unwrap();
    assert_eq!(account.revision(), 9);
    let mut payout = settlement("payout", 20);
    payout.max_fee_sat = 1;
    account
        .authorize_external_settlement(&payout, "bob", NOW)
        .unwrap();
    assert_eq!(account.revision(), 10);
    account
        .authorize_external_settlement(&payout, "bob", NOW)
        .unwrap();
    assert_eq!(account.revision(), 10);
    account.complete_external_settlement("payout", 1).unwrap();
    assert_eq!(account.revision(), 11);
    account.complete_external_settlement("payout", 1).unwrap();
    assert_eq!(account.revision(), 11);

    let cancelled = settlement("cancelled", 5);
    account
        .authorize_external_settlement(&cancelled, "bob", NOW)
        .unwrap();
    account.cancel_external_settlement("cancelled").unwrap();
    assert_eq!(account.revision(), 13);
    account.cancel_external_settlement("cancelled").unwrap();
    assert_eq!(account.revision(), 13);
}


fn assert_invalid(result: Result<CreditAccount, CreditError>) {
    assert!(matches!(
        result,
        Err(CreditError::InvalidSnapshot(_)) | Err(CreditError::UnsupportedSnapshotVersion)
    ));
}

fn corrupt(
    account: &CreditAccount,
    mutate: impl FnOnce(&mut CreditAccountSnapshotV1),
) -> Result<CreditAccount, CreditError> {
    let mut snapshot = account.snapshot();
    mutate(&mut snapshot);
    CreditAccount::from_snapshot(snapshot)
}

fn edit_issuer(
    snapshot: &mut CreditAccountSnapshotV1,
    issuer: &str,
    edit: impl FnOnce(&mut cashu_service::model::IssuerState),
) {
    let i = snapshot.issuers.index_of(issuer).unwrap();
    let mut state = snapshot.issuers.value_at(i).clone();
    edit(&mut state);
    snapshot.issuers.update_at(i, state);
}

#[test]
fn validated_json_restart_preserves_idempotency_and_resource_binding() {
    let mut account = new_account();
    let receipt = claim("receipt", 10, ValueClass::PeerCredit);
    account
        .apply_receipt(&receipt, "alice", AcceptanceMode::Online, NOW)
        .unwrap();
    let snapshot = account.snapshot();
    assert_eq!(snapshot.version(), 1);
    assert_eq!(
        snapshot.applied_receipts.get("receipt").unwrap().resource,
        "subscription:alice:kind-1"
    );

    let mut restored = CreditAccount::from_snapshot(snapshot).unwrap();
    assert_eq!(restored, account);
    let revision = restored.revision();
    assert_eq!(
        restored
            .apply_receipt(&receipt, "alice", AcceptanceMode::Online, NOW)
            .unwrap(),
        ReceiptApplication::AlreadyApplied
    );
    assert_eq!(restored.revision(), revision);

    let mut rebound = receipt;
    rebound.resource = "fmp:generic-forwarded-bytes".into();
    assert_eq!(
        restored.apply_receipt(&rebound, "alice", AcceptanceMode::Online, NOW),
        Err(CreditError::ReceiptConflict)
    );
    assert_eq!(restored.revision(), revision);
}

#[test]
fn snapshot_orders_backing_by_issuer_and_id_and_rejects_duplicate_tuples() {
    let mut account = new_account();
    for issuer in ["carol", "alice"] {
        account
            .record_backing_deposit(
                &deposit(
                    "same-local-id",
                    issuer,
                    5,
                    ValueClass::ReserveBackedWithdrawable,
                ),
                issuer,
            )
            .unwrap();
    }

    let snapshot = account.snapshot();
    assert_eq!(snapshot, account.snapshot());
    let deposits = &snapshot.backing_deposits;
    assert_eq!(deposits.len(), 2);
    assert_eq!(deposits[0].issuer, "alice");
    assert_eq!(deposits[1].issuer, "carol");

    let restored = CreditAccount::from_snapshot(account.snapshot()).unwrap();
    assert_eq!(restored, account);

    let mut duplicated = account.snapshot();
    let first = duplicated.backing_deposits[0].clone();
    duplicated.backing_deposits.push(first);
    assert_invalid(CreditAccount::from_snapshot(duplicated));

    let mut unordered = account.snapshot();
    unordered.backing_deposits.swap(0, 1);
    assert_invalid(CreditAccount::from_snapshot(unordered));
}

#[test]
fn restore_rejects_version_peer_total_and_operation_key_corruption() {
    let mut account = new_account();
    account
        .apply_receipt(
            &claim("receipt", 10, ValueClass::PeerCredit),
            "alice",
            AcceptanceMode::Online,
            NOW,
        )
        .unwrap();

    assert_invalid(corrupt(&account, |s| s.version = 2));
    assert_invalid(corrupt(&account, |s| {
        s.total_peer_credit_sat = 9;
    }));
    assert_invalid(corrupt(&account, |s| s.revision = 2));
    assert_invalid(corrupt(&account, |s| {
        let receipt = s.applied_receipts.remove("receipt").unwrap();
        s.applied_receipts.insert("wrong-key".to_string(), receipt);
    }));
}

#[test]
fn restore_reconstructs_offline_exposure_from_retained_receipts() {
    let mut account = new_account();
    account
        .apply_receipt(
            &claim("offline", 10, ValueClass::PeerCredit),
            "alice",
            AcceptanceMode::OfflineDeferred,
            NOW,
        )
        .unwrap();

    let restored = CreditAccount::from_snapshot(account.snapshot()).unwrap();
    assert_eq!(
        restored
            .peer_credit("alice")
            .unwrap()
            .offline_outstanding_sat(),
        10
    );

    assert_invalid(corrupt(&account, |s| {
        if let PeerCreditEvent::Receipt { mode, .. } = &mut s.peer_credit_events[0] {
            *mode = AcceptanceMode::Online;
        }
    }));
    assert_invalid(corrupt(&account, |s| {
        s.peer_credit_events = Vec::new();
    }));
}

#[test]
fn restore_replays_interleaved_offline_credit_and_novation_in_revision_order() {
    let mut account = new_account();
    account
        .apply_receipt(
            &claim("offline", 10, ValueClass::PeerCredit),
            "alice",
            AcceptanceMode::OfflineDeferred,
            NOW,
        )
        .unwrap();
    account
        .novate_peer_credit(
            &CreditNovation {
                novation_id: "move-offline".into(),
                counterparty: "bob".into(),
                from_issuer: "alice".into(),
                to_issuer: "carol".into(),
                amount_sat: 10,
                expires_at_unix: NOW + 10,
            },
            "carol",
            NOW,
        )
        .unwrap();
    account
        .apply_receipt(
            &claim("online-after", 10, ValueClass::PeerCredit),
            "alice",
            AcceptanceMode::Online,
            NOW,
        )
        .unwrap();

    let restored = CreditAccount::from_snapshot(account.snapshot()).unwrap();
    assert_eq!(restored, account);
    assert_eq!(
        restored
            .peer_credit("alice")
            .unwrap()
            .offline_outstanding_sat(),
        0
    );
}

#[test]
fn restore_rejects_backing_allocation_and_consumption_corruption() {
    let mut account = new_account();
    account
        .record_backing_deposit(
            &deposit("closed", "alice", 10, ValueClass::ClosedLoopDeposit),
            "alice",
        )
        .unwrap();
    account
        .apply_receipt(
            &claim("closed-receipt", 8, ValueClass::ClosedLoopDeposit),
            "alice",
            AcceptanceMode::Online,
            NOW,
        )
        .unwrap();
    account
        .consume_closed_loop(
            &ClosedLoopConsumption {
                consumption_id: "consume".into(),
                issuer: "alice".into(),
                counterparty: "bob".into(),
                resource: "fsp:budget".into(),
                amount_sat: 3,
            },
            "bob",
        )
        .unwrap();

    assert_invalid(corrupt(&account, |s| {
        edit_issuer(s, "alice", |st| {
            st.closed_loop.total_deposited_sat = 11;
            st.closed_loop.available_backing_sat = 3;
        });
    }));
    assert_invalid(corrupt(&account, |s| {
        edit_issuer(s, "alice", |st| {
            st.closed_loop.available_backing_sat = 1;
            st.closed_loop.claimable_sat = 6;
        });
    }));
    assert_invalid(corrupt(&account, |s| {
        let i = s.closed_loop_consumptions.index_of("consume").unwrap();
        let mut consumption = s.closed_loop_consumptions.value_at(i).clone();
        consumption.amount_sat = 2;
        s.closed_loop_consumptions.update_at(i, consumption);
    }));

    let mut backed = new_account();
    backed
        .record_backing_deposit(
            &deposit("carol", "carol", 10, ValueClass::ClosedLoopDeposit),
            "carol",
        )
        .unwrap();
    backed
        .apply_receipt(
            &claim("peer-credit", 10, ValueClass::PeerCredit),
            "alice",
            AcceptanceMode::Online,
            NOW,
        )
        .unwrap();
    backed
        .settle_peer_credit_with_backing(
            &backed_settlement(
                "backed",
                "alice",
                "carol",
                10,
                ValueClass::ClosedLoopDeposit,
            ),
            "carol",
            NOW,
        )
        .unwrap();
    assert_invalid(corrupt(&backed, |s| {
        let i = s.backed_settlements.index_of("backed").unwrap();
        let mut settlement = s.backed_settlements.value_at(i).clone();
        settlement.amount_sat = 9;
        s.backed_settlements.update_at(i, settlement);
    }));
}

#[test]
fn restore_rejects_external_reservation_pending_and_completed_corruption() {
    let mut pending = new_account();
    pending
        .record_backing_deposit(
            &deposit(
                "reserve",
                "alice",
                50,
                ValueClass::ReserveBackedWithdrawable,
            ),
            "alice",
        )
        .unwrap();
    pending
        .apply_receipt(
            &claim("reserve-receipt", 50, ValueClass::ReserveBackedWithdrawable),
            "alice",
            AcceptanceMode::Online,
            NOW,
        )
        .unwrap();
    let mut request = settlement("payout", 20);
    request.max_fee_sat = 2;
    pending
        .authorize_external_settlement(&request, "bob", NOW)
        .unwrap();

    assert_invalid(corrupt(&pending, |s| {
        let i = s.settlements.index_of("payout").unwrap();
        let mut record = s.settlements.value_at(i).clone();
        record.authorization.reserved_sat = 21;
        s.settlements.update_at(i, record);
    }));
    assert_invalid(corrupt(&pending, |s| {
        edit_issuer(s, "alice", |st| {
            st.withdrawable.pending_external_sat = 21;
            st.withdrawable.redeemable_sat = 29;
        });
    }));

    pending.complete_external_settlement("payout", 1).unwrap();
    assert_invalid(corrupt(&pending, |s| {
        let i = s.settlements.index_of("payout").unwrap();
        let mut record = s.settlements.value_at(i).clone();
        record.state = SettlementState::Completed { fee_sat: 2 };
        s.settlements.update_at(i, record);
    }));
}

#[test]
fn restored_account_enumerates_only_pending_authorizations_in_stable_order() {
    let mut account = new_account();
    account
        .record_backing_deposit(
            &deposit(
                "recovery-reserve",
                "alice",
                100,
                ValueClass::ReserveBackedWithdrawable,
            ),
            "alice",
        )
        .unwrap();
    account
        .apply_receipt(
            &claim(
                "recovery-receipt",
                100,
                ValueClass::ReserveBackedWithdrawable,
            ),
            "alice",
            AcceptanceMode::Online,
            NOW,
        )
        .unwrap();

    for id in ["zeta", "completed", "alpha", "cancelled"] {
        account
            .authorize_external_settlement(&settlement(id, 10), "bob", NOW)
            .unwrap();
    }
    account
        .complete_external_settlement("completed", 0)
        .unwrap();
    account.cancel_external_settlement("cancelled").unwrap();

    let restored = CreditAccount::from_snapshot(account.snapshot()).unwrap();
    let pending = restored.pending_external_settlement_authorizations();
    let pending_ids = pending
        .iter()
        .map(|authorization| authorization.settlement_id.as_str())
        .collect::<Vec<_>>();

    assert_eq!(pending_ids, ["alpha", "zeta"]);
}

fn assert_restorable(account: &CreditAccount) {
    let snapshot = account.snapshot();
    let restored = CreditAccount::from_snapshot(account.snapshot()).unwrap();
    assert_eq!(restored.snapshot(), snapshot);
    assert_eq!(restored.revision(), account.revision());
}

#[test]
fn every_operation_leaves_a_restorable_snapshot() {
    let mut account = new_account();
    assert_restorable(&account);
    account
        .record_backing_deposit(
            &deposit("carol-backing", "carol", 20, ValueClass::ClosedLoopDeposit),
            "carol",
        )
        .unwrap();
    assert_restorable(&account);
    account
        .apply_receipt(
            &claim("debt", 40, ValueClass::PeerCredit),
            "alice",
            AcceptanceMode::OfflineDeferred,
            NOW,
        )
        .unwrap_err();
    account
        .apply_receipt(&claim("debt", 15, ValueClass::PeerCredit), "alice", AcceptanceMode::OfflineDeferred, NOW)
        .unwrap();
    assert_restorable(&account);
    let novation = CreditNovation {
        novation_id: "novation".into(),
        counterparty: "bob".into(),
        from_issuer: "alice".into(),
        to_issuer: "carol".into(),
        amount_sat: 5,
        expires_at_unix: NOW + 10,
    };
    account.novate_peer_credit(&novation, "carol", NOW).unwrap();
    assert_restorable(&account);
    account
        .settle_peer_credit_with_backing(
            &backed_settlement("backed", "alice", "carol", 10, ValueClass::ClosedLoopDeposit),
            "carol",
            NOW,
        )
        .unwrap();
    assert_restorable(&account);
    let consumption = ClosedLoopConsumption {
        consumption_id: "consume".into(),
        issuer: "carol".into(),
        counterparty: "bob".into(),
        resource: "fsp:budget".into(),
        amount_sat: 4,
    };
    account.consume_closed_loop(&consumption, "bob").unwrap();
    assert_restorable(&account);
    account
        .record_backing_deposit(
            &deposit("reserve", "alice", 40, ValueClass::ReserveBackedWithdrawable),
            "alice",
        )
        .unwrap();
    account
        .apply_receipt(
            &claim("withdrawable", 30, ValueClass::ReserveBackedWithdrawable),
            "alice",
            AcceptanceMode::Online,
            NOW,
        )
        .unwrap();
    assert_restorable(&account);
    let mut payout = settlement("payout", 20);
    payout.max_fee_sat = 2;
    account.authorize_external_settlement(&payout, "bob", NOW).unwrap();
    assert_restorable(&account);
    account.complete_external_settlement("payout", 1).unwrap();
    assert_restorable(&account);
    account
        .authorize_external_settlement(&settlement("cancelled", 5), "bob", NOW)
        .unwrap();
    account.cancel_external_settlement("cancelled").unwrap();
    assert_restorable(&account);
    assert_eq!(account.revision(), 11);
}

#[test]
fn consumption_beyond_claimable_value_is_refused_and_changes_nothing() {
    let mut account = new_account();
    account
        .record_backing_deposit(
            &deposit("closed-deposit", "alice", 10, ValueClass::ClosedLoopDeposit),
            "alice",
        )
        .unwrap();
    account
        .apply_receipt(
            &claim("closed", 10, ValueClass::ClosedLoopDeposit),
            "alice",
            AcceptanceMode::Online,
            NOW,
        )
        .unwrap();
    let revision = account.revision();
    let consumption = ClosedLoopConsumption {
        consumption_id: "too-much".into(),
        issuer: "alice".into(),
        counterparty: "bob".into(),
        resource: "fsp:destination:service:budget".into(),
        amount_sat: 11,
    };
    assert_eq!(
        account.consume_closed_loop(&consumption, "bob"),
        Err(CreditError::InsufficientClosedLoopBacking)
    );
    assert_eq!(account.revision(), revision);
    assert_eq!(account.closed_loop("alice").unwrap().claimable_sat(), 10);
    assert_eq!(account.closed_loop("alice").unwrap().consumed_sat(), 0);
}

#[test]
fn aggregate_peer_credit_is_the_sum_of_the_issuers_outstanding_credit() {
    let mut account = new_account();
    account
        .apply_receipt(&claim_from("alice", "a", 30), "alice", AcceptanceMode::Online, NOW)
        .unwrap();
    account
        .apply_receipt(&claim_from("carol", "c", 20), "carol", AcceptanceMode::Online, NOW)
        .unwrap();
    let sum = account.peer_credit("alice").unwrap().outstanding_sat()
        + account.peer_credit("carol").unwrap().outstanding_sat();
    assert_eq!(account.total_peer_credit_sat(), sum);
    assert_eq!(sum, 50);
}

#[test]
fn authorizing_then_cancelling_restores_the_reserve_two_revisions_later() {
    let mut account = new_account();
    account
        .record_backing_deposit(
            &deposit("reserve-deposit", "alice", 50, ValueClass::ReserveBackedWithdrawable),
            "alice",
        )
        .unwrap();
    account
        .apply_receipt(
            &claim("r1", 30, ValueClass::ReserveBackedWithdrawable),
            "alice",
            AcceptanceMode::Online,
            NOW,
        )
        .unwrap();
    let before = *account.sat_reserve("alice").unwrap();
    let revision = account.revision();
    let mut request = settlement("s1", 20);
    request.max_fee_sat = 3;
    account
        .authorize_external_settlement(&request, "bob", NOW)
        .unwrap();
    account.cancel_external_settlement("s1").unwrap();
    assert_eq!(*account.sat_reserve("alice").unwrap(), before);
    assert_eq!(account.revision(), revision + 2);
    assert_eq!(account.cancel_external_settlement("s1"), Ok(()));
    assert_eq!(account.revision(), revision + 2);
    assert_eq!(
        account.complete_external_settlement("s1", 0),
        Err(CreditError::SettlementCancelled)
    );
    assert_eq!(
        account.authorize_external_settlement(&request, "bob", NOW),
        Err(CreditError::SettlementCancelled)
    );
    assert_eq!(
        account.cancel_external_settlement("unknown"),
        Err(CreditError::UnknownSettlement)
    );
}

#[test]
fn a_completed_settlement_refuses_another_fee_and_cancellation() {
    let mut account = new_account();
    account
        .record_backing_deposit(
            &deposit("reserve-deposit", "alice", 50, ValueClass::ReserveBackedWithdrawable),
            "alice",
        )
        .unwrap();
    account
        .apply_receipt(
            &claim("r1", 30, ValueClass::ReserveBackedWithdrawable),
            "alice",
            AcceptanceMode::Online,
            NOW,
        )
        .unwrap();
    let mut request = settlement("s1", 20);
    request.max_fee_sat = 3;
    account
        .authorize_external_settlement(&request, "bob", NOW)
        .unwrap();
    assert_eq!(
        account.complete_external_settlement("s1", 4),
        Err(CreditError::SettlementFeeExceeded)
    );
    account.complete_external_settlement("s1", 2).unwrap();
    assert_eq!(account.complete_external_settlement("s1", 2), Ok(()));
    assert_eq!(
        account.complete_external_settlement("s1", 1),
        Err(CreditError::SettlementCompletionConflict)
    );
    assert_eq!(
        account.cancel_external_settlement("s1"),
        Err(CreditError::SettlementCompleted)
    );
    assert_eq!(
        account.authorize_external_settlement(&request, "bob", NOW),
        Err(CreditError::SettlementCompleted)
    );
}
