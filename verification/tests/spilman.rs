use cashu_service::spilman::{
    create_streaming_route_cashu_token_lease, streaming_route_cashu_balance_for_msat,
    streaming_route_cashu_balance_msat, streaming_route_cashu_capacity_for_sat,
    streaming_route_cashu_capacity_msat, streaming_route_cashu_capacity_sat,
    StreamingRouteAccessState, StreamingRouteCashuPaymentKind, StreamingRouteCashuTokenLeaseRequest,
    StreamingRouteCashuUnit, StreamingRouteMeter, StreamingRoutePolicy, CASHU_SPILMAN_CHANNELS_REPO,
    CASHU_SPILMAN_CHANNELS_REV, STREAMING_ROUTE_PAYMENT_PROTOCOL_VERSION,
};
use cashu_service::spilman_payment::{
    create_streaming_route_cashu_payment, finish_streaming_route_cashu_payment,
    validate_streaming_route_cashu_payment_claim, CashuSpilmanPayment, CashuSpilmanPaymentSigner,
    StreamingRouteBalanceUpdate, StreamingRouteCashuPaymentRequest,
    StreamingRouteCooperativeCloseAck, StreamingRoutePaymentEnvelope, StreamingRoutePaymentPayload,
};
use serde_json::Value;

fn policy() -> StreamingRoutePolicy {
    StreamingRoutePolicy {
        meter: StreamingRouteMeter::Bytes,
        price_msat: 25,
        per_units: 10,
        max_channel_capacity_sat: 100,
        channel_expiry_secs: 600,
        free_probe_units: 100,
        grace_units: 20,
    }
}

fn ok_object() -> Value {
    let mut map = serde_json::Map::new();
    map.insert("ok".to_string(), Value::Bool(true));
    Value::Object(map)
}

fn empty_array() -> Value {
    Value::Array(Vec::new())
}

#[test]
fn route_policy_charges_only_after_free_probe() {
    let policy = policy();

    assert_eq!(policy.amount_due_msat(100), 0);
    assert_eq!(policy.amount_due_msat(101), 3);
    assert_eq!(policy.amount_due_msat(130), 75);
    assert!(policy.is_balance_sufficient(119, 0));
    assert!(policy.is_balance_sufficient(130, 25));
    assert!(!policy.is_balance_sufficient(130, 24));
}

#[test]
fn route_policy_reports_free_paid_grace_and_suspended_states() {
    let policy = policy();

    let free = policy.routing_decision(100, 0);
    assert_eq!(free.state, StreamingRouteAccessState::FreeProbe);
    assert!(free.allow_routing);
    assert_eq!(free.amount_due_msat, 0);

    let paid = policy.routing_decision(130, 75);
    assert_eq!(paid.state, StreamingRouteAccessState::Paid);
    assert!(paid.allow_routing);
    assert_eq!(paid.unpaid_msat, 0);

    let grace = policy.routing_decision(130, 25);
    assert_eq!(grace.state, StreamingRouteAccessState::Grace);
    assert!(grace.allow_routing);
    assert_eq!(grace.amount_due_msat, 75);
    assert_eq!(grace.enforced_amount_due_msat, 25);
    assert_eq!(grace.unpaid_msat, 50);

    let suspended = policy.routing_decision(130, 24);
    assert_eq!(suspended.state, StreamingRouteAccessState::Suspended);
    assert!(!suspended.allow_routing);
    assert_eq!(suspended.unpaid_msat, 51);
}

#[test]
fn route_payment_payloads_expose_channel_id() {
    let update = StreamingRoutePaymentPayload::BalanceUpdate(StreamingRouteBalanceUpdate {
        delivered_units: 130,
        amount_due_msat: 75,
        paid_msat: 100,
        payment: CashuSpilmanPayment {
            channel_id: "channel-2".to_string(),
            balance: 1,
            signature: "sig-1".to_string(),
            params: None,
            funding_proofs: None,
        },
    });
    let ack = StreamingRoutePaymentPayload::CooperativeCloseAck(StreamingRouteCooperativeCloseAck {
        channel_id: "channel-3".to_string(),
        accepted_balance: 2,
        accepted_paid_msat: 2_000,
        closed_at_unix: 456,
        receipt: Some(ok_object()),
    });
    let token = StreamingRoutePaymentPayload::CashuTokenLease(
        create_streaming_route_cashu_token_lease(StreamingRouteCashuTokenLeaseRequest {
            channel_id: "token-lease-4".to_string(),
            mint_url: "https://mint.example".to_string(),
            unit: "sat".to_string(),
            amount: 2,
            paid_msat: Some(1_500),
            expires_unix: 789,
            token: "cashuAdevtoken".to_string(),
        })
        .expect("token lease"),
    );

    assert_eq!(update.channel_id(), "channel-2");
    assert_eq!(ack.channel_id(), "channel-3");
    assert_eq!(token.channel_id(), "token-lease-4");
}

#[test]
fn route_token_lease_payment_round_trips_and_caps_credit() {
    let token_lease = create_streaming_route_cashu_token_lease(StreamingRouteCashuTokenLeaseRequest {
        channel_id: "token-lease-1".to_string(),
        mint_url: "https://mint.example".to_string(),
        unit: "sat".to_string(),
        amount: 2,
        paid_msat: Some(1_500),
        expires_unix: 999,
        token: "cashuBtoken".to_string(),
    })
    .expect("create token lease");
    assert_eq!(token_lease.paid_msat, 1_500);

    let envelope = StreamingRoutePaymentEnvelope::new(
        "internet-exit".to_string(),
        "lease-1".to_string(),
        "npub1buyer".to_string(),
        "npub1seller".to_string(),
        123,
        StreamingRoutePaymentPayload::CashuTokenLease(token_lease),
    );
    assert_eq!(envelope.version, STREAMING_ROUTE_PAYMENT_PROTOCOL_VERSION);
    assert_eq!(envelope.channel_id(), "token-lease-1");
    match envelope.payload {
        StreamingRoutePaymentPayload::CashuTokenLease(lease) => {
            assert_eq!(lease.unit, "sat");
            assert_eq!(lease.amount, 2);
            assert_eq!(lease.paid_msat, 1_500);
            assert_eq!(lease.token, "cashuBtoken");
        }
        other => panic!("unexpected payload: {other:?}"),
    }

    let too_much = create_streaming_route_cashu_token_lease(StreamingRouteCashuTokenLeaseRequest {
        channel_id: "token-lease-2".to_string(),
        mint_url: "https://mint.example".to_string(),
        unit: "sat".to_string(),
        amount: 2,
        paid_msat: Some(2_001),
        expires_unix: 999,
        token: "cashuBtoken".to_string(),
    })
    .expect_err("over-credit should fail");
    assert!(too_much.contains("exceeds token amount"));
}

#[test]
fn route_cashu_unit_conversions_round_up_sat_balances() {
    assert_eq!(streaming_route_cashu_balance_for_msat("sat", 1).unwrap(), 1);
    assert_eq!(streaming_route_cashu_balance_for_msat("sat", 1_001).unwrap(), 2);
    assert_eq!(streaming_route_cashu_balance_msat("sat", 2).unwrap(), 2_000);
    assert_eq!(streaming_route_cashu_balance_for_msat("msat", 1_001).unwrap(), 1_001);
    assert_eq!(streaming_route_cashu_capacity_for_sat("msat", 2).unwrap(), 2_000);
    assert_eq!(streaming_route_cashu_capacity_sat("msat", 2_001).unwrap(), 3);
}

struct FakeSigner;

impl CashuSpilmanPaymentSigner for FakeSigner {
    fn sign_cashu_spilman_payment(
        &self,
        channel_id: &str,
        balance: u64,
        include_funding: bool,
    ) -> Result<CashuSpilmanPayment, String> {
        Ok(CashuSpilmanPayment {
            channel_id: channel_id.to_string(),
            balance,
            signature: format!(
                "sig-{channel_id}-{balance}-{}",
                if include_funding { "funding" } else { "update" }
            ),
            params: if include_funding { Some(ok_object()) } else { None },
            funding_proofs: if include_funding { Some(empty_array()) } else { None },
        })
    }
}

#[test]
fn route_cashu_payment_builder_signs_open_with_funding() {
    let signer = FakeSigner;
    let result = create_streaming_route_cashu_payment(
        &signer,
        StreamingRouteCashuPaymentRequest {
            kind: StreamingRouteCashuPaymentKind::ChannelOpen,
            channel_id: "channel-1".to_string(),
            unit: "sat".to_string(),
            paid_msat: 1,
            previous_paid_msat: 0,
            capacity_sat: 10,
        },
    )
    .expect("create payment");

    assert_eq!(result.balance, 1);
    assert_eq!(result.paid_msat, 1_000);
    assert!(result.include_funding);
    assert!(result.payment.has_funding());
    assert_eq!(result.payment.signature, "sig-channel-1-1-funding");
}

#[test]
fn route_cashu_payment_builder_signs_updates_without_funding() {
    let signer = FakeSigner;
    let result = create_streaming_route_cashu_payment(
        &signer,
        StreamingRouteCashuPaymentRequest {
            kind: StreamingRouteCashuPaymentKind::BalanceUpdate,
            channel_id: "channel-1".to_string(),
            unit: "msat".to_string(),
            paid_msat: 1_500,
            previous_paid_msat: 1_000,
            capacity_sat: 2,
        },
    )
    .expect("create payment");

    assert_eq!(result.balance, 1_500);
    assert_eq!(result.paid_msat, 1_500);
    assert!(!result.include_funding);
    assert!(!result.payment.has_funding());
    assert_eq!(result.payment.signature, "sig-channel-1-1500-update");
}

#[test]
fn route_cashu_payment_builder_rejects_regressions_and_over_capacity() {
    let signer = FakeSigner;
    let regression = create_streaming_route_cashu_payment(
        &signer,
        StreamingRouteCashuPaymentRequest {
            kind: StreamingRouteCashuPaymentKind::BalanceUpdate,
            channel_id: "channel-1".to_string(),
            unit: "sat".to_string(),
            paid_msat: 999,
            previous_paid_msat: 1_000,
            capacity_sat: 2,
        },
    )
    .expect_err("regression should fail");
    assert!(regression.contains("regressed"));

    let over_capacity = create_streaming_route_cashu_payment(
        &signer,
        StreamingRouteCashuPaymentRequest {
            kind: StreamingRouteCashuPaymentKind::BalanceUpdate,
            channel_id: "channel-1".to_string(),
            unit: "sat".to_string(),
            paid_msat: 2_001,
            previous_paid_msat: 0,
            capacity_sat: 2,
        },
    )
    .expect_err("over capacity should fail");
    assert!(over_capacity.contains("exceeds channel capacity"));
}

#[test]
fn route_cashu_payment_claim_validation_matches_signed_balance() {
    let payment = CashuSpilmanPayment {
        channel_id: "channel-1".to_string(),
        balance: 2,
        signature: "sig-2".to_string(),
        params: Some(ok_object()),
        funding_proofs: Some(empty_array()),
    };
    let validated =
        validate_streaming_route_cashu_payment_claim(&payment, "channel-1", "sat", 2_000, 2, true)
            .expect("valid claim");

    assert_eq!(validated.channel_id, "channel-1");
    assert_eq!(validated.unit, "sat");
    assert_eq!(validated.balance, 2);
    assert_eq!(validated.paid_msat, 2_000);
    assert_eq!(validated.capacity_msat, 2_000);
    assert!(validated.has_funding);
}

#[test]
fn route_cashu_payment_claim_validation_rejects_mismatches() {
    let payment = CashuSpilmanPayment {
        channel_id: "channel-1".to_string(),
        balance: 1,
        signature: "sig-1".to_string(),
        params: None,
        funding_proofs: None,
    };

    let claimed_too_much =
        validate_streaming_route_cashu_payment_claim(&payment, "channel-1", "sat", 2_000, 2, false)
            .expect_err("over-claimed payment should fail");
    assert!(claimed_too_much.contains("does not match"));

    let missing_funding =
        validate_streaming_route_cashu_payment_claim(&payment, "channel-1", "sat", 1_000, 2, true)
            .expect_err("opening without funding should fail");
    assert!(missing_funding.contains("missing funding"));
}

#[test]
fn spilman_upstream_base_is_recorded() {
    assert_eq!(
        CASHU_SPILMAN_CHANNELS_REV,
        "bafc38f220e46289bebf157014ab1129c7deac63"
    );
}

// ----- further cases -----

#[test]
fn spilman_upstream_repository_is_recorded() {
    assert_eq!(
        CASHU_SPILMAN_CHANNELS_REPO,
        "https://github.com/SatsAndSports/cashu_spilman_channels.git"
    );
}

#[test]
fn route_units_parse_trimmed_case_insensitive_names() {
    assert_eq!(StreamingRouteCashuUnit::parse(" SATS ").unwrap(), StreamingRouteCashuUnit::Sat);
    assert_eq!(StreamingRouteCashuUnit::parse("").unwrap(), StreamingRouteCashuUnit::Sat);
    assert_eq!(StreamingRouteCashuUnit::parse("MSat").unwrap(), StreamingRouteCashuUnit::Msat);
    assert_eq!(StreamingRouteCashuUnit::parse("msats").unwrap(), StreamingRouteCashuUnit::Msat);
    assert_eq!(
        StreamingRouteCashuUnit::parse(" USD ").unwrap_err(),
        "unsupported Cashu channel unit 'usd'"
    );
    assert_eq!(StreamingRouteCashuUnit::Msat.as_str(), "msat");
    assert!(streaming_route_cashu_balance_msat("eur", 1).is_err());
}

#[test]
fn route_unit_conversions_saturate_and_round_up() {
    assert_eq!(StreamingRouteCashuUnit::Sat.balance_to_msat(u64::MAX), u64::MAX);
    assert_eq!(StreamingRouteCashuUnit::Sat.balance_from_msat(0), 0);
    assert_eq!(StreamingRouteCashuUnit::Sat.balance_from_msat(1_000), 1);
    assert_eq!(StreamingRouteCashuUnit::Msat.capacity_from_sat(u64::MAX), u64::MAX);
    assert_eq!(StreamingRouteCashuUnit::Sat.capacity_to_sat(7), 7);
    assert_eq!(streaming_route_cashu_capacity_msat("sat", 3).unwrap(), 3_000);
    for msat in [1u64, 999, 1_000, 1_001, 123_456] {
        let sat = StreamingRouteCashuUnit::Sat.balance_from_msat(msat);
        assert!(StreamingRouteCashuUnit::Sat.balance_to_msat(sat) >= msat);
    }
}

#[test]
fn route_policy_with_zero_denominator_prices_per_unit() {
    let policy = StreamingRoutePolicy {
        per_units: 0,
        free_probe_units: 0,
        price_msat: 7,
        ..policy()
    };
    assert_eq!(policy.amount_due_msat(3), 21);
    let free = StreamingRoutePolicy { price_msat: 0, ..policy };
    assert_eq!(free.amount_due_msat(1_000), 0);
}

#[test]
fn route_grace_window_allows_then_suspends() {
    let policy = policy();
    let inside = policy.routing_decision(120, 0);
    assert_eq!(inside.state, StreamingRouteAccessState::Grace);
    assert!(inside.allow_routing);
    assert_eq!(inside.grace_remaining_units, 0);
    assert_eq!(inside.free_probe_remaining_units, 0);
    let beyond = policy.routing_decision(121, 0);
    assert_eq!(beyond.state, StreamingRouteAccessState::Suspended);
    assert!(!beyond.allow_routing);
    assert_eq!(policy.routing_decision(50, 0).free_probe_remaining_units, 50);
}

#[test]
fn token_lease_requires_identifiers_and_known_unit() {
    let base = StreamingRouteCashuTokenLeaseRequest {
        channel_id: " lease ".to_string(),
        mint_url: " https://mint.example ".to_string(),
        unit: "MSAT".to_string(),
        amount: 5,
        paid_msat: None,
        expires_unix: 10,
        token: " tok ".to_string(),
    };
    let lease = create_streaming_route_cashu_token_lease(base.clone()).unwrap();
    assert_eq!(lease.channel_id, "lease");
    assert_eq!(lease.mint_url, "https://mint.example");
    assert_eq!(lease.unit, "msat");
    assert_eq!(lease.paid_msat, 5);
    assert_eq!(lease.token, "tok");

    let no_id = StreamingRouteCashuTokenLeaseRequest { channel_id: "  ".to_string(), ..base.clone() };
    assert_eq!(
        create_streaming_route_cashu_token_lease(no_id).unwrap_err(),
        "missing Cashu token lease id"
    );
    let no_mint = StreamingRouteCashuTokenLeaseRequest { mint_url: String::new(), ..base.clone() };
    assert_eq!(
        create_streaming_route_cashu_token_lease(no_mint).unwrap_err(),
        "missing Cashu token mint URL"
    );
    let no_token = StreamingRouteCashuTokenLeaseRequest { token: "\t".to_string(), ..base.clone() };
    assert_eq!(create_streaming_route_cashu_token_lease(no_token).unwrap_err(), "missing Cashu token");
    let bad_unit = StreamingRouteCashuTokenLeaseRequest { unit: "btc".to_string(), ..base.clone() };
    assert_eq!(
        create_streaming_route_cashu_token_lease(bad_unit).unwrap_err(),
        "unsupported Cashu channel unit 'btc'"
    );
    let over = StreamingRouteCashuTokenLeaseRequest { paid_msat: Some(6), ..base };
    assert_eq!(
        create_streaming_route_cashu_token_lease(over).unwrap_err(),
        "paid route token lease credit 6 msat exceeds token amount 5 msat"
    );
}

#[test]
fn payment_builder_reports_exact_errors() {
    let signer = FakeSigner;
    let missing = create_streaming_route_cashu_payment(
        &signer,
        StreamingRouteCashuPaymentRequest {
            kind: StreamingRouteCashuPaymentKind::BalanceUpdate,
            channel_id: "   ".to_string(),
            unit: "sat".to_string(),
            paid_msat: 1,
            previous_paid_msat: 0,
            capacity_sat: 0,
        },
    )
    .unwrap_err();
    assert_eq!(missing, "missing Cashu Spilman channel id");

    let regressed = create_streaming_route_cashu_payment(
        &signer,
        StreamingRouteCashuPaymentRequest {
            kind: StreamingRouteCashuPaymentKind::BalanceUpdate,
            channel_id: "c".to_string(),
            unit: "sat".to_string(),
            paid_msat: 999,
            previous_paid_msat: 1_000,
            capacity_sat: 2,
        },
    )
    .unwrap_err();
    assert_eq!(regressed, "paid route payment amount regressed: 999 msat < 1000 msat");

    let close = create_streaming_route_cashu_payment(
        &signer,
        StreamingRouteCashuPaymentRequest {
            kind: StreamingRouteCashuPaymentKind::CooperativeClose,
            channel_id: " c ".to_string(),
            unit: "sat".to_string(),
            paid_msat: 1_500,
            previous_paid_msat: 0,
            capacity_sat: 0,
        },
    )
    .unwrap();
    assert_eq!(close.balance, 2);
    assert_eq!(close.paid_msat, 2_000);
    assert_eq!(close.payment.signature, "sig-c-2-update");
}

#[test]
fn signed_payment_must_match_the_request() {
    let wrong_channel = finish_streaming_route_cashu_payment(
        "channel-1",
        StreamingRouteCashuUnit::Sat,
        2,
        false,
        Ok(CashuSpilmanPayment {
            channel_id: "channel-9".to_string(),
            balance: 2,
            signature: "s".to_string(),
            params: None,
            funding_proofs: None,
        }),
    )
    .unwrap_err();
    assert_eq!(
        wrong_channel,
        "signed Cashu Spilman payment channel channel-9 does not match requested channel channel-1"
    );
    let wrong_balance = finish_streaming_route_cashu_payment(
        "channel-1",
        StreamingRouteCashuUnit::Sat,
        2,
        false,
        Ok(CashuSpilmanPayment {
            channel_id: "channel-1".to_string(),
            balance: 3,
            signature: "s".to_string(),
            params: None,
            funding_proofs: None,
        }),
    )
    .unwrap_err();
    assert_eq!(
        wrong_balance,
        "signed Cashu Spilman payment balance 3 does not match requested balance 2"
    );
    let unfunded = finish_streaming_route_cashu_payment(
        "channel-1",
        StreamingRouteCashuUnit::Sat,
        2,
        true,
        Ok(CashuSpilmanPayment {
            channel_id: "channel-1".to_string(),
            balance: 2,
            signature: "s".to_string(),
            params: Some(ok_object()),
            funding_proofs: None,
        }),
    )
    .unwrap_err();
    assert_eq!(unfunded, "opening Cashu Spilman payment is missing funding data");
    let signer_error = finish_streaming_route_cashu_payment(
        "channel-1",
        StreamingRouteCashuUnit::Sat,
        2,
        false,
        Err("signer offline".to_string()),
    )
    .unwrap_err();
    assert_eq!(signer_error, "signer offline");
}

#[test]
fn claim_validation_reports_exact_errors() {
    let payment = CashuSpilmanPayment {
        channel_id: " channel-1 ".to_string(),
        balance: 3,
        signature: "sig".to_string(),
        params: None,
        funding_proofs: None,
    };
    assert_eq!(
        validate_streaming_route_cashu_payment_claim(&payment, " ", "sat", 3_000, 0, false).unwrap_err(),
        "missing Cashu Spilman channel id"
    );
    assert_eq!(
        validate_streaming_route_cashu_payment_claim(&payment, "other", "sat", 3_000, 0, false)
            .unwrap_err(),
        "Cashu Spilman payment channel channel-1 does not match expected channel other"
    );
    assert_eq!(
        validate_streaming_route_cashu_payment_claim(&payment, "channel-1", "sat", 2_000, 0, false)
            .unwrap_err(),
        "paid route payment claim 2000 msat does not match Cashu Spilman balance 3 sat (3000 msat)"
    );
    assert_eq!(
        validate_streaming_route_cashu_payment_claim(&payment, "channel-1", "sat", 3_000, 2, false)
            .unwrap_err(),
        "paid route payment 3000 msat exceeds channel capacity 2000 msat"
    );
    let unsigned = CashuSpilmanPayment { signature: " ".to_string(), ..payment.clone() };
    assert_eq!(
        validate_streaming_route_cashu_payment_claim(&unsigned, "channel-1", "sat", 3_000, 0, false)
            .unwrap_err(),
        "Cashu Spilman payment signature is empty"
    );
    let ok = validate_streaming_route_cashu_payment_claim(&payment, "channel-1", "sat", 3_000, 0, false)
        .unwrap();
    assert_eq!(ok.channel_id, "channel-1");
    assert_eq!(ok.capacity_msat, 0);
    assert!(!ok.has_funding);
}

struct CloseOnlySigner;

impl CashuSpilmanPaymentSigner for CloseOnlySigner {
    fn sign_cashu_spilman_payment(
        &self,
        channel_id: &str,
        balance: u64,
        include_funding: bool,
    ) -> Result<CashuSpilmanPayment, String> {
        Err(format!("payment {channel_id} {balance} {include_funding}"))
    }

    fn sign_cashu_spilman_close(
        &self,
        channel_id: &str,
        final_balance: u64,
    ) -> Result<CashuSpilmanPayment, String> {
        Ok(CashuSpilmanPayment {
            channel_id: channel_id.to_string(),
            balance: final_balance,
            signature: format!("close-{channel_id}-{final_balance}"),
            params: None,
            funding_proofs: None,
        })
    }
}

#[test]
fn route_payments_ask_the_signer_for_the_matching_signature() {
    let signer = CloseOnlySigner;
    let close = create_streaming_route_cashu_payment(
        &signer,
        StreamingRouteCashuPaymentRequest {
            kind: StreamingRouteCashuPaymentKind::CooperativeClose,
            channel_id: " c ".to_string(),
            unit: "sat".to_string(),
            paid_msat: 1_500,
            previous_paid_msat: 0,
            capacity_sat: 0,
        },
    )
    .unwrap();
    assert_eq!(close.payment.signature, "close-c-2");
    let open = create_streaming_route_cashu_payment(
        &signer,
        StreamingRouteCashuPaymentRequest {
            kind: StreamingRouteCashuPaymentKind::ChannelOpen,
            channel_id: "c".to_string(),
            unit: "msat".to_string(),
            paid_msat: 7,
            previous_paid_msat: 0,
            capacity_sat: 0,
        },
    )
    .unwrap_err();
    assert_eq!(open, "payment c 7 true");
}
