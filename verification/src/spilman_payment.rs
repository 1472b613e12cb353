//! Signed Cashu Spilman payments for paid routes: building them through a
//! signer, checking a route-payment claim against one, and the messages that
//! carry them between buyer and seller.
use vstd::prelude::*;
use crate::spilman::{
    sat_mul, StreamingRouteCashuPaymentKind, StreamingRouteCashuTokenLease,
    StreamingRouteCashuUnit, STREAMING_ROUTE_PAYMENT_PROTOCOL_VERSION,
};
use crate::text::{same_text, trim_text, trimmed};
use crate::textbuf::{append_decimal, append_text, decimal};

verus! {

/// Opaque JSON (channel parameters, funding proofs, close receipts) carried
/// through unchanged.
#[verifier::external_type_specification]
#[verifier::external_body]
pub struct ExJsonValue(serde_json::Value);

/// Serializable snapshot of an upstream Spilman payment.
///
/// `balance` is denominated in the Cashu channel unit (`unit` in the route
/// envelope), while route accounting can additionally carry `paid_msat`.
#[derive(Debug, Clone, PartialEq, Eq)]
pub struct CashuSpilmanPayment {
    pub channel_id: String,
    pub balance: u64,
    pub signature: String,
    pub params: Option<serde_json::Value>,
    pub funding_proofs: Option<serde_json::Value>,
}

impl CashuSpilmanPayment {
    pub open spec fn spec_has_funding(&self) -> bool {
        self.params is Some && self.funding_proofs is Some
    }

    /// Both channel parameters and funding proofs are present.
    pub fn has_funding(&self) -> (b: bool)
        ensures
            b == self.spec_has_funding(),
    {
        self.params.is_some() && self.funding_proofs.is_some()
    }
}

/// Request for creating a signed Cashu-Spilman payment for a paid route.
#[derive(Debug, Clone, PartialEq, Eq)]
pub struct StreamingRouteCashuPaymentRequest {
    pub kind: StreamingRouteCashuPaymentKind,
    pub channel_id: String,
    pub unit: String,
    pub paid_msat: u64,
    pub previous_paid_msat: u64,
    pub capacity_sat: u64,
}

/// Signed payment plus the route-accounting values that produced it.
#[derive(Debug, Clone, PartialEq, Eq)]
pub struct StreamingRouteCashuPaymentResult {
    pub payment: CashuSpilmanPayment,
    pub unit: String,
    pub balance: u64,
    pub paid_msat: u64,
    pub include_funding: bool,
}

/// Normalized result of checking a route-payment claim against a signed
/// Cashu-Spilman payment snapshot.
#[derive(Debug, Clone, PartialEq, Eq)]
pub struct StreamingRouteCashuPaymentClaimValidation {
    pub channel_id: String,
    pub unit: String,
    pub balance: u64,
    pub paid_msat: u64,
    pub capacity_msat: u64,
    pub has_funding: bool,
}

/// Small signer facade implemented by the local upstream Spilman client bridge.
///
/// Tests and app code can depend on this trait without coupling storage,
/// networking, or key management to this library.
pub trait CashuSpilmanPaymentSigner {
    fn sign_cashu_spilman_payment(&self, channel_id: &str, balance: u64, include_funding: bool) -> Result<
        CashuSpilmanPayment,
        String,
    >;

    fn sign_cashu_spilman_close(&self, channel_id: &str, final_balance: u64) -> (r: Result<
        CashuSpilmanPayment,
        String,
    >)
        default_ensures
            call_ensures(Self::sign_cashu_spilman_payment, (self, channel_id, final_balance, false), r),
    {
        self.sign_cashu_spilman_payment(channel_id, final_balance, false)
    }
}

pub open spec fn regressed_msg(paid: u64, previous: u64) -> Seq<char> {
    "paid route payment amount regressed: "@ + decimal(paid as nat) + " msat < "@ + decimal(
        previous as nat,
    ) + " msat"@
}

pub open spec fn over_capacity_msg(paid: u64, capacity: u64) -> Seq<char> {
    "paid route payment "@ + decimal(paid as nat) + " msat exceeds channel capacity "@ + decimal(
        capacity as nat,
    ) + " msat"@
}

pub open spec fn signed_channel_msg(got: Seq<char>, wanted: Seq<char>) -> Seq<char> {
    "signed Cashu Spilman payment channel "@ + got + " does not match requested channel "@ + wanted
}

pub open spec fn signed_balance_msg(got: u64, wanted: u64) -> Seq<char> {
    "signed Cashu Spilman payment balance "@ + decimal(got as nat)
        + " does not match requested balance "@ + decimal(wanted as nat)
}

pub open spec fn claim_channel_msg(got: Seq<char>, wanted: Seq<char>) -> Seq<char> {
    "Cashu Spilman payment channel "@ + got + " does not match expected channel "@ + wanted
}

pub open spec fn claim_amount_msg(claimed: u64, balance: u64, unit: Seq<char>, paid: u64) -> Seq<
    char,
> {
    "paid route payment claim "@ + decimal(claimed as nat)
        + " msat does not match Cashu Spilman balance "@ + decimal(balance as nat) + " "@ + unit
        + " ("@ + decimal(paid as nat) + " msat)"@
}

/// What a payment request asks the signer for: the channel, the unit, the
/// channel balance, and whether funding is included; or why it is refused
/// before anything is signed.
pub open spec fn spec_payment_plan(request: StreamingRouteCashuPaymentRequest) -> Result<
    (Seq<char>, StreamingRouteCashuUnit, u64, bool),
    Seq<char>,
> {
    let channel = trimmed(request.channel_id@);
    if channel.len() == 0 {
        Err("missing Cashu Spilman channel id"@)
    } else {
        match StreamingRouteCashuUnit::spec_parse(request.unit@) {
            Err(m) => Err(m),
            Ok(u) => if request.paid_msat < request.previous_paid_msat {
                Err(regressed_msg(request.paid_msat, request.previous_paid_msat))
            } else {
                let capacity_msat = sat_mul(request.capacity_sat, 1000);
                if capacity_msat > 0 && request.paid_msat > capacity_msat {
                    Err(over_capacity_msg(request.paid_msat, capacity_msat))
                } else {
                    Ok(
                        (
                            channel,
                            u,
                            u.spec_balance_from_msat(request.paid_msat),
                            request.kind == StreamingRouteCashuPaymentKind::ChannelOpen,
                        ),
                    )
                }
            },
        }
    }
}

/// Whether a signed payment is the one that was asked for.
pub open spec fn spec_signed_check(
    channel: Seq<char>,
    balance: u64,
    include_funding: bool,
    p: CashuSpilmanPayment,
) -> Result<(), Seq<char>> {
    if trimmed(p.channel_id@) != channel {
        Err(signed_channel_msg(p.channel_id@, channel))
    } else if p.balance != balance {
        Err(signed_balance_msg(p.balance, balance))
    } else if include_funding && !p.spec_has_funding() {
        Err("opening Cashu Spilman payment is missing funding data"@)
    } else {
        Ok(())
    }
}

/// Check a request before anything is signed.
pub fn plan_streaming_route_cashu_payment(request: &StreamingRouteCashuPaymentRequest) -> (r: Result<
    (String, StreamingRouteCashuUnit, u64, bool),
    String,
>)
    ensures
        match spec_payment_plan(*request) {
            Ok((c, u, b, f)) => r matches Ok((rc, ru, rb, rf)) && rc@ == c && ru == u && rb == b
                && rf == f,
            Err(m) => r matches Err(e) && e@ == m,
        },
{
    let channel_id = trim_text(request.channel_id.as_str());
    if channel_id.as_str().is_empty() {
        return Err("missing Cashu Spilman channel id".to_owned());
    }
    let unit = StreamingRouteCashuUnit::parse(request.unit.as_str())?;
    if request.paid_msat < request.previous_paid_msat {
        let mut m = "paid route payment amount regressed: ".to_owned();
        append_decimal(&mut m, request.paid_msat);
        append_text(&mut m, " msat < ");
        append_decimal(&mut m, request.previous_paid_msat);
        append_text(&mut m, " msat");
        return Err(m);
    }
    let capacity_msat = StreamingRouteCashuUnit::Msat.capacity_from_sat(request.capacity_sat);
    if capacity_msat > 0 && request.paid_msat > capacity_msat {
        let mut m = "paid route payment ".to_owned();
        append_decimal(&mut m, request.paid_msat);
        append_text(&mut m, " msat exceeds channel capacity ");
        append_decimal(&mut m, capacity_msat);
        append_text(&mut m, " msat");
        return Err(m);
    }
    let balance = unit.balance_from_msat(request.paid_msat);
    Ok((channel_id, unit, balance, request.kind.include_funding()))
}

/// What a route payment comes to once the signer answered `signed`: the
/// signer's error as it is; a signed payment that is not the one asked for
/// refused; otherwise the payment with its unit, balance and millisats.
pub open spec fn finished_as(
    channel: Seq<char>,
    unit: StreamingRouteCashuUnit,
    balance: u64,
    include_funding: bool,
    signed: Result<CashuSpilmanPayment, String>,
    r: Result<StreamingRouteCashuPaymentResult, String>,
) -> bool {
    match signed {
        Err(e) => r == Err::<StreamingRouteCashuPaymentResult, String>(e),
        Ok(p) => match spec_signed_check(channel, balance, include_funding, p) {
            Err(m) => r matches Err(e) && e@ == m,
            Ok(_) => r matches Ok(res) && res.payment == p && res.unit@ == unit.spec_name()
                && res.balance == balance && res.paid_msat == unit.spec_balance_to_msat(balance)
                && res.include_funding == include_funding,
        },
    }
}

/// Turn what the signer returned into the route payment, after checking that
/// it is for the requested channel and balance and carries funding when an
/// opening payment needs it.
pub fn finish_streaming_route_cashu_payment(
    channel_id: &str,
    unit: StreamingRouteCashuUnit,
    balance: u64,
    include_funding: bool,
    signed: Result<CashuSpilmanPayment, String>,
) -> (r: Result<StreamingRouteCashuPaymentResult, String>)
    ensures
        finished_as(channel_id@, unit, balance, include_funding, signed, r),
{
    let payment = signed?;
    let got = trim_text(payment.channel_id.as_str());
    if !same_text(got.as_str(), channel_id) {
        let mut m = "signed Cashu Spilman payment channel ".to_owned();
        append_text(&mut m, payment.channel_id.as_str());
        append_text(&mut m, " does not match requested channel ");
        append_text(&mut m, channel_id);
        return Err(m);
    }
    if payment.balance != balance {
        let mut m = "signed Cashu Spilman payment balance ".to_owned();
        append_decimal(&mut m, payment.balance);
        append_text(&mut m, " does not match requested balance ");
        append_decimal(&mut m, balance);
        return Err(m);
    }
    if include_funding && !payment.has_funding() {
        return Err("opening Cashu Spilman payment is missing funding data".to_owned());
    }
    Ok(
        StreamingRouteCashuPaymentResult {
            payment,
            unit: unit.as_str().to_owned(),
            balance,
            paid_msat: unit.balance_to_msat(balance),
            include_funding,
        },
    )
}

/// Sign the payment a route request needs. Nothing is signed for a request
/// that fails its own checks; a signed payment is accepted only for the
/// requested channel and balance, with funding on an opening payment.
pub fn create_streaming_route_cashu_payment<S: CashuSpilmanPaymentSigner>(
    signer: &S,
    request: StreamingRouteCashuPaymentRequest,
) -> (r: Result<StreamingRouteCashuPaymentResult, String>)
    ensures
        match spec_payment_plan(request) {
            Err(m) => r matches Err(e) && e@ == m,
            Ok((c, u, b, f)) => if request.kind == StreamingRouteCashuPaymentKind::CooperativeClose {
                exists|ch: &str, s: Result<CashuSpilmanPayment, String>|
                    ch@ == c && #[trigger] call_ensures(S::sign_cashu_spilman_close, (signer, ch, b), s)
                        && finished_as(c, u, b, f, s, r)
            } else {
                exists|ch: &str, s: Result<CashuSpilmanPayment, String>|
                    ch@ == c && #[trigger] call_ensures(S::sign_cashu_spilman_payment, (signer, ch, b, f), s)
                        && finished_as(c, u, b, f, s, r)
            },
        },
{
    let (channel_id, unit, balance, include_funding) = plan_streaming_route_cashu_payment(
        &request,
    )?;
    let ch = channel_id.as_str();
    let signed = if request.kind == StreamingRouteCashuPaymentKind::CooperativeClose {
        signer.sign_cashu_spilman_close(ch, balance)
    } else {
        signer.sign_cashu_spilman_payment(ch, balance, include_funding)
    };
    let ghost answered = signed;
    let r = finish_streaming_route_cashu_payment(ch, unit, balance, include_funding, signed);
    proof {
        if request.kind == StreamingRouteCashuPaymentKind::CooperativeClose {
            assert(call_ensures(S::sign_cashu_spilman_close, (signer, ch, balance), answered));
        } else {
            assert(call_ensures(
                S::sign_cashu_spilman_payment,
                (signer, ch, balance, include_funding),
                answered,
            ));
        }
    }
    r
}

/// What checking a route-payment claim against a signed payment gives: the
/// trimmed channel, the unit, the millisats paid and the capacity in
/// millisats; or why the claim is refused.
pub open spec fn spec_claim_check(
    payment: CashuSpilmanPayment,
    expected_channel_id: Seq<char>,
    unit: Seq<char>,
    claimed_paid_msat: u64,
    capacity_sat: u64,
    require_funding: bool,
) -> Result<(Seq<char>, StreamingRouteCashuUnit, u64, u64), Seq<char>> {
    let expected = trimmed(expected_channel_id);
    let channel = trimmed(payment.channel_id@);
    if expected.len() == 0 {
        Err("missing Cashu Spilman channel id"@)
    } else if channel != expected {
        Err(claim_channel_msg(channel, expected))
    } else if trimmed(payment.signature@).len() == 0 {
        Err("Cashu Spilman payment signature is empty"@)
    } else if require_funding && !payment.spec_has_funding() {
        Err("opening Cashu Spilman payment is missing funding data"@)
    } else {
        match StreamingRouteCashuUnit::spec_parse(unit) {
            Err(m) => Err(m),
            Ok(u) => {
                let paid = u.spec_balance_to_msat(payment.balance);
                let capacity_msat = sat_mul(capacity_sat, 1000);
                if paid != claimed_paid_msat {
                    Err(claim_amount_msg(claimed_paid_msat, payment.balance, u.spec_name(), paid))
                } else if capacity_msat > 0 && paid > capacity_msat {
                    Err(over_capacity_msg(paid, capacity_msat))
                } else {
                    Ok((channel, u, paid, capacity_msat))
                }
            },
        }
    }
}

/// Verify transport-neutral route accounting fields against the signed Cashu
/// Spilman payment snapshot.
///
/// This does not replace upstream cryptographic validation by the receiver-side
/// Spilman bridge. It catches application-layer mismatches before a service
/// trusts `paid_msat`, such as a balance update claiming more route credit than
/// the included channel balance can represent.
pub fn validate_streaming_route_cashu_payment_claim(
    payment: &CashuSpilmanPayment,
    expected_channel_id: &str,
    unit: &str,
    claimed_paid_msat: u64,
    capacity_sat: u64,
    require_funding: bool,
) -> (r: Result<StreamingRouteCashuPaymentClaimValidation, String>)
    ensures
        match spec_claim_check(
            *payment,
            expected_channel_id@,
            unit@,
            claimed_paid_msat,
            capacity_sat,
            require_funding,
        ) {
            Ok((c, u, paid, cap)) => r matches Ok(v) && v.channel_id@ == c && v.unit@
                == u.spec_name() && v.balance == payment.balance && v.paid_msat == paid
                && v.capacity_msat == cap && v.has_funding == payment.spec_has_funding(),
            Err(m) => r matches Err(e) && e@ == m,
        },
{
    let expected = trim_text(expected_channel_id);
    if expected.as_str().is_empty() {
        return Err("missing Cashu Spilman channel id".to_owned());
    }
    let channel_id = trim_text(payment.channel_id.as_str());
    if !same_text(channel_id.as_str(), expected.as_str()) {
        let mut m = "Cashu Spilman payment channel ".to_owned();
        append_text(&mut m, channel_id.as_str());
        append_text(&mut m, " does not match expected channel ");
        append_text(&mut m, expected.as_str());
        return Err(m);
    }
    let signature = trim_text(payment.signature.as_str());
    if signature.as_str().is_empty() {
        return Err("Cashu Spilman payment signature is empty".to_owned());
    }
    if require_funding && !payment.has_funding() {
        return Err("opening Cashu Spilman payment is missing funding data".to_owned());
    }
    let unit = StreamingRouteCashuUnit::parse(unit)?;
    let paid_msat = unit.balance_to_msat(payment.balance);
    if paid_msat != claimed_paid_msat {
        let mut m = "paid route payment claim ".to_owned();
        append_decimal(&mut m, claimed_paid_msat);
        append_text(&mut m, " msat does not match Cashu Spilman balance ");
        append_decimal(&mut m, payment.balance);
        append_text(&mut m, " ");
        append_text(&mut m, unit.as_str());
        append_text(&mut m, " (");
        append_decimal(&mut m, paid_msat);
        append_text(&mut m, " msat)");
        return Err(m);
    }
    let capacity_msat = StreamingRouteCashuUnit::Msat.capacity_from_sat(capacity_sat);
    if capacity_msat > 0 && paid_msat > capacity_msat {
        let mut m = "paid route payment ".to_owned();
        append_decimal(&mut m, paid_msat);
        append_text(&mut m, " msat exceeds channel capacity ");
        append_decimal(&mut m, capacity_msat);
        append_text(&mut m, " msat");
        return Err(m);
    }
    Ok(
        StreamingRouteCashuPaymentClaimValidation {
            channel_id,
            unit: unit.as_str().to_owned(),
            balance: payment.balance,
            paid_msat,
            capacity_msat,
            has_funding: payment.has_funding(),
        },
    )
}

#[derive(Debug, Clone, PartialEq, Eq)]
pub struct StreamingRouteChannelOpen {
    pub mint_url: String,
    /// Cashu unit for `capacity` and `payment.balance`, for example `sat` or
    /// `msat`.
    pub unit: String,
    pub capacity: u64,
    pub expires_unix: u64,
    pub receiver_pubkey_hex: String,
    pub paid_msat: u64,
    pub payment: CashuSpilmanPayment,
}

#[derive(Debug, Clone, PartialEq, Eq)]
pub struct StreamingRouteBalanceUpdate {
    pub delivered_units: u64,
    pub amount_due_msat: u64,
    pub paid_msat: u64,
    pub payment: CashuSpilmanPayment,
}

#[derive(Debug, Clone, PartialEq, Eq)]
pub struct StreamingRouteCooperativeClose {
    pub final_paid_msat: u64,
    pub payment: CashuSpilmanPayment,
}

#[derive(Debug, Clone, PartialEq, Eq)]
pub struct StreamingRouteCooperativeCloseAck {
    pub channel_id: String,
    pub accepted_balance: u64,
    pub accepted_paid_msat: u64,
    pub closed_at_unix: u64,
    pub receipt: Option<serde_json::Value>,
}

/// Route payment payloads exchanged between buyer and seller.
#[derive(Debug, Clone, PartialEq, Eq)]
pub enum StreamingRoutePaymentPayload {
    /// First payment for a channel, usually containing funding parameters and
    /// proofs so the seller can register the channel before charging traffic.
    ChannelOpen(StreamingRouteChannelOpen),
    /// Monotonic balance update as usage grows.
    BalanceUpdate(StreamingRouteBalanceUpdate),
    /// Buyer asks the seller to cooperatively close at a final balance.
    CooperativeClose(StreamingRouteCooperativeClose),
    /// Seller acknowledges close processing. Settlement receipt format is
    /// deliberately opaque while the upstream protocol is experimental.
    CooperativeCloseAck(StreamingRouteCooperativeCloseAck),
    /// Fixed Cashu token payment for a prepaid lease. This is a fallback/dev
    /// path; streaming Spilman channels remain the default for metered usage.
    CashuTokenLease(StreamingRouteCashuTokenLease),
}

impl StreamingRoutePaymentPayload {
    pub open spec fn spec_channel_id(&self) -> Seq<char> {
        match self {
            StreamingRoutePaymentPayload::ChannelOpen(open) => open.payment.channel_id@,
            StreamingRoutePaymentPayload::BalanceUpdate(update) => update.payment.channel_id@,
            StreamingRoutePaymentPayload::CooperativeClose(close) => close.payment.channel_id@,
            StreamingRoutePaymentPayload::CooperativeCloseAck(ack) => ack.channel_id@,
            StreamingRoutePaymentPayload::CashuTokenLease(lease) => lease.channel_id@,
        }
    }

    /// The channel (or token lease) a payload belongs to.
    pub fn channel_id(&self) -> (r: &str)
        ensures
            r@ == self.spec_channel_id(),
    {
        match self {
            StreamingRoutePaymentPayload::ChannelOpen(open) => open.payment.channel_id.as_str(),
            StreamingRoutePaymentPayload::BalanceUpdate(update) => update.payment.channel_id.as_str(),
            StreamingRoutePaymentPayload::CooperativeClose(close) => close.payment.channel_id.as_str(),
            StreamingRoutePaymentPayload::CooperativeCloseAck(ack) => ack.channel_id.as_str(),
            StreamingRoutePaymentPayload::CashuTokenLease(lease) => lease.channel_id.as_str(),
        }
    }
}

/// Transport-neutral payment message for a metered route.
#[derive(Debug, Clone, PartialEq, Eq)]
pub struct StreamingRoutePaymentEnvelope {
    pub version: u16,
    /// Stable service/offer id in the seller's namespace.
    pub service_id: String,
    pub lease_id: String,
    pub buyer: String,
    pub seller: String,
    pub sent_at_unix: u64,
    pub payload: StreamingRoutePaymentPayload,
}

impl StreamingRoutePaymentEnvelope {
    /// A message of the current protocol version.
    pub fn new(
        service_id: String,
        lease_id: String,
        buyer: String,
        seller: String,
        sent_at_unix: u64,
        payload: StreamingRoutePaymentPayload,
    ) -> (r: Self)
        ensures
            r.version == STREAMING_ROUTE_PAYMENT_PROTOCOL_VERSION,
            r.service_id == service_id,
            r.lease_id == lease_id,
            r.buyer == buyer,
            r.seller == seller,
            r.sent_at_unix == sent_at_unix,
            r.payload == payload,
    {
        StreamingRoutePaymentEnvelope {
            version: STREAMING_ROUTE_PAYMENT_PROTOCOL_VERSION,
            service_id,
            lease_id,
            buyer,
            seller,
            sent_at_unix,
            payload,
        }
    }

    pub fn channel_id(&self) -> (r: &str)
        ensures
            r@ == self.payload.spec_channel_id(),
    {
        self.payload.channel_id()
    }
}

/// A payment request with a channel id and a known unit is planned exactly
/// when it does not regress below the previous payment and, where the
/// channel has a capacity, stays within it: paying the same amount as the
/// last payment (such as closing at the last signed balance) is planned.
/// Only a payment below the previous one is refused as regressed. The plan
/// asks for the balance of the payment in the channel's unit (millisats
/// rounded up to whole sats for a sat channel) and for funding data only
/// when opening.
pub proof fn law_payment_plan(request: StreamingRouteCashuPaymentRequest)
    requires
        trimmed(request.channel_id@).len() > 0,
        StreamingRouteCashuUnit::spec_parse(request.unit@) is Ok,
    ensures
        ({
            let paid = request.paid_msat;
            let previous = request.previous_paid_msat;
            let capacity: int = if request.capacity_sat * 1000 > u64::MAX {
                u64::MAX as int
            } else {
                request.capacity_sat * 1000
            };
            let plan = spec_payment_plan(request);
            &&& plan is Ok <==> (paid >= previous && (capacity == 0 || paid <= capacity))
            &&& paid < previous ==> plan == Err::<(Seq<char>, StreamingRouteCashuUnit, u64, bool), Seq<char>>(
                "paid route payment amount regressed: "@ + decimal(paid as nat) + " msat < "@
                    + decimal(previous as nat) + " msat"@,
            )
            &&& plan matches Ok((c, u, b, f)) ==> {
                &&& c == trimmed(request.channel_id@)
                &&& StreamingRouteCashuUnit::spec_parse(request.unit@) == Ok::<
                    StreamingRouteCashuUnit,
                    Seq<char>,
                >(u)
                &&& b == (match u {
                    StreamingRouteCashuUnit::Sat => (paid + 999) / 1000,
                    StreamingRouteCashuUnit::Msat => paid as int,
                })
                &&& f == (request.kind == StreamingRouteCashuPaymentKind::ChannelOpen)
            }
        }),
{
}

} // verus!
