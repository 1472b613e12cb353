//! Metered paid routes backed by Cashu Spilman channels: route pricing and
//! gating, channel-unit conversion, and the application-level checks applied
//! to signed channel payments and fixed token leases.
use vstd::prelude::*;
use crate::text::{same_text, trim_text, trimmed};
use crate::textbuf::{
    append_decimal, append_text, decimal, join2, lower_ascii, lower_text,
};

verus! {

/// Upstream base revision for the local experimental Spilman checkout.
pub const CASHU_SPILMAN_CHANNELS_REV: &'static str = "bafc38f220e46289bebf157014ab1129c7deac63";

/// Git repository containing the experimental Spilman implementation.
pub const CASHU_SPILMAN_CHANNELS_REPO: &'static str =
    "https://github.com/SatsAndSports/cashu_spilman_channels.git";

/// Wire protocol version for Cashu-Spilman paid-route payment messages.
pub const STREAMING_ROUTE_PAYMENT_PROTOCOL_VERSION: u16 = 1;

/// Unit used by a metered paid route.
#[derive(Debug, Clone, Copy, PartialEq, Eq, Structural)]
pub enum StreamingRouteMeter {
    /// Charge by wall-clock time while a route lease is active.
    Milliseconds,
    /// Charge by tunneled bytes.
    Bytes,
    /// Charge by packets.
    Packets,
}

/// Seller-side policy for a metered route backed by a Cashu Spilman channel.
#[derive(Debug, Clone, Copy, PartialEq, Eq, Structural)]
pub struct StreamingRoutePolicy {
    /// Meter used to compute the amount due.
    pub meter: StreamingRouteMeter,
    /// Price numerator in millisats.
    pub price_msat: u64,
    /// Price denominator in metered units.
    pub per_units: u64,
    /// Maximum buyer-funded channel capacity accepted for one route.
    pub max_channel_capacity_sat: u64,
    /// Expiry applied to newly opened channels.
    pub channel_expiry_secs: u64,
    /// Free probe budget before streaming payments are required.
    pub free_probe_units: u64,
    /// Small risk window allowed after the last valid balance update.
    pub grace_units: u64,
}

/// Seller routing state implied by route usage and the latest signed balance.
#[derive(Debug, Clone, Copy, PartialEq, Eq, Structural)]
pub enum StreamingRouteAccessState {
    /// Usage is still inside the seller's free probe allowance.
    FreeProbe,
    /// The latest signed balance fully covers current usage.
    Paid,
    /// Routing may continue, but only because the grace window still covers
    /// unpaid usage while the buyer sends a fresh balance update.
    Grace,
    /// Routing should stop until the buyer provides a larger signed balance.
    Suspended,
}

/// Route gating decision for a metered Spilman-backed route.
#[derive(Debug, Clone, Copy, PartialEq, Eq, Structural)]
pub struct StreamingRouteDecision {
    pub state: StreamingRouteAccessState,
    pub allow_routing: bool,
    pub delivered_units: u64,
    pub paid_msat: u64,
    pub amount_due_msat: u64,
    pub enforced_amount_due_msat: u64,
    pub unpaid_msat: u64,
    pub free_probe_remaining_units: u64,
    pub grace_remaining_units: u64,
}

/// Ceiling of `a / b` for positive `b`.
pub open spec fn ceil_div(a: int, b: int) -> int {
    (a + b - 1) / b
}

/// `a * b`, or `u64::MAX` where that does not fit.
pub open spec fn sat_mul(a: u64, b: u64) -> u64 {
    if a * b > u64::MAX {
        u64::MAX
    } else {
        (a * b) as u64
    }
}

impl StreamingRoutePolicy {
    /// Millisats due for delivered usage: billable units past the free probe,
    /// priced per `per_units` (at least one) and rounded up, as a `u64`.
    pub open spec fn spec_amount_due(self, delivered_units: u64) -> u64 {
        let billable = delivered_units.saturating_sub(self.free_probe_units);
        if billable == 0 || self.price_msat == 0 {
            0
        } else {
            let per = if self.per_units == 0 {
                1
            } else {
                self.per_units
            };
            ceil_div(billable * self.price_msat, per as int) as u64
        }
    }

    pub open spec fn spec_routing_decision(self, delivered_units: u64, paid_msat: u64) -> StreamingRouteDecision {
        let amount_due_msat = self.spec_amount_due(delivered_units);
        let grace_limit_units = self.free_probe_units.saturating_add(self.grace_units);
        let enforced_amount_due_msat = self.spec_amount_due(
            delivered_units.saturating_sub(self.grace_units),
        );
        let allow_routing = delivered_units <= grace_limit_units || paid_msat
            >= enforced_amount_due_msat;
        StreamingRouteDecision {
            state: if delivered_units <= self.free_probe_units {
                StreamingRouteAccessState::FreeProbe
            } else if paid_msat >= amount_due_msat {
                StreamingRouteAccessState::Paid
            } else if allow_routing {
                StreamingRouteAccessState::Grace
            } else {
                StreamingRouteAccessState::Suspended
            },
            allow_routing,
            delivered_units,
            paid_msat,
            amount_due_msat,
            enforced_amount_due_msat,
            unpaid_msat: amount_due_msat.saturating_sub(paid_msat),
            free_probe_remaining_units: self.free_probe_units.saturating_sub(delivered_units),
            grace_remaining_units: grace_limit_units.saturating_sub(delivered_units),
        }
    }

    /// Computes the millisats due for delivered route usage.
    pub fn amount_due_msat(&self, delivered_units: u64) -> (r: u64)
        ensures
            r == self.spec_amount_due(delivered_units),
    {
        let billable = delivered_units.saturating_sub(self.free_probe_units);
        if billable == 0 || self.price_msat == 0 {
            return 0;
        }
        let per: u64 = if self.per_units == 0 {
            1
        } else {
            self.per_units
        };
        let b = billable as u128;
        let p = self.price_msat as u128;
        assert(b * p <= 0xffff_ffff_ffff_ffffu128 * 0xffff_ffff_ffff_ffffu128) by (nonlinear_arith)
            requires
                b <= 0xffff_ffff_ffff_ffffu128,
                p <= 0xffff_ffff_ffff_ffffu128,
        ;
        let total: u128 = b * p;
        let q: u128 = (total + (per as u128 - 1)) / (per as u128);
        #[verifier::truncate]
        let r = q as u64;
        r
    }

    /// Returns true when a signed balance is sufficient to keep routing.
    pub fn is_balance_sufficient(&self, delivered_units: u64, paid_msat: u64) -> (b: bool)
        ensures
            b == self.spec_routing_decision(delivered_units, paid_msat).allow_routing,
    {
        self.routing_decision(delivered_units, paid_msat).allow_routing
    }

    /// Computes the current route-gating decision from delivered usage and the
    /// latest signed Spilman balance.
    pub fn routing_decision(&self, delivered_units: u64, paid_msat: u64) -> (d: StreamingRouteDecision)
        ensures
            d == self.spec_routing_decision(delivered_units, paid_msat),
    {
        let amount_due_msat = self.amount_due_msat(delivered_units);
        let free_probe_remaining_units = self.free_probe_units.saturating_sub(delivered_units);
        let grace_limit_units = self.free_probe_units.saturating_add(self.grace_units);
        let grace_remaining_units = grace_limit_units.saturating_sub(delivered_units);
        let enforced_units = delivered_units.saturating_sub(self.grace_units);
        let enforced_amount_due_msat = self.amount_due_msat(enforced_units);
        let allow_routing = delivered_units <= grace_limit_units || paid_msat
            >= enforced_amount_due_msat;
        let unpaid_msat = amount_due_msat.saturating_sub(paid_msat);
        let state = if delivered_units <= self.free_probe_units {
            StreamingRouteAccessState::FreeProbe
        } else if paid_msat >= amount_due_msat {
            StreamingRouteAccessState::Paid
        } else if allow_routing {
            StreamingRouteAccessState::Grace
        } else {
            StreamingRouteAccessState::Suspended
        };
        StreamingRouteDecision {
            state,
            allow_routing,
            delivered_units,
            paid_msat,
            amount_due_msat,
            enforced_amount_due_msat,
            unpaid_msat,
            free_probe_remaining_units,
            grace_remaining_units,
        }
    }
}

/// Cashu denomination used by the Spilman channel balance.
///
/// Route accounting is denominated in millisats, while the underlying Cashu
/// channel may be funded in whole sats. Whole-sat channels round required
/// balances up so a signed update never underpays a metered route.
#[derive(Debug, Clone, Copy, PartialEq, Eq, Structural)]
pub enum StreamingRouteCashuUnit {
    Sat,
    Msat,
}

/// The text of a rejected channel unit, as the error reports it.
pub open spec fn unsupported_unit_msg(t: Seq<char>) -> Seq<char> {
    "unsupported Cashu channel unit '"@ + t + "'"@
}

impl StreamingRouteCashuUnit {
    /// Units are matched after trimming and ASCII lower-casing; the empty
    /// unit means whole sats.
    pub open spec fn spec_parse(unit: Seq<char>) -> Result<StreamingRouteCashuUnit, Seq<char>> {
        let t = lower_text(trimmed(unit));
        if t == ""@ || t == "sat"@ || t == "sats"@ {
            Ok(StreamingRouteCashuUnit::Sat)
        } else if t == "msat"@ || t == "msats"@ {
            Ok(StreamingRouteCashuUnit::Msat)
        } else {
            Err(unsupported_unit_msg(t))
        }
    }

    pub open spec fn spec_name(self) -> Seq<char> {
        match self {
            StreamingRouteCashuUnit::Sat => "sat"@,
            StreamingRouteCashuUnit::Msat => "msat"@,
        }
    }

    pub open spec fn spec_balance_to_msat(self, balance: u64) -> u64 {
        match self {
            StreamingRouteCashuUnit::Sat => sat_mul(balance, 1000),
            StreamingRouteCashuUnit::Msat => balance,
        }
    }

    pub open spec fn spec_balance_from_msat(self, paid_msat: u64) -> u64 {
        match self {
            StreamingRouteCashuUnit::Sat => ceil_div(paid_msat as int, 1000) as u64,
            StreamingRouteCashuUnit::Msat => paid_msat,
        }
    }

    pub open spec fn spec_capacity_from_sat(self, capacity_sat: u64) -> u64 {
        match self {
            StreamingRouteCashuUnit::Sat => capacity_sat,
            StreamingRouteCashuUnit::Msat => sat_mul(capacity_sat, 1000),
        }
    }

    pub open spec fn spec_capacity_to_sat(self, capacity: u64) -> u64 {
        match self {
            StreamingRouteCashuUnit::Sat => capacity,
            StreamingRouteCashuUnit::Msat => ceil_div(capacity as int, 1000) as u64,
        }
    }

    pub fn parse(unit: &str) -> (r: Result<Self, String>)
        ensures
            match Self::spec_parse(unit@) {
                Ok(u) => r == Ok::<Self, String>(u),
                Err(m) => r matches Err(e) && e@ == m,
            },
    {
        let t = trim_text(unit);
        let l = lower_ascii(t.as_str());
        let s = l.as_str();
        if same_text(s, "") || same_text(s, "sat") || same_text(s, "sats") {
            Ok(StreamingRouteCashuUnit::Sat)
        } else if same_text(s, "msat") || same_text(s, "msats") {
            Ok(StreamingRouteCashuUnit::Msat)
        } else {
            let mut m = join2("unsupported Cashu channel unit '", s);
            append_text(&mut m, "'");
            Err(m)
        }
    }

    pub fn as_str(self) -> (r: &'static str)
        ensures
            r@ == self.spec_name(),
    {
        match self {
            StreamingRouteCashuUnit::Sat => "sat",
            StreamingRouteCashuUnit::Msat => "msat",
        }
    }

    pub fn balance_to_msat(self, balance: u64) -> (r: u64)
        ensures
            r == self.spec_balance_to_msat(balance),
    {
        match self {
            StreamingRouteCashuUnit::Sat => saturating_thousand(balance),
            StreamingRouteCashuUnit::Msat => balance,
        }
    }

    pub fn balance_from_msat(self, paid_msat: u64) -> (r: u64)
        ensures
            r == self.spec_balance_from_msat(paid_msat),
    {
        match self {
            StreamingRouteCashuUnit::Sat => ceil_thousandths(paid_msat),
            StreamingRouteCashuUnit::Msat => paid_msat,
        }
    }

    pub fn capacity_from_sat(self, capacity_sat: u64) -> (r: u64)
        ensures
            r == self.spec_capacity_from_sat(capacity_sat),
    {
        match self {
            StreamingRouteCashuUnit::Sat => capacity_sat,
            StreamingRouteCashuUnit::Msat => saturating_thousand(capacity_sat),
        }
    }

    pub fn capacity_to_sat(self, capacity: u64) -> (r: u64)
        ensures
            r == self.spec_capacity_to_sat(capacity),
    {
        match self {
            StreamingRouteCashuUnit::Sat => capacity,
            StreamingRouteCashuUnit::Msat => ceil_thousandths(capacity),
        }
    }
}

/// `n * 1000`, saturating at `u64::MAX`.
fn saturating_thousand(n: u64) -> (r: u64)
    ensures
        r == sat_mul(n, 1000),
{
    match n.checked_mul(1000) {
        Some(v) => v,
        None => u64::MAX,
    }
}

/// `n.div_ceil(1000)`.
fn ceil_thousandths(n: u64) -> (r: u64)
    ensures
        r == ceil_div(n as int, 1000),
{
    if n % 1000 == 0 {
        n / 1000
    } else {
        n / 1000 + 1
    }
}

pub fn streaming_route_cashu_balance_msat(unit: &str, balance: u64) -> (r: Result<u64, String>)
    ensures
        match StreamingRouteCashuUnit::spec_parse(unit@) {
            Ok(u) => r == Ok::<u64, String>(u.spec_balance_to_msat(balance)),
            Err(m) => r matches Err(e) && e@ == m,
        },
{
    Ok(StreamingRouteCashuUnit::parse(unit)?.balance_to_msat(balance))
}

pub fn streaming_route_cashu_balance_for_msat(unit: &str, paid_msat: u64) -> (r: Result<u64, String>)
    ensures
        match StreamingRouteCashuUnit::spec_parse(unit@) {
            Ok(u) => r == Ok::<u64, String>(u.spec_balance_from_msat(paid_msat)),
            Err(m) => r matches Err(e) && e@ == m,
        },
{
    Ok(StreamingRouteCashuUnit::parse(unit)?.balance_from_msat(paid_msat))
}

pub fn streaming_route_cashu_capacity_for_sat(unit: &str, capacity_sat: u64) -> (r: Result<u64, String>)
    ensures
        match StreamingRouteCashuUnit::spec_parse(unit@) {
            Ok(u) => r == Ok::<u64, String>(u.spec_capacity_from_sat(capacity_sat)),
            Err(m) => r matches Err(e) && e@ == m,
        },
{
    Ok(StreamingRouteCashuUnit::parse(unit)?.capacity_from_sat(capacity_sat))
}

pub fn streaming_route_cashu_capacity_sat(unit: &str, capacity: u64) -> (r: Result<u64, String>)
    ensures
        match StreamingRouteCashuUnit::spec_parse(unit@) {
            Ok(u) => r == Ok::<u64, String>(u.spec_capacity_to_sat(capacity)),
            Err(m) => r matches Err(e) && e@ == m,
        },
{
    Ok(StreamingRouteCashuUnit::parse(unit)?.capacity_to_sat(capacity))
}

pub fn streaming_route_cashu_capacity_msat(unit: &str, capacity: u64) -> (r: Result<u64, String>)
    ensures
        match StreamingRouteCashuUnit::spec_parse(unit@) {
            Ok(u) => r == Ok::<u64, String>(u.spec_balance_to_msat(capacity)),
            Err(m) => r matches Err(e) && e@ == m,
        },
{
    Ok(StreamingRouteCashuUnit::parse(unit)?.balance_to_msat(capacity))
}

/// Kind of signed Spilman payment a buyer needs for route streaming.
#[derive(Debug, Clone, Copy, PartialEq, Eq, Structural)]
pub enum StreamingRouteCashuPaymentKind {
    ChannelOpen,
    BalanceUpdate,
    CooperativeClose,
}

impl StreamingRouteCashuPaymentKind {
    /// Only a channel-opening payment carries funding data.
    pub fn include_funding(self) -> (b: bool)
        ensures
            b == (self == StreamingRouteCashuPaymentKind::ChannelOpen),
    {
        matches!(self, StreamingRouteCashuPaymentKind::ChannelOpen)
    }
}

/// The channel unit a request names when it names none.
pub fn default_streaming_route_cashu_unit() -> (r: String)
    ensures
        r@ == "sat"@,
{
    StreamingRouteCashuUnit::Sat.as_str().to_owned()
}

/// The payment protocol version a message carries when it names none.
pub fn default_streaming_route_payment_protocol_version() -> (r: u16)
    ensures
        r == STREAMING_ROUTE_PAYMENT_PROTOCOL_VERSION,
{
    STREAMING_ROUTE_PAYMENT_PROTOCOL_VERSION
}

/// Whether an optional amount is left at zero (and so omitted when encoded).
pub fn is_zero(value: &u64) -> (b: bool)
    ensures
        b == (*value == 0),
{
    *value == 0
}

/// Request for a fixed Cashu-token lease payment.
///
/// This is a fallback/dev mode for callers that cannot open a streaming
/// Spilman channel yet. The token is opaque to this crate; higher-level code
/// should redeem or verify it with the configured Cashu wallet before treating
/// the lease as settled.
#[derive(Debug, Clone, PartialEq, Eq)]
pub struct StreamingRouteCashuTokenLeaseRequest {
    pub channel_id: String,
    pub mint_url: String,
    pub unit: String,
    /// Token amount in `unit`.
    pub amount: u64,
    /// Optional route-credit amount. Defaults to the token amount converted to
    /// millisats and must not exceed it.
    pub paid_msat: Option<u64>,
    pub expires_unix: u64,
    pub token: String,
}

#[derive(Debug, Clone, PartialEq, Eq)]
pub struct StreamingRouteCashuTokenLease {
    pub channel_id: String,
    pub mint_url: String,
    pub unit: String,
    pub amount: u64,
    pub paid_msat: u64,
    pub expires_unix: u64,
    pub token: String,
}

/// The error for a token lease whose credit exceeds its token amount.
pub open spec fn lease_over_credit_msg(paid: u64, max: u64) -> Seq<char> {
    "paid route token lease credit "@ + decimal(paid as nat) + " msat exceeds token amount "@
        + decimal(max as nat) + " msat"@
}

/// What a token-lease request yields: the lease, or the reason it is refused.
pub open spec fn spec_token_lease(
    channel_id: Seq<char>,
    mint_url: Seq<char>,
    unit: Seq<char>,
    amount: u64,
    paid_msat: Option<u64>,
    token: Seq<char>,
) -> Result<(Seq<char>, Seq<char>, Seq<char>, u64, Seq<char>), Seq<char>> {
    if trimmed(channel_id).len() == 0 {
        Err("missing Cashu token lease id"@)
    } else if trimmed(mint_url).len() == 0 {
        Err("missing Cashu token mint URL"@)
    } else if trimmed(token).len() == 0 {
        Err("missing Cashu token"@)
    } else {
        match StreamingRouteCashuUnit::spec_parse(unit) {
            Err(m) => Err(m),
            Ok(u) => {
                let max = u.spec_balance_to_msat(amount);
                let paid = match paid_msat {
                    Some(p) => p,
                    None => max,
                };
                if paid > max {
                    Err(lease_over_credit_msg(paid, max))
                } else {
                    Ok((trimmed(channel_id), trimmed(mint_url), u.spec_name(), paid, trimmed(token)))
                }
            },
        }
    }
}

/// Build a fixed token lease: trimmed identifiers, a known unit, and route
/// credit no larger than the token amount.
pub fn create_streaming_route_cashu_token_lease(request: StreamingRouteCashuTokenLeaseRequest) -> (r:
    Result<StreamingRouteCashuTokenLease, String>)
    ensures
        match spec_token_lease(
            request.channel_id@,
            request.mint_url@,
            request.unit@,
            request.amount,
            request.paid_msat,
            request.token@,
        ) {
            Ok((c, m, u, p, t)) => r matches Ok(l) && l.channel_id@ == c && l.mint_url@ == m
                && l.unit@ == u && l.amount == request.amount && l.paid_msat == p && l.expires_unix
                == request.expires_unix && l.token@ == t,
            Err(e) => r matches Err(x) && x@ == e,
        },
{
    let channel_id = trim_text(request.channel_id.as_str());
    if channel_id.as_str().is_empty() {
        return Err("missing Cashu token lease id".to_owned());
    }
    let mint_url = trim_text(request.mint_url.as_str());
    if mint_url.as_str().is_empty() {
        return Err("missing Cashu token mint URL".to_owned());
    }
    let token = trim_text(request.token.as_str());
    if token.as_str().is_empty() {
        return Err("missing Cashu token".to_owned());
    }
    let unit = StreamingRouteCashuUnit::parse(request.unit.as_str())?;
    let max_paid_msat = unit.balance_to_msat(request.amount);
    let paid_msat = match request.paid_msat {
        Some(p) => p,
        None => max_paid_msat,
    };
    if paid_msat > max_paid_msat {
        let mut m = "paid route token lease credit ".to_owned();
        append_decimal(&mut m, paid_msat);
        append_text(&mut m, " msat exceeds token amount ");
        append_decimal(&mut m, max_paid_msat);
        append_text(&mut m, " msat");
        return Err(m);
    }
    Ok(
        StreamingRouteCashuTokenLease {
            channel_id,
            mint_url,
            unit: unit.as_str().to_owned(),
            amount: request.amount,
            paid_msat,
            expires_unix: request.expires_unix,
            token,
        },
    )
}

/// The amount due is zero while usage stays inside the free probe.
pub proof fn law_free_probe_is_free(policy: StreamingRoutePolicy, delivered_units: u64)
    requires
        delivered_units <= policy.free_probe_units,
    ensures
        policy.spec_amount_due(delivered_units) == 0,
        policy.spec_routing_decision(delivered_units, 0).state == StreamingRouteAccessState::FreeProbe,
        policy.spec_routing_decision(delivered_units, 0).allow_routing,
{
}

/// The amount due never decreases as usage grows, as long as it fits in a
/// `u64`.
pub proof fn law_amount_due_monotone(policy: StreamingRoutePolicy, fewer: u64, more: u64)
    requires
        fewer <= more,
        ceil_div(
            more.saturating_sub(policy.free_probe_units) * policy.price_msat,
            if policy.per_units == 0 { 1 } else { policy.per_units as int },
        ) <= u64::MAX,
    ensures
        policy.spec_amount_due(fewer) <= policy.spec_amount_due(more),
{
    let per: int = if policy.per_units == 0 { 1 } else { policy.per_units as int };
    let bf = fewer.saturating_sub(policy.free_probe_units);
    let bm = more.saturating_sub(policy.free_probe_units);
    vstd::arithmetic::mul::lemma_mul_inequality(bf as int, bm as int, policy.price_msat as int);
    vstd::arithmetic::div_mod::lemma_div_is_ordered(
        bf * policy.price_msat + per - 1,
        bm * policy.price_msat + per - 1,
        per,
    );
    assert(bf * policy.price_msat >= 0) by (nonlinear_arith)
        requires bf >= 0, policy.price_msat >= 0;
    vstd::arithmetic::div_mod::lemma_div_is_ordered(0, bf * policy.price_msat + per - 1, per);
}

/// Routing is refused exactly in the suspended state; a paid route owes
/// nothing; a balance check agrees with the routing decision. (Stated where the
/// amount due fits in a `u64`.)
pub proof fn law_routing_gate(policy: StreamingRoutePolicy, delivered_units: u64, paid_msat: u64)
    requires
        ceil_div(
            delivered_units.saturating_sub(policy.free_probe_units) * policy.price_msat,
            if policy.per_units == 0 { 1 } else { policy.per_units as int },
        ) <= u64::MAX,
    ensures
        ({
            let d = policy.spec_routing_decision(delivered_units, paid_msat);
            &&& d.allow_routing <==> d.state != StreamingRouteAccessState::Suspended
            &&& d.state == StreamingRouteAccessState::FreeProbe <==> delivered_units
                <= policy.free_probe_units
            &&& d.state == StreamingRouteAccessState::Paid ==> d.unpaid_msat == 0
            &&& d.unpaid_msat == d.amount_due_msat - paid_msat || (d.unpaid_msat == 0
                && paid_msat >= d.amount_due_msat)
        }),
{
    law_amount_due_monotone(
        policy,
        delivered_units.saturating_sub(policy.grace_units),
        delivered_units,
    );
}

/// A whole-sat channel balance computed for a millisat amount never pays less
/// than that amount.
pub proof fn law_balance_rounds_up(unit: StreamingRouteCashuUnit, paid_msat: u64)
    ensures
        unit.spec_balance_to_msat(unit.spec_balance_from_msat(paid_msat)) >= paid_msat,
        unit.spec_balance_from_msat(unit.spec_balance_to_msat(paid_msat)) == paid_msat || unit
            == StreamingRouteCashuUnit::Sat && paid_msat * 1000 > u64::MAX,
{
    let m = paid_msat as int;
    assert((m + 999) / 1000 * 1000 >= m) by (nonlinear_arith)
        requires m >= 0;
    assert((m * 1000 + 999) / 1000 == m) by (nonlinear_arith)
        requires m >= 0;
    assert((m + 999) / 1000 <= m + 1) by (nonlinear_arith)
        requires m >= 0;
}

/// A token lease never credits more than its token is worth.
pub proof fn law_token_lease_credit_capped(
    channel_id: Seq<char>,
    mint_url: Seq<char>,
    unit: Seq<char>,
    amount: u64,
    paid_msat: Option<u64>,
    token: Seq<char>,
)
    requires
        spec_token_lease(channel_id, mint_url, unit, amount, paid_msat, token) is Ok,
    ensures
        StreamingRouteCashuUnit::spec_parse(unit) is Ok,
        spec_token_lease(channel_id, mint_url, unit, amount, paid_msat, token)->Ok_0.3
            <= StreamingRouteCashuUnit::spec_parse(unit)->Ok_0.spec_balance_to_msat(amount),
{
}

/// The amount due is the price of the billable units (those past the free
/// probe), per `per_units` units (at least one), rounded up to a whole
/// millisat: the smallest amount whose `per_units` multiple covers the price
/// of the billable units. (Stated where that amount fits in a `u64`.)
pub proof fn law_amount_due_is_rounded_up_price(policy: StreamingRoutePolicy, delivered_units: u64)
    requires
        ceil_div(
            delivered_units.saturating_sub(policy.free_probe_units) * policy.price_msat,
            if policy.per_units == 0 { 1 } else { policy.per_units as int },
        ) <= u64::MAX,
    ensures
        ({
            let billable: int = if delivered_units > policy.free_probe_units {
                delivered_units - policy.free_probe_units
            } else {
                0
            };
            let per: int = if policy.per_units == 0 { 1 } else { policy.per_units as int };
            let due = policy.spec_amount_due(delivered_units) as int;
            &&& due * per >= billable * policy.price_msat
            &&& due == 0 || (due - 1) * per < billable * policy.price_msat
        }),
{
    let per: int = if policy.per_units == 0 { 1 } else { policy.per_units as int };
    let billable: int = if delivered_units > policy.free_probe_units {
        delivered_units - policy.free_probe_units
    } else {
        0
    };
    let t = billable * policy.price_msat;
    assert(t >= 0) by (nonlinear_arith)
        requires billable >= 0, policy.price_msat >= 0, t == billable * policy.price_msat;
    if billable != 0 && policy.price_msat != 0 {
        assert(t >= 1) by (nonlinear_arith)
            requires billable >= 1, policy.price_msat >= 1, t == billable * policy.price_msat;
        let q = (t + per - 1) / per;
        assert(q * per >= t && (q - 1) * per < t) by (nonlinear_arith)
            requires per >= 1, t >= 1, q == (t + per - 1) / per;
        assert(policy.spec_amount_due(delivered_units) as int == q);
    }
}

/// The unpaid grace window ends at the free probe plus the grace units
/// (capped at `u64::MAX`): the decision's remaining grace is what is left of
/// that window after the delivered units, zero once they reach it, so it is
/// positive exactly while delivery is still inside the window; inside the
/// window routing is always allowed. The remaining free probe is likewise
/// what is left of the free probe.
pub proof fn law_grace_window(policy: StreamingRoutePolicy, delivered_units: u64, paid_msat: u64)
    ensures
        ({
            let window: int = if policy.free_probe_units + policy.grace_units > u64::MAX {
                u64::MAX as int
            } else {
                policy.free_probe_units + policy.grace_units
            };
            let d = policy.spec_routing_decision(delivered_units, paid_msat);
            &&& d.grace_remaining_units == (if delivered_units <= window {
                window - delivered_units
            } else {
                0
            })
            &&& d.grace_remaining_units > 0 <==> delivered_units < window
            &&& delivered_units <= window ==> d.allow_routing
            &&& delivered_units > window ==> (d.allow_routing <==> paid_msat >= policy.spec_amount_due(
                (delivered_units - policy.grace_units) as u64,
            ))
            &&& d.state == StreamingRouteAccessState::Grace ==> d.allow_routing && delivered_units
                > policy.free_probe_units && paid_msat < d.amount_due_msat
            &&& d.free_probe_remaining_units == (if delivered_units <= policy.free_probe_units {
                policy.free_probe_units - delivered_units
            } else {
                0
            })
            &&& d.delivered_units == delivered_units
            &&& d.paid_msat == paid_msat
        }),
{
}

/// A token lease without an explicit credit grants the full value of the
/// token in millisats: a sat token of `amount` gives `amount * 1000` (capped
/// at `u64::MAX`), a msat token gives `amount`, and such a lease is never
/// refused for its credit. An explicit credit is granted as asked, and only
/// up to that full value.
pub proof fn law_token_lease_credit(
    channel_id: Seq<char>,
    mint_url: Seq<char>,
    unit: Seq<char>,
    amount: u64,
    paid_msat: Option<u64>,
    token: Seq<char>,
)
    ensures
        ({
            let full: int = match StreamingRouteCashuUnit::spec_parse(unit) {
                Ok(StreamingRouteCashuUnit::Msat) => amount as int,
                _ => if amount * 1000 > u64::MAX {
                    u64::MAX as int
                } else {
                    amount * 1000
                },
            };
            let r = spec_token_lease(channel_id, mint_url, unit, amount, paid_msat, token);
            &&& paid_msat is None && trimmed(channel_id).len() > 0 && trimmed(mint_url).len() > 0
                && trimmed(token).len() > 0 && StreamingRouteCashuUnit::spec_parse(unit) is Ok ==> r is Ok
            &&& (r is Ok && paid_msat is None) ==> r->Ok_0.3 == full
            &&& (r is Ok && paid_msat is Some) ==> r->Ok_0.3 == paid_msat->0 && r->Ok_0.3 <= full
            &&& (paid_msat is Some && paid_msat->0 > full) ==> r is Err
        }),
{
}

} // verus!
