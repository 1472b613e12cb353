//! What holds of a credit account across operations: the exposure caps and
//! conservation every operation keeps, replay idempotency, one revision per
//! applied mutation, and how value moves between the three classes.
use vstd::prelude::*;
use crate::error::CreditError;
use crate::exposure::{
    lemma_map_total_insert, lemma_map_total_part, lemma_map_total_remove, lemma_map_total_same,
    lemma_map_total_zero,
    map_total, outstanding_of, outstanding_total, reserved_at,
};
use crate::text::is_blank;
use crate::model::{
    issuers_from_policies, spec_new_account, AccountView, IssuerState, SettlementRecord,
    SettlementState,
};
use crate::protocol::{
    AcceptanceMode, BackedCreditSettlement, BackingDeposit, ClosedLoopConsumption,
    CreditNovation, ExternalSettlementAuthorization, ExternalSettlementRequest, IssuerPolicy,
    ReceiptApplication, ServiceReceiptClaim, ValueClass,
};

verus! {

/// Caps and conservation of one issuer's ledgers.
pub open spec fn issuer_inv(st: IssuerState) -> bool {
    let p = st.policy;
    let pc = st.peer_credit;
    let w = st.withdrawable;
    &&& pc.offline_outstanding_sat <= pc.outstanding_sat
    &&& pc.outstanding_sat <= p.max_peer_credit_sat
    &&& pc.offline_outstanding_sat <= p.max_offline_peer_credit_sat
    &&& st.closed_loop.conserved()
    &&& st.closed_loop.claimable_sat <= p.max_closed_loop_sat
    &&& w.conserved()
    &&& w.redeemable_sat + w.pending_external_sat <= p.max_withdrawable_sat
}

/// A settlement stored under a key is the one its request names, and its
/// authorization holds what that request was granted.
pub open spec fn settlement_record_ok(key: Seq<char>, rec: SettlementRecord) -> bool {
    &&& rec.request.settlement_id@ == key
    &&& rec.request.amount_sat + rec.request.max_fee_sat <= u64::MAX
    &&& rec.authorization.same(
        &AccountView::authorization_for(rec.request, rec.authorization.authorized_at_unix),
    )
}

impl AccountView {
    /// Every issuer within its caps with conserved backing, the aggregate
    /// peer credit the sum of the issuers' outstanding credit and within the
    /// account cap, every settlement stored under its own id and for one of
    /// the account's issuers, each issuer's pending external reserve the sum
    /// of what its pending settlements reserve, and every deposit recorded
    /// for one of the account's issuers.
    pub open spec fn inv(self) -> bool {
        &&& forall|k: Seq<char>| self.issuers.contains_key(k) ==> issuer_inv(#[trigger] self.issuers[k])
        &&& self.total_peer_credit_sat <= self.max_total_peer_credit_sat
        &&& self.issuers.dom().finite()
        &&& self.total_peer_credit_sat == outstanding_total(self.issuers)
        &&& forall|k: Seq<char>|
            self.settlements.contains_key(k) ==> settlement_record_ok(k, #[trigger] self.settlements[k])
        &&& forall|key: (Seq<char>, Seq<char>)|
            #[trigger] self.backing_deposits.contains_key(key) ==> self.issuers.contains_key(key.0)
        &&& self.settlements.dom().finite()
        &&& forall|k: Seq<char>|
            #[trigger] self.settlements.contains_key(k) ==> self.issuers.contains_key(
                self.settlements[k].request.issuer@,
            )
        &&& forall|i: Seq<char>|
            self.issuers.contains_key(i) ==> (#[trigger] self.issuers[i]).withdrawable.pending_external_sat
                == map_total(self.settlements, reserved_at(i))
    }

    /// The same issuers with the same peer-credit ledgers.
    pub open spec fn same_peer_credit(self, other: AccountView) -> bool {
        &&& self.issuers.dom() == other.issuers.dom()
        &&& forall|k: Seq<char>|
            self.issuers.contains_key(k) ==> #[trigger] self.issuers[k].peer_credit
                == other.issuers[k].peer_credit
        &&& self.total_peer_credit_sat == other.total_peer_credit_sat
    }

    /// The same issuers with the same closed-loop ledgers.
    pub open spec fn same_closed_loop(self, other: AccountView) -> bool {
        &&& self.issuers.dom() == other.issuers.dom()
        &&& forall|k: Seq<char>|
            self.issuers.contains_key(k) ==> #[trigger] self.issuers[k].closed_loop
                == other.issuers[k].closed_loop
    }

    /// The same issuers with the same withdrawable reserves.
    pub open spec fn same_withdrawable(self, other: AccountView) -> bool {
        &&& self.issuers.dom() == other.issuers.dom()
        &&& forall|k: Seq<char>|
            self.issuers.contains_key(k) ==> #[trigger] self.issuers[k].withdrawable
                == other.issuers[k].withdrawable
    }
}

proof fn lemma_fresh_issuers(ps: Seq<IssuerPolicy>)
    requires
        issuers_from_policies(ps) is Ok,
    ensures
        forall|k: Seq<char>|
            issuers_from_policies(ps)->Ok_0.contains_key(k) ==> issuer_inv(
                #[trigger] issuers_from_policies(ps)->Ok_0[k],
            ) && issuers_from_policies(ps)->Ok_0[k].withdrawable.pending_external_sat == 0,
        issuers_from_policies(ps)->Ok_0.dom().finite(),
        outstanding_total(issuers_from_policies(ps)->Ok_0) == 0,
    decreases ps.len(),
{
    if ps.len() > 0 {
        lemma_fresh_issuers(ps.drop_last());
        let m = issuers_from_policies(ps.drop_last())->Ok_0;
        let k = ps.last().issuer@;
        let m1 = issuers_from_policies(ps)->Ok_0;
        assert(m1 == m.insert(k, IssuerState::fresh(ps.last())));
        lemma_map_total_remove(m1, k, outstanding_of());
        assert(m1.remove(k) =~= m);
    } else {
        assert(issuers_from_policies(ps)->Ok_0.dom() =~= Set::empty());
    }
}

/// A new account starts inside every cap with conserved (empty) backing.
pub proof fn law_new_account_invariant(
    counterparty: Seq<char>,
    max_total_peer_credit_sat: u64,
    issuers: Seq<IssuerPolicy>,
)
    requires
        spec_new_account(counterparty, max_total_peer_credit_sat, issuers) is Ok,
    ensures
        spec_new_account(counterparty, max_total_peer_credit_sat, issuers)->Ok_0.inv(),
        spec_new_account(counterparty, max_total_peer_credit_sat, issuers)->Ok_0.revision == 0,
{
    lemma_fresh_issuers(issuers);
    let v = spec_new_account(counterparty, max_total_peer_credit_sat, issuers)->Ok_0;
    assert(v.settlements.dom() =~= Set::<Seq<char>>::empty());
    assert forall|i: Seq<char>| v.issuers.contains_key(i) implies (#[trigger] v.issuers[i]).withdrawable.pending_external_sat
        == map_total(v.settlements, reserved_at(i)) by {
        lemma_map_total_zero(v.settlements, reserved_at(i));
    }
}

// ----- backing deposits -----

/// Recording a deposit keeps every cap and conservation; a recorded deposit
/// advances the revision once; a replay changes nothing.
pub proof fn law_record_backing_deposit(v: AccountView, d: BackingDeposit, auth: Seq<char>)
    requires
        v.inv(),
        v.record_backing_deposit(d, auth) is Ok,
    ensures
        ({
            let (v1, a) = v.record_backing_deposit(d, auth)->Ok_0;
            &&& v1.inv()
            &&& a == ReceiptApplication::Applied ==> v1.revision == v.revision + 1
            &&& a == ReceiptApplication::AlreadyApplied ==> v1 == v
            &&& v1.same_peer_credit(v)
        }),
{
    let (v1, a) = v.record_backing_deposit(d, auth)->Ok_0;
    assert(v1.issuers.dom() =~= v.issuers.dom());
    assert forall|k: Seq<char>| v1.issuers.contains_key(k) implies issuer_inv(#[trigger] v1.issuers[k]) by {
        assert(v.issuers.contains_key(k));
        assert(issuer_inv(v.issuers[k]));
    }
    assert forall|k: Seq<char>| v1.settlements.contains_key(k) implies settlement_record_ok(
        k,
        #[trigger] v1.settlements[k],
    ) by {
        if v.settlements.contains_key(k) {
            assert(settlement_record_ok(k, v.settlements[k]));
        }
    }
    assert(v1.same_peer_credit(v));
    lemma_map_total_same(v.issuers, v1.issuers, outstanding_of());
}

/// Replaying a recorded deposit, at any later point, is answered
/// `AlreadyApplied` and changes nothing.
pub proof fn law_record_backing_deposit_replay(v: AccountView, d: BackingDeposit, auth: Seq<char>)
    requires
        v.record_backing_deposit(d, auth) is Ok,
    ensures
        ({
            let v1 = v.record_backing_deposit(d, auth)->Ok_0.0;
            v1.record_backing_deposit(d, auth) == Ok::<(AccountView, ReceiptApplication), CreditError>(
                (v1, ReceiptApplication::AlreadyApplied),
            )
        }),
{
    let v1 = v.record_backing_deposit(d, auth)->Ok_0.0;
    assert(v1.issuers.contains_key(d.issuer@));
    assert(v1.backing_deposits.contains_key((d.issuer@, d.deposit_id@)));
}

/// A deposit whose issuer and id are already recorded is answered by what
/// was recorded: a replay of the same deposit is `AlreadyApplied`, any other
/// contents are a conflict, and in both cases nothing changes.
pub proof fn law_recorded_deposit_is_replay_or_conflict(v: AccountView, d: BackingDeposit, auth: Seq<char>)
    requires
        v.inv(),
        d.issuer@ == auth,
        !is_blank(d.deposit_id@),
        d.amount_sat != 0,
        d.value_class != ValueClass::PeerCredit,
        v.backing_deposits.contains_key((d.issuer@, d.deposit_id@)),
    ensures
        v.record_backing_deposit(d, auth) == (if v.backing_deposits[(d.issuer@, d.deposit_id@)].same(&d) {
            Ok::<(AccountView, ReceiptApplication), CreditError>((v, ReceiptApplication::AlreadyApplied))
        } else {
            Err::<(AccountView, ReceiptApplication), CreditError>(CreditError::DepositConflict)
        }),
{
    assert(v.issuers.contains_key(d.issuer@));
}

// ----- receipts -----

/// Applying a receipt keeps every cap and conservation; an applied receipt
/// advances the revision once; a replay changes nothing; a closed-loop or
/// withdrawable receipt leaves peer credit alone, and a peer-credit or
/// closed-loop receipt leaves the withdrawable reserve alone.
pub proof fn law_apply_receipt(
    v: AccountView,
    c: ServiceReceiptClaim,
    auth: Seq<char>,
    mode: AcceptanceMode,
    now: u64,
)
    requires
        v.inv(),
        v.apply_receipt(c, auth, mode, now) is Ok,
    ensures
        ({
            let (v1, a) = v.apply_receipt(c, auth, mode, now)->Ok_0;
            &&& v1.inv()
            &&& a == ReceiptApplication::Applied ==> v1.revision == v.revision + 1
            &&& a == ReceiptApplication::AlreadyApplied ==> v1 == v
            &&& c.value_class != ValueClass::PeerCredit ==> v1.same_peer_credit(v)
            &&& c.value_class != ValueClass::ReserveBackedWithdrawable ==> v1.same_withdrawable(v)
        }),
{
    let (v1, a) = v.apply_receipt(c, auth, mode, now)->Ok_0;
    assert(v1.issuers.dom() =~= v.issuers.dom());
    assert forall|k: Seq<char>| v1.issuers.contains_key(k) implies issuer_inv(#[trigger] v1.issuers[k]) by {
        assert(v.issuers.contains_key(k));
        assert(issuer_inv(v.issuers[k]));
    }
    assert forall|k: Seq<char>| v1.settlements.contains_key(k) implies settlement_record_ok(
        k,
        #[trigger] v1.settlements[k],
    ) by {
        if v.settlements.contains_key(k) {
            assert(settlement_record_ok(k, v.settlements[k]));
        }
    }
    if a == ReceiptApplication::Applied {
        if c.value_class == ValueClass::PeerCredit {
            assert(v1.issuers =~= v.issuers.insert(c.issuer@, v1.issuers[c.issuer@]));
            lemma_map_total_insert(v.issuers, c.issuer@, v1.issuers[c.issuer@], outstanding_of());
        } else {
            assert(v1.same_peer_credit(v));
            lemma_map_total_same(v.issuers, v1.issuers, outstanding_of());
        }
    }
}

/// Replaying an applied receipt, in any mode and at any later time, is
/// answered `AlreadyApplied` and changes nothing.
pub proof fn law_apply_receipt_replay(
    v: AccountView,
    c: ServiceReceiptClaim,
    auth: Seq<char>,
    mode: AcceptanceMode,
    now: u64,
    later_mode: AcceptanceMode,
    later: u64,
)
    requires
        v.apply_receipt(c, auth, mode, now) is Ok,
    ensures
        ({
            let v1 = v.apply_receipt(c, auth, mode, now)->Ok_0.0;
            v1.apply_receipt(c, auth, later_mode, later) == Ok::<
                (AccountView, ReceiptApplication),
                CreditError,
            >((v1, ReceiptApplication::AlreadyApplied))
        }),
{
    let v1 = v.apply_receipt(c, auth, mode, now)->Ok_0.0;
    assert(v1.issuers.contains_key(c.issuer@));
    assert(v1.applied_receipts.contains_key(c.receipt_id@));
}

/// A receipt id reused with different contents is refused and changes nothing.
pub proof fn law_apply_receipt_conflict(
    v: AccountView,
    c: ServiceReceiptClaim,
    auth: Seq<char>,
    mode: AcceptanceMode,
    now: u64,
)
    requires
        v.validate_receipt_identity(c, auth) is Ok,
        v.applied_receipts.contains_key(c.receipt_id@),
        !v.applied_receipts[c.receipt_id@].same(&c),
    ensures
        v.apply_receipt(c, auth, mode, now) == Err::<(AccountView, ReceiptApplication), CreditError>(
            CreditError::ReceiptConflict,
        ),
{
}

/// A receipt is applied only inside its validity window: an `Applied`
/// receipt was issued no later than `now` and expires after it, is new, names
/// useful service for a positive amount, comes from the authenticated issuer
/// for this account's counterparty while the issuer's policy is active, and
/// advances the revision once. A new
/// receipt, under a valid identity and an active issuer and not yet expired,
/// that is dated after `now` is refused as not yet valid.
pub proof fn law_receipt_validity_window(
    v: AccountView,
    c: ServiceReceiptClaim,
    auth: Seq<char>,
    mode: AcceptanceMode,
    now: u64,
)
    ensures
        v.apply_receipt(c, auth, mode, now) is Ok && v.apply_receipt(c, auth, mode, now)->Ok_0.1
            == ReceiptApplication::Applied ==> {
            &&& c.issued_at_unix <= now < c.expires_at_unix
            &&& c.amount_sat > 0
            &&& c.useful_service_units > 0
            &&& !is_blank(c.service@) && !is_blank(c.resource@)
            &&& c.issuer@ == auth
            &&& c.counterparty@ == v.counterparty
            &&& !v.applied_receipts.contains_key(c.receipt_id@)
            &&& v.issuers[c.issuer@].spec_ensure_active(now) is Ok
            &&& v.apply_receipt(c, auth, mode, now)->Ok_0.0.revision == v.revision + 1
        },
        v.validate_receipt_identity(c, auth) is Ok && !v.applied_receipts.contains_key(c.receipt_id@)
            && v.issuers[c.issuer@].spec_ensure_active(now) is Ok && now < c.expires_at_unix && now
            < c.issued_at_unix ==> v.apply_receipt(c, auth, mode, now) == Err::<
            (AccountView, ReceiptApplication),
            CreditError,
        >(CreditError::ReceiptNotYetValid),
{
}

// ----- novation -----

/// Novation keeps every cap; it moves peer credit between two issuers without
/// changing the aggregate exposure or the sum of the two issuers'
/// outstanding credit; an applied novation advances the revision once.
pub proof fn law_novate_peer_credit(v: AccountView, n: CreditNovation, auth: Seq<char>, now: u64)
    requires
        v.inv(),
        v.novate_peer_credit(n, auth, now) is Ok,
    ensures
        ({
            let v1 = v.novate_peer_credit(n, auth, now)->Ok_0;
            &&& v1.inv()
            &&& v1.total_peer_credit_sat == v.total_peer_credit_sat
            &&& v1.issuers[n.from_issuer@].peer_credit.outstanding_sat
                + v1.issuers[n.to_issuer@].peer_credit.outstanding_sat
                == v.issuers[n.from_issuer@].peer_credit.outstanding_sat
                + v.issuers[n.to_issuer@].peer_credit.outstanding_sat
            &&& v1.same_withdrawable(v)
            &&& v1 == v || v1.revision == v.revision + 1
        }),
{
    let v1 = v.novate_peer_credit(n, auth, now)->Ok_0;
    assert(v1.issuers.dom() =~= v.issuers.dom());
    assert forall|k: Seq<char>| v1.issuers.contains_key(k) implies issuer_inv(#[trigger] v1.issuers[k]) by {
        assert(v.issuers.contains_key(k));
        assert(issuer_inv(v.issuers[k]));
    }
    assert forall|k: Seq<char>| v1.settlements.contains_key(k) implies settlement_record_ok(
        k,
        #[trigger] v1.settlements[k],
    ) by {
        if v.settlements.contains_key(k) {
            assert(settlement_record_ok(k, v.settlements[k]));
        }
    }
    if !v.novations.contains_key(n.novation_id@) {
        let f = n.from_issuer@;
        let t = n.to_issuer@;
        let mid = v.issuers.insert(f, v1.issuers[f]);
        lemma_map_total_insert(v.issuers, f, v1.issuers[f], outstanding_of());
        assert(v1.issuers =~= mid.insert(t, v1.issuers[t]));
        lemma_map_total_insert(mid, t, v1.issuers[t], outstanding_of());
    }
}

/// Replaying an applied novation, at any later time, changes nothing.
pub proof fn law_novate_peer_credit_replay(
    v: AccountView,
    n: CreditNovation,
    auth: Seq<char>,
    now: u64,
    later: u64,
)
    requires
        v.novate_peer_credit(n, auth, now) is Ok,
    ensures
        ({
            let v1 = v.novate_peer_credit(n, auth, now)->Ok_0;
            v1.novate_peer_credit(n, auth, later) == Ok::<AccountView, CreditError>(v1)
        }),
{
    let v1 = v.novate_peer_credit(n, auth, now)->Ok_0;
    assert(v1.issuers.contains_key(n.from_issuer@));
    assert(v1.issuers.contains_key(n.to_issuer@));
    assert(v1.novations.contains_key(n.novation_id@));
}

/// A new novation between two of the account's active issuers, for no more
/// than the source issuer owes, applies exactly when the receiving issuer
/// stays within its peer-credit cap; otherwise it is refused for that cap
/// (or for a `u64` overflow of the receiver's credit). Applied, it moves its
/// amount from one issuer's outstanding credit to the other's, leaves the
/// receiver's offline credit, the aggregate exposure, every closed-loop and
/// withdrawable ledger as they were, and advances the revision once; the
/// same novation later, even after it expired, changes nothing.
pub proof fn law_new_novation(v: AccountView, n: CreditNovation, auth: Seq<char>, now: u64, later: u64)
    requires
        v.inv(),
        v.validate_novation_identity(n, auth) is Ok,
        !v.novations.contains_key(n.novation_id@),
        v.validate_novation_terms(n, now) is Ok,
        n.amount_sat <= v.issuers[n.from_issuer@].peer_credit.outstanding_sat,
        v.revision < u64::MAX,
    ensures
        ({
            let from = v.issuers[n.from_issuer@].peer_credit;
            let to = v.issuers[n.to_issuer@];
            let r = v.novate_peer_credit(n, auth, now);
            &&& r is Ok <==> to.peer_credit.outstanding_sat + n.amount_sat <= to.policy.max_peer_credit_sat
            &&& r matches Err(e) ==> (e == CreditError::IssuerExposureExceeded || e
                == CreditError::ArithmeticOverflow)
            &&& r matches Ok(v1) ==> {
                &&& v1.issuers[n.from_issuer@].peer_credit.outstanding_sat == from.outstanding_sat
                    - n.amount_sat
                &&& v1.issuers[n.to_issuer@].peer_credit.outstanding_sat == to.peer_credit.outstanding_sat
                    + n.amount_sat
                &&& v1.issuers[n.to_issuer@].peer_credit.offline_outstanding_sat
                    == to.peer_credit.offline_outstanding_sat
                &&& v1.total_peer_credit_sat == v.total_peer_credit_sat
                &&& v1.same_closed_loop(v)
                &&& v1.same_withdrawable(v)
                &&& v1.revision == v.revision + 1
                &&& v1.novate_peer_credit(n, auth, later) == Ok::<AccountView, CreditError>(v1)
            }
        }),
{
    let r = v.novate_peer_credit(n, auth, now);
    if r is Ok {
        let v1 = r->Ok_0;
        assert(v1.issuers.dom() =~= v.issuers.dom());
        law_novate_peer_credit_replay(v, n, auth, now, later);
    }
}

// ----- backed settlement -----

/// Settling peer credit with backing keeps every cap and conservation; it
/// extinguishes exactly the settled peer credit, both for the issuer and in
/// aggregate, and an applied settlement advances the revision once.
pub proof fn law_settle_peer_credit_with_backing(
    v: AccountView,
    s: BackedCreditSettlement,
    auth: Seq<char>,
    now: u64,
)
    requires
        v.inv(),
        v.settle_peer_credit_with_backing(s, auth, now) is Ok,
    ensures
        ({
            let (v1, a) = v.settle_peer_credit_with_backing(s, auth, now)->Ok_0;
            &&& v1.inv()
            &&& a == ReceiptApplication::AlreadyApplied ==> v1 == v
            &&& a == ReceiptApplication::Applied ==> {
                &&& v1.revision == v.revision + 1
                &&& v1.total_peer_credit_sat == v.total_peer_credit_sat - s.amount_sat
                &&& v1.issuers[s.from_issuer@].peer_credit.outstanding_sat
                    == v.issuers[s.from_issuer@].peer_credit.outstanding_sat - s.amount_sat
            }
            &&& s.value_class == ValueClass::ClosedLoopDeposit ==> v1.same_withdrawable(v)
        }),
{
    let (v1, a) = v.settle_peer_credit_with_backing(s, auth, now)->Ok_0;
    assert(v1.issuers.dom() =~= v.issuers.dom());
    assert forall|k: Seq<char>| v1.issuers.contains_key(k) implies issuer_inv(#[trigger] v1.issuers[k]) by {
        assert(v.issuers.contains_key(k));
        assert(issuer_inv(v.issuers[k]));
    }
    assert forall|k: Seq<char>| v1.settlements.contains_key(k) implies settlement_record_ok(
        k,
        #[trigger] v1.settlements[k],
    ) by {
        if v.settlements.contains_key(k) {
            assert(settlement_record_ok(k, v.settlements[k]));
        }
    }
    if a == ReceiptApplication::Applied {
        let f = s.from_issuer@;
        let b = s.backing_issuer@;
        let mid = v.issuers.insert(f, v1.issuers[f]);
        lemma_map_total_insert(v.issuers, f, v1.issuers[f], outstanding_of());
        if b == f {
            assert(v1.issuers =~= mid);
        } else {
            assert(v1.issuers =~= mid.insert(b, v1.issuers[b]));
            lemma_map_total_insert(mid, b, v1.issuers[b], outstanding_of());
            assert(v1.issuers[b].peer_credit == v.issuers[b].peer_credit);
        }
    }
}

/// Replaying an applied backed settlement, at any later time, is answered
/// `AlreadyApplied` and changes nothing.
pub proof fn law_settle_peer_credit_with_backing_replay(
    v: AccountView,
    s: BackedCreditSettlement,
    auth: Seq<char>,
    now: u64,
    later: u64,
)
    requires
        v.settle_peer_credit_with_backing(s, auth, now) is Ok,
    ensures
        ({
            let v1 = v.settle_peer_credit_with_backing(s, auth, now)->Ok_0.0;
            v1.settle_peer_credit_with_backing(s, auth, later) == Ok::<
                (AccountView, ReceiptApplication),
                CreditError,
            >((v1, ReceiptApplication::AlreadyApplied))
        }),
{
    let v1 = v.settle_peer_credit_with_backing(s, auth, now)->Ok_0.0;
    assert(v1.issuers.contains_key(s.from_issuer@));
    assert(v1.issuers.contains_key(s.backing_issuer@));
    assert(v1.backed_settlements.contains_key(s.settlement_id@));
}

// ----- closed-loop consumption -----

/// Consuming closed-loop value keeps every cap and conservation, never
/// touches peer credit or the withdrawable reserve, and advances the revision
/// once when applied.
pub proof fn law_consume_closed_loop(v: AccountView, c: ClosedLoopConsumption, auth: Seq<char>)
    requires
        v.inv(),
        v.consume_closed_loop(c, auth) is Ok,
    ensures
        ({
            let (v1, a) = v.consume_closed_loop(c, auth)->Ok_0;
            &&& v1.inv()
            &&& a == ReceiptApplication::Applied ==> v1.revision == v.revision + 1
            &&& a == ReceiptApplication::AlreadyApplied ==> v1 == v
            &&& v1.same_peer_credit(v)
            &&& v1.same_withdrawable(v)
        }),
{
    let (v1, a) = v.consume_closed_loop(c, auth)->Ok_0;
    assert(v1.issuers.dom() =~= v.issuers.dom());
    assert forall|k: Seq<char>| v1.issuers.contains_key(k) implies issuer_inv(#[trigger] v1.issuers[k]) by {
        assert(v.issuers.contains_key(k));
        assert(issuer_inv(v.issuers[k]));
    }
    assert forall|k: Seq<char>| v1.settlements.contains_key(k) implies settlement_record_ok(
        k,
        #[trigger] v1.settlements[k],
    ) by {
        if v.settlements.contains_key(k) {
            assert(settlement_record_ok(k, v.settlements[k]));
        }
    }
    assert(v1.same_peer_credit(v));
    lemma_map_total_same(v.issuers, v1.issuers, outstanding_of());
}

/// Replaying an applied consumption is answered `AlreadyApplied` and changes
/// nothing.
pub proof fn law_consume_closed_loop_replay(v: AccountView, c: ClosedLoopConsumption, auth: Seq<char>)
    requires
        v.consume_closed_loop(c, auth) is Ok,
    ensures
        ({
            let v1 = v.consume_closed_loop(c, auth)->Ok_0.0;
            v1.consume_closed_loop(c, auth) == Ok::<(AccountView, ReceiptApplication), CreditError>(
                (v1, ReceiptApplication::AlreadyApplied),
            )
        }),
{
    let v1 = v.consume_closed_loop(c, auth)->Ok_0.0;
    assert(v1.issuers.contains_key(c.issuer@));
    assert(v1.closed_loop_consumptions.contains_key(c.consumption_id@));
}

/// A new consumption by the account's own counterparty, against one of its
/// issuers, is applied exactly when that issuer's claimable closed-loop value
/// covers it, and is otherwise refused as insufficient backing. Applied, it
/// moves its amount from claimable to consumed, leaves the deposited total,
/// the available backing, every peer-credit and withdrawable ledger as they
/// were, and advances the revision once; the same consumption later is
/// answered `AlreadyApplied` and changes nothing.
pub proof fn law_new_consumption(v: AccountView, c: ClosedLoopConsumption, auth: Seq<char>)
    requires
        v.inv(),
        v.validate_consumption(c, auth) is Ok,
        !v.closed_loop_consumptions.contains_key(c.consumption_id@),
        v.revision < u64::MAX,
    ensures
        ({
            let l = v.issuers[c.issuer@].closed_loop;
            let r = v.consume_closed_loop(c, auth);
            &&& r is Ok <==> c.amount_sat <= l.claimable_sat
            &&& r is Err ==> r == Err::<(AccountView, ReceiptApplication), CreditError>(
                CreditError::InsufficientClosedLoopBacking,
            )
            &&& r matches Ok((v1, a)) ==> {
                let l1 = v1.issuers[c.issuer@].closed_loop;
                &&& a == ReceiptApplication::Applied
                &&& l1.claimable_sat == l.claimable_sat - c.amount_sat
                &&& l1.consumed_sat == l.consumed_sat + c.amount_sat
                &&& l1.total_deposited_sat == l.total_deposited_sat
                &&& l1.available_backing_sat == l.available_backing_sat
                &&& v1.same_peer_credit(v)
                &&& v1.same_withdrawable(v)
                &&& v1.revision == v.revision + 1
                &&& v1.consume_closed_loop(c, auth) == Ok::<(AccountView, ReceiptApplication), CreditError>(
                    (v1, ReceiptApplication::AlreadyApplied),
                )
            }
        }),
{
    assert(issuer_inv(v.issuers[c.issuer@]));
    let r = v.consume_closed_loop(c, auth);
    if r is Ok {
        let v1 = r->Ok_0.0;
        assert(v1.issuers.dom() =~= v.issuers.dom());
        law_consume_closed_loop_replay(v, c, auth);
    }
}

// ----- external settlement -----

/// Authorizing an external settlement keeps every cap and conservation; it
/// only moves redeemable reserve to pending, never touching peer credit, and
/// advances the revision once for a new authorization.
pub proof fn law_authorize_external_settlement(
    v: AccountView,
    r: ExternalSettlementRequest,
    auth: Seq<char>,
    now: u64,
)
    requires
        v.inv(),
        v.authorize_external_settlement(r, auth, now) is Ok,
    ensures
        ({
            let (v1, a) = v.authorize_external_settlement(r, auth, now)->Ok_0;
            &&& v1.inv()
            &&& v1.same_peer_credit(v)
            &&& v1 == v || v1.revision == v.revision + 1
            &&& a.reserved_sat == r.amount_sat + r.max_fee_sat
            &&& a.payout_destination@ == r.payout_destination@
        }),
{
    let (v1, a) = v.authorize_external_settlement(r, auth, now)->Ok_0;
    assert(v1.issuers.dom() =~= v.issuers.dom());
    assert forall|k: Seq<char>| v1.issuers.contains_key(k) implies issuer_inv(#[trigger] v1.issuers[k]) by {
        assert(v.issuers.contains_key(k));
        assert(issuer_inv(v.issuers[k]));
    }
    assert forall|k: Seq<char>| v1.settlements.contains_key(k) implies settlement_record_ok(
        k,
        #[trigger] v1.settlements[k],
    ) by {
        if v.settlements.contains_key(k) {
            assert(settlement_record_ok(k, v.settlements[k]));
        }
    }
    if v.settlements.contains_key(r.settlement_id@) {
        assert(settlement_record_ok(r.settlement_id@, v.settlements[r.settlement_id@]));
    }
    assert(v1.same_peer_credit(v));
    lemma_map_total_same(v.issuers, v1.issuers, outstanding_of());
    if v1 != v {
        let id = r.settlement_id@;
        assert(!v.settlements.contains_key(id));
        assert(v1.settlements =~= v.settlements.insert(id, v1.settlements[id]));
        assert forall|j: Seq<char>| v1.issuers.contains_key(j) implies (
        #[trigger] v1.issuers[j]).withdrawable.pending_external_sat == map_total(
            v1.settlements,
            reserved_at(j),
        ) by {
            lemma_map_total_insert(v.settlements, id, v1.settlements[id], reserved_at(j));
            assert(v.issuers.contains_key(j));
        }
    }
}

/// Completing a pending settlement keeps every cap and conservation; it
/// settles principal plus the verified fee and returns only the unused fee
/// reservation to the redeemable reserve; peer credit is untouched.
pub proof fn law_complete_external_settlement(v: AccountView, id: Seq<char>, fee: u64)
    requires
        v.inv(),
        v.complete_external_settlement(id, fee) is Ok,
    ensures
        ({
            let v1 = v.complete_external_settlement(id, fee)->Ok_0;
            &&& v1.inv()
            &&& v1.same_peer_credit(v)
            &&& v1 == v || v1.revision == v.revision + 1
            &&& v1.settlements[id].state == (SettlementState::Completed { fee_sat: fee })
        }),
{
    let v1 = v.complete_external_settlement(id, fee)->Ok_0;
    assert(v1.issuers.dom() =~= v.issuers.dom());
    assert forall|k: Seq<char>| v1.issuers.contains_key(k) implies issuer_inv(#[trigger] v1.issuers[k]) by {
        assert(v.issuers.contains_key(k));
        assert(issuer_inv(v.issuers[k]));
    }
    assert forall|k: Seq<char>| v1.settlements.contains_key(k) implies settlement_record_ok(
        k,
        #[trigger] v1.settlements[k],
    ) by {
        assert(v.settlements.contains_key(k));
        assert(settlement_record_ok(k, v.settlements[k]));
    }
    assert(v1.same_peer_credit(v));
    lemma_map_total_same(v.issuers, v1.issuers, outstanding_of());
    if v1 != v {
        assert(settlement_record_ok(id, v.settlements[id]));
        assert(v1.settlements =~= v.settlements.insert(id, v1.settlements[id]));
        assert forall|j: Seq<char>| v1.issuers.contains_key(j) implies (
        #[trigger] v1.issuers[j]).withdrawable.pending_external_sat == map_total(
            v1.settlements,
            reserved_at(j),
        ) by {
            lemma_map_total_insert(v.settlements, id, v1.settlements[id], reserved_at(j));
            assert(v.issuers.contains_key(j));
        }
    }
}

/// Completing a completed settlement again with the same fee changes nothing.
pub proof fn law_complete_external_settlement_replay(v: AccountView, id: Seq<char>, fee: u64)
    requires
        v.complete_external_settlement(id, fee) is Ok,
    ensures
        ({
            let v1 = v.complete_external_settlement(id, fee)->Ok_0;
            v1.complete_external_settlement(id, fee) == Ok::<AccountView, CreditError>(v1)
        }),
{
}

/// Cancelling a pending settlement keeps every cap and conservation and
/// returns the whole reservation to the redeemable reserve.
pub proof fn law_cancel_external_settlement(v: AccountView, id: Seq<char>)
    requires
        v.inv(),
        v.cancel_external_settlement(id) is Ok,
    ensures
        ({
            let v1 = v.cancel_external_settlement(id)->Ok_0;
            &&& v1.inv()
            &&& v1.same_peer_credit(v)
            &&& v1 == v || v1.revision == v.revision + 1
            &&& v1.settlements[id].state == SettlementState::Cancelled
        }),
{
    let v1 = v.cancel_external_settlement(id)->Ok_0;
    assert(v1.issuers.dom() =~= v.issuers.dom());
    assert forall|k: Seq<char>| v1.issuers.contains_key(k) implies issuer_inv(#[trigger] v1.issuers[k]) by {
        assert(v.issuers.contains_key(k));
        assert(issuer_inv(v.issuers[k]));
    }
    assert forall|k: Seq<char>| v1.settlements.contains_key(k) implies settlement_record_ok(
        k,
        #[trigger] v1.settlements[k],
    ) by {
        assert(v.settlements.contains_key(k));
        assert(settlement_record_ok(k, v.settlements[k]));
    }
    assert(v1.same_peer_credit(v));
    lemma_map_total_same(v.issuers, v1.issuers, outstanding_of());
    if v1 != v {
        assert(settlement_record_ok(id, v.settlements[id]));
        assert(v1.settlements =~= v.settlements.insert(id, v1.settlements[id]));
        assert forall|j: Seq<char>| v1.issuers.contains_key(j) implies (
        #[trigger] v1.issuers[j]).withdrawable.pending_external_sat == map_total(
            v1.settlements,
            reserved_at(j),
        ) by {
            lemma_map_total_insert(v.settlements, id, v1.settlements[id], reserved_at(j));
            assert(v.issuers.contains_key(j));
        }
    }
}

/// Cancelling a cancelled settlement again changes nothing.
pub proof fn law_cancel_external_settlement_replay(v: AccountView, id: Seq<char>)
    requires
        v.cancel_external_settlement(id) is Ok,
    ensures
        ({
            let v1 = v.cancel_external_settlement(id)->Ok_0;
            v1.cancel_external_settlement(id) == Ok::<AccountView, CreditError>(v1)
        }),
{
}

/// Authorizing the same request again, at any later time, returns the same
/// authorization and changes nothing while the settlement is pending.
pub proof fn law_authorize_external_settlement_replay(
    v: AccountView,
    r: ExternalSettlementRequest,
    auth: Seq<char>,
    now: u64,
    later: u64,
)
    requires
        v.authorize_external_settlement(r, auth, now) is Ok,
    ensures
        ({
            let (v1, a) = v.authorize_external_settlement(r, auth, now)->Ok_0;
            v1.authorize_external_settlement(r, auth, later) == Ok::<
                (AccountView, crate::protocol::ExternalSettlementAuthorization),
                CreditError,
            >((v1, a))
        }),
{
    let v1 = v.authorize_external_settlement(r, auth, now)->Ok_0.0;
    assert(v1.issuers.contains_key(r.issuer@));
    assert(v1.settlements.contains_key(r.settlement_id@));
}

/// A new, valid settlement request of an account is authorized exactly when
/// the issuer's redeemable reserve covers its principal plus fee ceiling,
/// and is otherwise refused for that reserve. Authorized, the reservation
/// moves from redeemable to pending before any payment is attempted, the
/// authorization binds the request's destination, principal, fee ceiling and
/// expiry, nothing else moves, and the revision advances once; the same
/// request later is answered with the same authorization and changes
/// nothing.
pub proof fn law_new_authorization(
    v: AccountView,
    r: ExternalSettlementRequest,
    auth: Seq<char>,
    now: u64,
    later: u64,
)
    requires
        v.inv(),
        v.validate_settlement_identity(r, auth) is Ok,
        !v.settlements.contains_key(r.settlement_id@),
        v.validate_settlement_terms(r, now) is Ok,
        v.revision < u64::MAX,
        r.amount_sat + r.max_fee_sat <= u64::MAX,
    ensures
        ({
            let w0 = v.issuers[r.issuer@].withdrawable;
            let reserved = r.amount_sat + r.max_fee_sat;
            let res = v.authorize_external_settlement(r, auth, now);
            &&& res is Ok <==> reserved <= w0.redeemable_sat
            &&& res is Err ==> res == Err::<(AccountView, ExternalSettlementAuthorization), CreditError>(
                CreditError::InsufficientRedeemableReserve,
            )
            &&& res matches Ok((v1, a)) ==> {
                let w1 = v1.issuers[r.issuer@].withdrawable;
                &&& a == AccountView::authorization_for(r, now)
                &&& w1.redeemable_sat == w0.redeemable_sat - reserved
                &&& w1.pending_external_sat == w0.pending_external_sat + reserved
                &&& w1.available_sat == w0.available_sat
                &&& w1.settled_external_sat == w0.settled_external_sat
                &&& w1.total_deposited_sat == w0.total_deposited_sat
                &&& v1.same_peer_credit(v)
                &&& v1.same_closed_loop(v)
                &&& v1.revision == v.revision + 1
                &&& v1.settlements[r.settlement_id@].state == SettlementState::Pending
                &&& v1.authorize_external_settlement(r, auth, later) == Ok::<
                    (AccountView, ExternalSettlementAuthorization),
                    CreditError,
                >((v1, a))
            }
        }),
{
    assert(issuer_inv(v.issuers[r.issuer@]));
    let res = v.authorize_external_settlement(r, auth, now);
    if res is Ok {
        let v1 = res->Ok_0.0;
        assert(v1.issuers.dom() =~= v.issuers.dom());
        assert(v1.settlements.contains_key(r.settlement_id@));
    }
}

/// A pending settlement of an account completes whenever the verified fee is
/// within the fee it reserved, and is otherwise refused for the fee. On
/// completion the issuer's pending reserve drops by the whole reservation,
/// its settled total grows by the amount and the actual fee, the unused fee
/// returns to the redeemable reserve, nothing else moves, and the revision
/// advances once. Afterwards the same completion changes nothing, another
/// fee is a conflict, and cancelling or authorizing the request again is
/// refused as already completed.
pub proof fn law_pending_settlement_completes(
    v: AccountView,
    id: Seq<char>,
    fee: u64,
    other_fee: u64,
    auth: Seq<char>,
    later: u64,
)
    requires
        v.inv(),
        v.settlements.contains_key(id),
        v.settlements[id].state == SettlementState::Pending,
        v.revision < u64::MAX,
    ensures
        ({
            let rec = v.settlements[id];
            let i = rec.request.issuer@;
            let w0 = v.issuers[i].withdrawable;
            let amount = rec.request.amount_sat;
            let max_fee = rec.request.max_fee_sat;
            let r = v.complete_external_settlement(id, fee);
            &&& fee > max_fee ==> r == Err::<AccountView, CreditError>(CreditError::SettlementFeeExceeded)
            &&& fee <= max_fee ==> (r matches Ok(v1) && {
                let w1 = v1.issuers[i].withdrawable;
                &&& w1.pending_external_sat == w0.pending_external_sat - amount - max_fee
                &&& w1.settled_external_sat == w0.settled_external_sat + amount + fee
                &&& w1.redeemable_sat == w0.redeemable_sat + max_fee - fee
                &&& w1.available_sat == w0.available_sat
                &&& w1.total_deposited_sat == w0.total_deposited_sat
                &&& v1.same_peer_credit(v)
                &&& v1.same_closed_loop(v)
                &&& v1.revision == v.revision + 1
                &&& v1.settlements[id].state == (SettlementState::Completed { fee_sat: fee })
                &&& v1.complete_external_settlement(id, fee) == Ok::<AccountView, CreditError>(v1)
                &&& other_fee != fee ==> v1.complete_external_settlement(id, other_fee) == Err::<
                    AccountView,
                    CreditError,
                >(CreditError::SettlementCompletionConflict)
                &&& v1.cancel_external_settlement(id) == Err::<AccountView, CreditError>(
                    CreditError::SettlementCompleted,
                )
                &&& v1.validate_settlement_identity(rec.request, auth) is Ok
                    ==> v1.authorize_external_settlement(rec.request, auth, later) == Err::<
                    (AccountView, ExternalSettlementAuthorization),
                    CreditError,
                >(CreditError::SettlementCompleted)
            })
        }),
{
    let rec = v.settlements[id];
    let i = rec.request.issuer@;
    assert(v.issuers.contains_key(i));
    assert(issuer_inv(v.issuers[i]));
    assert(settlement_record_ok(id, rec));
    assert forall|j: Seq<char>| v.settlements.contains_key(j) implies reserved_at(i)(
        #[trigger] v.settlements[j],
    ) >= 0 by {}
    lemma_map_total_part(v.settlements, id, reserved_at(i));
    let r = v.complete_external_settlement(id, fee);
    if fee <= rec.request.max_fee_sat {
        let v1 = r->Ok_0;
        assert(v1.issuers.dom() =~= v.issuers.dom());
        assert(v1.settlements[id].request == rec.request);
    }
}

/// A pending settlement of an account can always be cancelled: the issuer's
/// pending reserve gives the whole reservation back to the redeemable
/// reserve, nothing else moves, and the revision advances once. Afterwards
/// cancelling again changes nothing, and completing it or authorizing the
/// request again is refused as cancelled.
pub proof fn law_pending_settlement_cancels(v: AccountView, id: Seq<char>, fee: u64, auth: Seq<char>, later: u64)
    requires
        v.inv(),
        v.settlements.contains_key(id),
        v.settlements[id].state == SettlementState::Pending,
        v.revision < u64::MAX,
    ensures
        ({
            let rec = v.settlements[id];
            let i = rec.request.issuer@;
            let w0 = v.issuers[i].withdrawable;
            let reserved = rec.request.amount_sat + rec.request.max_fee_sat;
            v.cancel_external_settlement(id) matches Ok(v1) && {
                let w1 = v1.issuers[i].withdrawable;
                &&& w1.pending_external_sat == w0.pending_external_sat - reserved
                &&& w1.redeemable_sat == w0.redeemable_sat + reserved
                &&& w1.available_sat == w0.available_sat
                &&& w1.settled_external_sat == w0.settled_external_sat
                &&& w1.total_deposited_sat == w0.total_deposited_sat
                &&& v1.same_peer_credit(v)
                &&& v1.same_closed_loop(v)
                &&& v1.revision == v.revision + 1
                &&& v1.cancel_external_settlement(id) == Ok::<AccountView, CreditError>(v1)
                &&& v1.complete_external_settlement(id, fee) == Err::<AccountView, CreditError>(
                    CreditError::SettlementCancelled,
                )
                &&& v1.validate_settlement_identity(rec.request, auth) is Ok
                    ==> v1.authorize_external_settlement(rec.request, auth, later) == Err::<
                    (AccountView, ExternalSettlementAuthorization),
                    CreditError,
                >(CreditError::SettlementCancelled)
            }
        }),
{
    let rec = v.settlements[id];
    let i = rec.request.issuer@;
    assert(v.issuers.contains_key(i));
    assert(issuer_inv(v.issuers[i]));
    assert(settlement_record_ok(id, rec));
    assert forall|j: Seq<char>| v.settlements.contains_key(j) implies reserved_at(i)(
        #[trigger] v.settlements[j],
    ) >= 0 by {}
    lemma_map_total_part(v.settlements, id, reserved_at(i));
    let v1 = v.cancel_external_settlement(id)->Ok_0;
    assert(v1.issuers.dom() =~= v.issuers.dom());
    assert(v1.settlements[id].request == rec.request);
}

/// Authorizing a new settlement and then cancelling it gives the issuer its
/// withdrawable reserve back exactly as it was, two revisions later.
pub proof fn law_authorize_then_cancel_restores_reserve(
    v: AccountView,
    r: ExternalSettlementRequest,
    auth: Seq<char>,
    now: u64,
)
    requires
        v.inv(),
        !v.settlements.contains_key(r.settlement_id@),
        v.authorize_external_settlement(r, auth, now) is Ok,
        v.revision < u64::MAX - 1,
    ensures
        ({
            let v1 = v.authorize_external_settlement(r, auth, now)->Ok_0.0;
            v1.cancel_external_settlement(r.settlement_id@) matches Ok(v2) && {
                &&& v2.issuers[r.issuer@].withdrawable == v.issuers[r.issuer@].withdrawable
                &&& v2.revision == v.revision + 2
                &&& v2.settlements[r.settlement_id@].state == SettlementState::Cancelled
            }
        }),
{
    let v1 = v.authorize_external_settlement(r, auth, now)->Ok_0.0;
    law_authorize_external_settlement(v, r, auth, now);
    assert(v1.settlements.contains_key(r.settlement_id@));
    law_pending_settlement_cancels(v1, r.settlement_id@, 0, auth, now);
}

// ----- reuse of an operation id with changed contents -----

/// A deposit id reused with different contents is refused.
pub proof fn law_record_backing_deposit_conflict(v: AccountView, d: BackingDeposit, auth: Seq<char>)
    requires
        v.validate_backing_deposit(d, auth) is Ok,
        v.backing_deposits.contains_key((d.issuer@, d.deposit_id@)),
        !v.backing_deposits[(d.issuer@, d.deposit_id@)].same(&d),
    ensures
        v.record_backing_deposit(d, auth) == Err::<(AccountView, ReceiptApplication), CreditError>(
            CreditError::DepositConflict,
        ),
{
}

/// A novation id reused with different contents is refused.
pub proof fn law_novate_peer_credit_conflict(v: AccountView, n: CreditNovation, auth: Seq<char>, now: u64)
    requires
        v.validate_novation_identity(n, auth) is Ok,
        v.novations.contains_key(n.novation_id@),
        !v.novations[n.novation_id@].same(&n),
    ensures
        v.novate_peer_credit(n, auth, now) == Err::<AccountView, CreditError>(CreditError::NovationConflict),
{
}

/// A backed-settlement id reused with different contents is refused.
pub proof fn law_settle_peer_credit_with_backing_conflict(
    v: AccountView,
    b: BackedCreditSettlement,
    auth: Seq<char>,
    now: u64,
)
    requires
        v.validate_backed_identity(b, auth) is Ok,
        v.backed_settlements.contains_key(b.settlement_id@),
        !v.backed_settlements[b.settlement_id@].same(&b),
    ensures
        v.settle_peer_credit_with_backing(b, auth, now) == Err::<
            (AccountView, ReceiptApplication),
            CreditError,
        >(CreditError::BackedSettlementConflict),
{
}

/// A consumption id reused with different contents is refused.
pub proof fn law_consume_closed_loop_conflict(v: AccountView, c: ClosedLoopConsumption, auth: Seq<char>)
    requires
        v.validate_consumption(c, auth) is Ok,
        v.closed_loop_consumptions.contains_key(c.consumption_id@),
        !v.closed_loop_consumptions[c.consumption_id@].same(&c),
    ensures
        v.consume_closed_loop(c, auth) == Err::<(AccountView, ReceiptApplication), CreditError>(
            CreditError::ClosedLoopConsumptionConflict,
        ),
{
}

/// A settlement id reused with a different request is refused.
pub proof fn law_authorize_external_settlement_conflict(
    v: AccountView,
    r: ExternalSettlementRequest,
    auth: Seq<char>,
    now: u64,
)
    requires
        v.validate_settlement_identity(r, auth) is Ok,
        v.settlements.contains_key(r.settlement_id@),
        !v.settlements[r.settlement_id@].request.same(&r),
    ensures
        v.authorize_external_settlement(r, auth, now) == Err::<
            (AccountView, ExternalSettlementAuthorization),
            CreditError,
        >(CreditError::SettlementConflict),
{
}

/// A completed settlement completed again with another fee is refused.
pub proof fn law_complete_external_settlement_conflict(v: AccountView, id: Seq<char>, fee: u64)
    requires
        v.settlements.contains_key(id),
        v.settlements[id].state matches SettlementState::Completed { fee_sat } && fee_sat != fee,
    ensures
        v.complete_external_settlement(id, fee) == Err::<AccountView, CreditError>(
            CreditError::SettlementCompletionConflict,
        ),
{
}

// ----- accounts reached through any sequence of calls -----

/// One public call on an account, with its arguments.
pub enum AccountCall {
    RecordBackingDeposit(BackingDeposit, Seq<char>),
    ApplyReceipt(ServiceReceiptClaim, Seq<char>, AcceptanceMode, u64),
    NovatePeerCredit(CreditNovation, Seq<char>, u64),
    SettlePeerCreditWithBacking(BackedCreditSettlement, Seq<char>, u64),
    ConsumeClosedLoop(ClosedLoopConsumption, Seq<char>),
    AuthorizeExternalSettlement(ExternalSettlementRequest, Seq<char>, u64),
    CompleteExternalSettlement(Seq<char>, u64),
    CancelExternalSettlement(Seq<char>),
}

/// The account after one call: the call's new account when it succeeds, the
/// same account when it is refused.
pub open spec fn after_call(v: AccountView, c: AccountCall) -> AccountView {
    match c {
        AccountCall::RecordBackingDeposit(d, auth) => match v.record_backing_deposit(d, auth) {
            Ok((v1, _)) => v1,
            Err(_) => v,
        },
        AccountCall::ApplyReceipt(r, auth, mode, now) => match v.apply_receipt(r, auth, mode, now) {
            Ok((v1, _)) => v1,
            Err(_) => v,
        },
        AccountCall::NovatePeerCredit(n, auth, now) => match v.novate_peer_credit(n, auth, now) {
            Ok(v1) => v1,
            Err(_) => v,
        },
        AccountCall::SettlePeerCreditWithBacking(b, auth, now) => match v.settle_peer_credit_with_backing(
            b,
            auth,
            now,
        ) {
            Ok((v1, _)) => v1,
            Err(_) => v,
        },
        AccountCall::ConsumeClosedLoop(k, auth) => match v.consume_closed_loop(k, auth) {
            Ok((v1, _)) => v1,
            Err(_) => v,
        },
        AccountCall::AuthorizeExternalSettlement(r, auth, now) => match v.authorize_external_settlement(
            r,
            auth,
            now,
        ) {
            Ok((v1, _)) => v1,
            Err(_) => v,
        },
        AccountCall::CompleteExternalSettlement(id, fee) => match v.complete_external_settlement(id, fee) {
            Ok(v1) => v1,
            Err(_) => v,
        },
        AccountCall::CancelExternalSettlement(id) => match v.cancel_external_settlement(id) {
            Ok(v1) => v1,
            Err(_) => v,
        },
    }
}

/// The account after a sequence of calls.
pub open spec fn after_calls(v: AccountView, calls: Seq<AccountCall>) -> AccountView
    decreases calls.len(),
{
    if calls.len() == 0 {
        v
    } else {
        after_call(after_calls(v, calls.drop_last()), calls.last())
    }
}

/// One call keeps every cap, the conservation of every reserve, the
/// aggregate peer credit equal to the issuers' outstanding credit, the binding
/// of every stored settlement to its id and authorization, and every recorded
/// deposit's issuer among the account's issuers.
pub proof fn law_call_keeps_invariant(v: AccountView, c: AccountCall)
    requires
        v.inv(),
    ensures
        after_call(v, c).inv(),
{
    match c {
        AccountCall::RecordBackingDeposit(d, auth) => {
            if v.record_backing_deposit(d, auth) is Ok {
                law_record_backing_deposit(v, d, auth);
            }
        },
        AccountCall::ApplyReceipt(r, auth, mode, now) => {
            if v.apply_receipt(r, auth, mode, now) is Ok {
                law_apply_receipt(v, r, auth, mode, now);
            }
        },
        AccountCall::NovatePeerCredit(n, auth, now) => {
            if v.novate_peer_credit(n, auth, now) is Ok {
                law_novate_peer_credit(v, n, auth, now);
            }
        },
        AccountCall::SettlePeerCreditWithBacking(b, auth, now) => {
            if v.settle_peer_credit_with_backing(b, auth, now) is Ok {
                law_settle_peer_credit_with_backing(v, b, auth, now);
            }
        },
        AccountCall::ConsumeClosedLoop(k, auth) => {
            if v.consume_closed_loop(k, auth) is Ok {
                law_consume_closed_loop(v, k, auth);
            }
        },
        AccountCall::AuthorizeExternalSettlement(r, auth, now) => {
            if v.authorize_external_settlement(r, auth, now) is Ok {
                law_authorize_external_settlement(v, r, auth, now);
            }
        },
        AccountCall::CompleteExternalSettlement(id, fee) => {
            if v.complete_external_settlement(id, fee) is Ok {
                law_complete_external_settlement(v, id, fee);
            }
        },
        AccountCall::CancelExternalSettlement(id) => {
            if v.cancel_external_settlement(id) is Ok {
                law_cancel_external_settlement(v, id);
            }
        },
    }
}

/// Any sequence of public calls on an account inside its invariant (every
/// account `CreditAccount::new` or `CreditAccount::from_snapshot` gives)
/// leaves it inside its invariant.
pub proof fn law_calls_keep_invariant(v: AccountView, calls: Seq<AccountCall>)
    requires
        v.inv(),
    ensures
        after_calls(v, calls).inv(),
    decreases calls.len(),
{
    if calls.len() > 0 {
        law_calls_keep_invariant(v, calls.drop_last());
        law_call_keeps_invariant(after_calls(v, calls.drop_last()), calls.last());
    }
}

/// Every account opened with `CreditAccount::new` and then driven by any
/// sequence of public calls stays inside every cap: each issuer's offline
/// credit within its outstanding credit, its outstanding credit within the
/// issuer cap, its offline credit within the offline cap, its closed-loop and
/// withdrawable reserves conserved and within their caps; the aggregate peer
/// credit equal to the sum of the issuers' outstanding credit and within the
/// account cap; every stored settlement kept under its own id and bound to
/// the authorization its request was granted; and every recorded deposit
/// held for one of the account's issuers.
pub proof fn law_reachable_accounts_keep_invariant(
    counterparty: Seq<char>,
    max_total_peer_credit_sat: u64,
    issuers: Seq<IssuerPolicy>,
    calls: Seq<AccountCall>,
)
    requires
        spec_new_account(counterparty, max_total_peer_credit_sat, issuers) is Ok,
    ensures
        after_calls(spec_new_account(counterparty, max_total_peer_credit_sat, issuers)->Ok_0, calls).inv(),
{
    law_new_account_invariant(counterparty, max_total_peer_credit_sat, issuers);
    law_calls_keep_invariant(
        spec_new_account(counterparty, max_total_peer_credit_sat, issuers)->Ok_0,
        calls,
    );
}

/// One call either leaves the account exactly as it was (a refusal or a
/// replay) or applies one mutation and advances the revision by one.
pub proof fn law_call_revision(v: AccountView, c: AccountCall)
    ensures
        after_call(v, c) == v || after_call(v, c).revision == v.revision + 1,
{
}

/// How many calls of a sequence changed the account they were applied to.
pub open spec fn changing_calls(v: AccountView, calls: Seq<AccountCall>) -> nat
    decreases calls.len(),
{
    if calls.len() == 0 {
        0
    } else {
        let before = after_calls(v, calls.drop_last());
        changing_calls(v, calls.drop_last()) + if after_call(before, calls.last()) == before {
            0nat
        } else {
            1nat
        }
    }
}

/// After any sequence of calls the revision has advanced by exactly the
/// number of calls that changed the account: replays and refusals leave it
/// where it was.
pub proof fn law_revision_counts_changes(v: AccountView, calls: Seq<AccountCall>)
    ensures
        after_calls(v, calls).revision == v.revision + changing_calls(v, calls),
    decreases calls.len(),
{
    if calls.len() > 0 {
        law_revision_counts_changes(v, calls.drop_last());
        law_call_revision(after_calls(v, calls.drop_last()), calls.last());
    }
}

} // verus!
