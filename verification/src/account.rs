//! The counterparty-local credit account: construction and read access.
use vstd::prelude::*;
use crate::error::CreditError;
use crate::laws::{law_new_account_invariant, settlement_record_ok};
use crate::idmap::{lemma_pairs_map_keys, pairs_map, sorted_keys, IdMap};
use crate::ledger::{ClosedLoopLedger, PeerCreditLedger, WithdrawableReserveLedger};
use crate::deposits::{deposits_map, sorted_deposits, DepositTable};
use crate::model::{
    issuers_from_policies, spec_new_account, AccountView, IssuerState,
    PeerCreditEvent, SettlementRecord, SettlementState,
};
use crate::protocol::{
    AccountPolicy, BackedCreditSettlement, BackingDeposit, ClosedLoopConsumption, CreditNovation,
    ExternalSettlementAuthorization, IssuerPolicy, ServiceReceiptClaim,
};
use crate::text::{is_blank, is_blank_text, text_lt};

verus! {

/// Counterparty-local accounting across a bounded set of trusted issuers.
#[derive(Debug, PartialEq, Eq)]
pub struct CreditAccount {
    pub(crate) revision: u64,
    pub(crate) counterparty: String,
    pub(crate) max_total_peer_credit_sat: u64,
    pub(crate) total_peer_credit_sat: u64,
    pub(crate) issuers: IdMap<IssuerState>,
    pub(crate) applied_receipts: IdMap<ServiceReceiptClaim>,
    pub(crate) peer_credit_events: Vec<PeerCreditEvent>,
    pub(crate) novations: IdMap<CreditNovation>,
    pub(crate) backing_deposits: DepositTable,
    pub(crate) backed_settlements: IdMap<BackedCreditSettlement>,
    pub(crate) closed_loop_consumptions: IdMap<ClosedLoopConsumption>,
    pub(crate) settlements: IdMap<SettlementRecord>,
}

/// The pending authorizations among settlement records, in key order.
pub open spec fn pending_authorizations(p: Seq<(Seq<char>, SettlementRecord)>) -> Seq<
    ExternalSettlementAuthorization,
>
    decreases p.len(),
{
    if p.len() == 0 {
        Seq::empty()
    } else {
        let rest = pending_authorizations(p.drop_last());
        if p.last().1.state == SettlementState::Pending {
            rest.push(p.last().1.authorization)
        } else {
            rest
        }
    }
}

/// Settlement ids strictly increasing in text order.
pub open spec fn ids_increasing(v: Seq<ExternalSettlementAuthorization>) -> bool {
    forall|a: int, b: int|
        0 <= a < b < v.len() ==> text_lt(#[trigger] v[a].settlement_id@, #[trigger] v[b].settlement_id@)
}

/// Records stored under their authorizations' ids, in key order, give their
/// pending authorizations in increasing id order, each under one of the keys.
proof fn lemma_pending_increasing(p: Seq<(Seq<char>, SettlementRecord)>)
    requires
        sorted_keys(p),
        forall|i: int| 0 <= i < p.len() ==> (#[trigger] p[i]).1.authorization.settlement_id@ == p[i].0,
    ensures
        ids_increasing(pending_authorizations(p)),
        forall|a: int|
            0 <= a < pending_authorizations(p).len() ==> exists|i: int|
                0 <= i < p.len() && (#[trigger] pending_authorizations(p)[a]).settlement_id@ == p[i].0,
    decreases p.len(),
{
    if p.len() > 0 {
        let q = p.drop_last();
        assert forall|i: int| 0 <= i < q.len() implies (#[trigger] q[i]).1.authorization.settlement_id@
            == q[i].0 by {
            assert(q[i] == p[i]);
        }
        lemma_pending_increasing(q);
        let rest = pending_authorizations(q);
        let last = p.len() - 1;
        assert forall|a: int| 0 <= a < rest.len() implies text_lt(
            (#[trigger] rest[a]).settlement_id@,
            p[last].0,
        ) by {
            let i = choose|i: int| 0 <= i < q.len() && rest[a].settlement_id@ == q[i].0;
            assert(q[i] == p[i]);
            assert(text_lt(p[i].0, p[last].0));
        }
        if p.last().1.state == SettlementState::Pending {
            let out = rest.push(p.last().1.authorization);
            assert(out[rest.len() as int].settlement_id@ == p[last].0);
            assert forall|a: int| 0 <= a < out.len() implies exists|i: int|
                0 <= i < p.len() && (#[trigger] out[a]).settlement_id@ == p[i].0 by {
                if a < rest.len() {
                    assert(out[a] == rest[a]);
                    let i = choose|i: int| 0 <= i < q.len() && rest[a].settlement_id@ == q[i].0;
                    assert(q[i] == p[i]);
                } else {
                    assert(out[a].settlement_id@ == p[last].0);
                }
            }
            assert forall|a: int, b: int| 0 <= a < b < out.len() implies text_lt(
                #[trigger] out[a].settlement_id@,
                #[trigger] out[b].settlement_id@,
            ) by {
                assert(out[a] == rest[a]);
                if b < rest.len() {
                    assert(out[b] == rest[b]);
                }
            }
        } else {
            assert forall|a: int| 0 <= a < rest.len() implies exists|i: int|
                0 <= i < p.len() && (#[trigger] rest[a]).settlement_id@ == p[i].0 by {
                let i = choose|i: int| 0 <= i < q.len() && rest[a].settlement_id@ == q[i].0;
                assert(q[i] == p[i]);
            }
        }
    }
}

impl CreditAccount {
    pub closed spec fn view(&self) -> AccountView {
        AccountView {
            revision: self.revision,
            counterparty: self.counterparty@,
            max_total_peer_credit_sat: self.max_total_peer_credit_sat,
            total_peer_credit_sat: self.total_peer_credit_sat,
            issuers: self.issuers@,
            applied_receipts: self.applied_receipts@,
            peer_credit_events: self.peer_credit_events@,
            novations: self.novations@,
            backing_deposits: self.backing_deposits@,
            backed_settlements: self.backed_settlements@,
            closed_loop_consumptions: self.closed_loop_consumptions@,
            settlements: self.settlements@,
        }
    }

    pub(crate) proof fn lemma_view(&self)
        ensures
            self@ == (AccountView {
                revision: self.revision,
                counterparty: self.counterparty@,
                max_total_peer_credit_sat: self.max_total_peer_credit_sat,
                total_peer_credit_sat: self.total_peer_credit_sat,
                issuers: self.issuers@,
                applied_receipts: self.applied_receipts@,
                peer_credit_events: self.peer_credit_events@,
                novations: self.novations@,
                backing_deposits: self.backing_deposits@,
                backed_settlements: self.backed_settlements@,
                closed_loop_consumptions: self.closed_loop_consumptions@,
                settlements: self.settlements@,
            }),
            self.settlement_pairs() == self.settlements.pairs(),
            self.deposit_items() == self.backing_deposits.items(),
            self.issuer_pairs() == self.issuers.pairs(),
            self.receipt_pairs() == self.applied_receipts.pairs(),
            self.novation_pairs() == self.novations.pairs(),
            self.backed_pairs() == self.backed_settlements.pairs(),
            self.consumption_pairs() == self.closed_loop_consumptions.pairs(),
    {
    }

    /// The issuer states in issuer order.
    pub closed spec fn issuer_pairs(&self) -> Seq<(Seq<char>, IssuerState)> {
        self.issuers.pairs()
    }

    pub closed spec fn receipt_pairs(&self) -> Seq<(Seq<char>, ServiceReceiptClaim)> {
        self.applied_receipts.pairs()
    }

    pub closed spec fn novation_pairs(&self) -> Seq<(Seq<char>, CreditNovation)> {
        self.novations.pairs()
    }

    pub closed spec fn backed_pairs(&self) -> Seq<(Seq<char>, BackedCreditSettlement)> {
        self.backed_settlements.pairs()
    }

    pub closed spec fn consumption_pairs(&self) -> Seq<(Seq<char>, ClosedLoopConsumption)> {
        self.closed_loop_consumptions.pairs()
    }

    /// The settlement records in settlement-id order.
    pub closed spec fn settlement_pairs(&self) -> Seq<(Seq<char>, SettlementRecord)> {
        self.settlements.pairs()
    }

    /// The backing deposits in (issuer, deposit id) order.
    pub closed spec fn deposit_items(&self) -> Seq<BackingDeposit> {
        self.backing_deposits.items()
    }

    pub fn new(policy: AccountPolicy) -> (r: Result<Self, CreditError>)
        ensures
            match spec_new_account(
                policy.counterparty@,
                policy.max_total_peer_credit_sat,
                policy.issuers@,
            ) {
                Ok(v) => r matches Ok(a) && a@ == v,
                Err(e) => r == Err::<Self, CreditError>(e),
            },
            r matches Ok(a) ==> a@.inv(),
    {
        if is_blank_text(policy.counterparty.as_str()) {
            return Err(CreditError::InvalidPolicy);
        }
        if policy.issuers.len() == 0 {
            return Err(CreditError::NoIssuers);
        }
        let ghost all = policy.issuers@;
        let mut issuers: IdMap<IssuerState> = IdMap::new();
        let mut i: usize = 0;
        let n = policy.issuers.len();
        while i < n
            invariant
                n == all.len(),
                n > 0,
                !is_blank(policy.counterparty@),
                policy.issuers@ == all,
                i <= n,
                issuers_from_policies(all.take(i as int)) == Ok::<
                    Map<Seq<char>, IssuerState>,
                    CreditError,
                >(issuers@),
            decreases n - i,
        {
            assert(all.take(i + 1).drop_last() =~= all.take(i as int));
            let p = &policy.issuers[i];
            if is_blank_text(p.issuer.as_str()) || p.max_offline_peer_credit_sat
                > p.max_peer_credit_sat {
                proof {
                    lemma_policy_error_persists(all, i as int + 1, CreditError::InvalidPolicy);
                }
                return Err(CreditError::InvalidPolicy);
            }
            let id = p.issuer.clone();
            let state = IssuerState {
                policy: p.clone(),
                peer_credit: PeerCreditLedger::default(),
                closed_loop: ClosedLoopLedger::default(),
                withdrawable: WithdrawableReserveLedger::default(),
            };
            let ghost before = issuers@;
            assert(all.take(i + 1).last() == all[i as int]);
            if issuers.insert(id, state) {
                proof {
                    assert(before.contains_key(all[i as int].issuer@));
                    lemma_policy_error_persists(all, i as int + 1, CreditError::DuplicateIssuer);
                }
                return Err(CreditError::DuplicateIssuer);
            }
            i = i + 1;
        }
        assert(all.take(n as int) =~= all);
        let account = CreditAccount {
            revision: 0,
            counterparty: policy.counterparty,
            max_total_peer_credit_sat: policy.max_total_peer_credit_sat,
            total_peer_credit_sat: 0,
            issuers,
            applied_receipts: IdMap::new(),
            peer_credit_events: Vec::new(),
            novations: IdMap::new(),
            backing_deposits: DepositTable::new(),
            backed_settlements: IdMap::new(),
            closed_loop_consumptions: IdMap::new(),
            settlements: IdMap::new(),
        };
        proof {
            law_new_account_invariant(
                policy.counterparty@,
                policy.max_total_peer_credit_sat,
                policy.issuers@,
            );
        }
        Ok(account)
    }

    pub fn counterparty(&self) -> (r: &str)
        ensures
            r@ == self@.counterparty,
    {
        self.counterparty.as_str()
    }

    /// Monotonic state revision. Each newly applied mutation advances it once.
    pub fn revision(&self) -> (r: u64)
        ensures
            r == self@.revision,
    {
        self.revision
    }

    pub fn total_peer_credit_sat(&self) -> (r: u64)
        ensures
            r == self@.total_peer_credit_sat,
    {
        self.total_peer_credit_sat
    }

    /// Position of a trusted issuer in the issuer table.
    pub(crate) fn issuer_pos(&self, issuer: &str) -> (r: Result<usize, CreditError>)
        ensures
            match r {
                Ok(i) => self@.issuers.contains_key(issuer@) && i < self.issuers.pairs().len()
                    && self.issuers.pairs()[i as int].0 == issuer@
                    && self.issuers.pairs()[i as int].1 == self@.issuers[issuer@],
                Err(e) => e == CreditError::WrongIssuer && !self@.issuers.contains_key(issuer@),
            },
    {
        proof {
            use_type_invariant(&self.issuers);
            self.issuers.lemma_facts();
        }
        match self.issuers.index_of(issuer) {
            Some(i) => Ok(i),
            None => Err(CreditError::WrongIssuer),
        }
    }

    fn issuer(&self, issuer: &str) -> (r: Result<&IssuerState, CreditError>)
        ensures
            match self@.issuer(issuer@) {
                Ok(st) => r matches Ok(s) && *s == st,
                Err(e) => r matches Err(x) && x == e,
            },
    {
        let i = self.issuer_pos(issuer)?;
        Ok(self.issuers.value_at(i))
    }

    pub fn peer_credit(&self, issuer: &str) -> (r: Result<&PeerCreditLedger, CreditError>)
        ensures
            match self@.issuer(issuer@) {
                Ok(st) => r matches Ok(l) && *l == st.peer_credit,
                Err(e) => r matches Err(x) && x == e,
            },
    {
        Ok(&self.issuer(issuer)?.peer_credit)
    }

    pub fn closed_loop(&self, issuer: &str) -> (r: Result<&ClosedLoopLedger, CreditError>)
        ensures
            match self@.issuer(issuer@) {
                Ok(st) => r matches Ok(l) && *l == st.closed_loop,
                Err(e) => r matches Err(x) && x == e,
            },
    {
        Ok(&self.issuer(issuer)?.closed_loop)
    }

    pub fn sat_reserve(&self, issuer: &str) -> (r: Result<&WithdrawableReserveLedger, CreditError>)
        ensures
            match self@.issuer(issuer@) {
                Ok(st) => r matches Ok(l) && *l == st.withdrawable,
                Err(e) => r matches Err(x) && x == e,
            },
    {
        Ok(&self.issuer(issuer)?.withdrawable)
    }

    pub fn applied_receipt_count(&self) -> (n: usize)
        ensures
            n == self@.applied_receipts.dom().len(),
    {
        self.applied_receipts.len()
    }

    /// Verified backing operations retained by this account, in stable
    /// (issuer, deposit id) order.
    ///
    /// Persistent adapters use this to atomically bind each issuer operation to
    /// one account. The account-local idempotency map alone cannot prevent the
    /// same proof, quote, or payment from backing another account.
    pub fn backing_deposits(&self) -> (r: Vec<BackingDeposit>)
        ensures
            r@ == self.deposit_items(),
            deposits_map(r@) == self@.backing_deposits,
            sorted_deposits(r@),
    {
        self.backing_deposits.to_vec()
    }

    /// Enumerate durable authorizations that still require backend recovery,
    /// ordered by settlement id.
    pub fn pending_external_settlement_authorizations(&self) -> (r: Vec<
        ExternalSettlementAuthorization,
    >)
        ensures
            r@ == pending_authorizations(self.settlement_pairs()),
            sorted_keys(self.settlement_pairs()),
            pairs_map(self.settlement_pairs()) == self@.settlements,
            self@.inv() ==> ids_increasing(r@),
    {
        proof {
            use_type_invariant(&self.settlements);
            self.lemma_view();
            let p = self.settlement_pairs();
            lemma_pairs_map_keys(p);
            if self@.inv() {
                assert forall|i: int| 0 <= i < p.len() implies (#[trigger] p[i]).1.authorization.settlement_id@
                    == p[i].0 by {
                    assert(self@.settlements.contains_key(p[i].0));
                    assert(settlement_record_ok(p[i].0, self@.settlements[p[i].0]));
                }
                lemma_pending_increasing(p);
            }
        }
        let mut out: Vec<ExternalSettlementAuthorization> = Vec::new();
        let n = self.settlements.len();
        let mut i: usize = 0;
        while i < n
            invariant
                n == self.settlements.pairs().len(),
                i <= n,
                out@ == pending_authorizations(self.settlements.pairs().take(i as int)),
            decreases n - i,
        {
            let record = self.settlements.value_at(i);
            assert(self.settlements.pairs().take(i + 1).drop_last() =~= self.settlements.pairs().take(i as int));
            if record.state == SettlementState::Pending {
                out.push(record.authorization.clone());
            }
            i = i + 1;
        }
        assert(self.settlements.pairs().take(n as int) =~= self.settlements.pairs());
        out
    }
}

/// Once a policy prefix is refused, every longer prefix is refused the same way.
proof fn lemma_policy_error_persists(all: Seq<IssuerPolicy>, k: int, e: CreditError)
    requires
        0 < k <= all.len(),
        issuers_from_policies(all.take(k)) == Err::<Map<Seq<char>, IssuerState>, CreditError>(e),
    ensures
        issuers_from_policies(all) == Err::<Map<Seq<char>, IssuerState>, CreditError>(e),
    decreases all.len() - k,
{
    if k < all.len() {
        assert(all.take(k + 1).drop_last() =~= all.take(k));
        lemma_policy_error_persists(all, k + 1, e);
    } else {
        assert(all.take(k) =~= all);
    }
}

} // verus!
