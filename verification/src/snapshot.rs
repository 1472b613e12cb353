//! Validation and restoration of credit-account snapshots.
use vstd::prelude::*;
use crate::deposits::{deposit_key, key_lt};
use crate::error::CreditError;
use crate::idmap::IdMap;
use crate::ledger::PeerCreditLedger;
use crate::model::{IssuerState, PeerCreditEvent, SettlementRecord, SettlementState};
use crate::protocol::{
    AcceptanceMode, BackedCreditSettlement, BackingDeposit, ClosedLoopConsumption,
    CreditNovation, ExternalSettlementAuthorization, ServiceReceiptClaim, ValueClass,
};
use crate::snapshot_model::{
    backed_backing_amount, backed_backing_sum, backed_event_one, backed_from_amount,
    backed_from_sum, consumption_amount, consumption_sum, deposit_amount, deposit_sum,
    finished_count, finished_one, lemma_sum_of_nonneg, lemma_sum_of_prefix_le, lemma_sum_of_step,
    novation_event_one, novation_from_amount, novation_from_sum, novation_to_amount,
    novation_to_sum, outstanding_amount, peer_receipt_count, peer_receipt_one, pending_amount,
    pending_sum, receipt_amount, receipt_event_one, receipt_sum, settled_amount, settled_sum,
    sum_of, CreditAccountSnapshotV1, SNAPSHOT_VERSION,
};
use crate::text::{is_blank, is_blank_text, same_text, text_less};

verus! {

fn sum_receipts(m: &IdMap<ServiceReceiptClaim>, issuer: &str, class: ValueClass) -> (r: Option<u64>)
    ensures
        match r {
            Some(v) => v == receipt_sum(m.pairs(), issuer@, class),
            None => receipt_sum(m.pairs(), issuer@, class) > u64::MAX,
        },
{
    let ghost f = receipt_amount(issuer@, class);
    let n = m.len();
    let mut acc: u64 = 0;
    let mut j: usize = 0;
    while j < n
        invariant
            n == m.pairs().len(),
            j <= n,
            acc == sum_of(m.pairs().take(j as int), f),
            f == receipt_amount(issuer@, class),
        decreases n - j,
    {
        let e = m.value_at(j);
        let add: u64 = if same_text(e.issuer.as_str(), issuer) && e.value_class == class {
            e.amount_sat
        } else {
            0
        };
        proof {
            lemma_sum_of_step(m.pairs(), f, j as int);
        }
        match acc.checked_add(add) {
            Some(v) => acc = v,
            None => {
                proof {
                    lemma_sum_of_prefix_le(m.pairs(), f, j + 1);
                }
                return None;
            },
        }
        j = j + 1;
    }
    proof {
        assert(m.pairs().take(n as int) =~= m.pairs());
    }
    Some(acc)
}

fn sum_novations_to(m: &IdMap<CreditNovation>, issuer: &str) -> (r: Option<u64>)
    ensures
        match r {
            Some(v) => v == novation_to_sum(m.pairs(), issuer@),
            None => novation_to_sum(m.pairs(), issuer@) > u64::MAX,
        },
{
    let ghost f = novation_to_amount(issuer@);
    let n = m.len();
    let mut acc: u64 = 0;
    let mut j: usize = 0;
    while j < n
        invariant
            n == m.pairs().len(),
            j <= n,
            acc == sum_of(m.pairs().take(j as int), f),
            f == novation_to_amount(issuer@),
        decreases n - j,
    {
        let e = m.value_at(j);
        let add: u64 = if same_text(e.to_issuer.as_str(), issuer) {
            e.amount_sat
        } else {
            0
        };
        proof {
            lemma_sum_of_step(m.pairs(), f, j as int);
        }
        match acc.checked_add(add) {
            Some(v) => acc = v,
            None => {
                proof {
                    lemma_sum_of_prefix_le(m.pairs(), f, j + 1);
                }
                return None;
            },
        }
        j = j + 1;
    }
    proof {
        assert(m.pairs().take(n as int) =~= m.pairs());
    }
    Some(acc)
}

fn sum_novations_from(m: &IdMap<CreditNovation>, issuer: &str) -> (r: Option<u64>)
    ensures
        match r {
            Some(v) => v == novation_from_sum(m.pairs(), issuer@),
            None => novation_from_sum(m.pairs(), issuer@) > u64::MAX,
        },
{
    let ghost f = novation_from_amount(issuer@);
    let n = m.len();
    let mut acc: u64 = 0;
    let mut j: usize = 0;
    while j < n
        invariant
            n == m.pairs().len(),
            j <= n,
            acc == sum_of(m.pairs().take(j as int), f),
            f == novation_from_amount(issuer@),
        decreases n - j,
    {
        let e = m.value_at(j);
        let add: u64 = if same_text(e.from_issuer.as_str(), issuer) {
            e.amount_sat
        } else {
            0
        };
        proof {
            lemma_sum_of_step(m.pairs(), f, j as int);
        }
        match acc.checked_add(add) {
            Some(v) => acc = v,
            None => {
                proof {
                    lemma_sum_of_prefix_le(m.pairs(), f, j + 1);
                }
                return None;
            },
        }
        j = j + 1;
    }
    proof {
        assert(m.pairs().take(n as int) =~= m.pairs());
    }
    Some(acc)
}

fn sum_deposits(m: &Vec<BackingDeposit>, issuer: &str, class: ValueClass) -> (r: Option<u64>)
    ensures
        match r {
            Some(v) => v == deposit_sum(m@, issuer@, class),
            None => deposit_sum(m@, issuer@, class) > u64::MAX,
        },
{
    let ghost f = deposit_amount(issuer@, class);
    let n = m.len();
    let mut acc: u64 = 0;
    let mut j: usize = 0;
    while j < n
        invariant
            n == m@.len(),
            j <= n,
            acc == sum_of(m@.take(j as int), f),
            f == deposit_amount(issuer@, class),
        decreases n - j,
    {
        let e = &m[j];
        let add: u64 = if same_text(e.issuer.as_str(), issuer) && e.value_class == class {
            e.amount_sat
        } else {
            0
        };
        proof {
            lemma_sum_of_step(m@, f, j as int);
        }
        match acc.checked_add(add) {
            Some(v) => acc = v,
            None => {
                proof {
                    lemma_sum_of_prefix_le(m@, f, j + 1);
                }
                return None;
            },
        }
        j = j + 1;
    }
    proof {
        assert(m@.take(n as int) =~= m@);
    }
    Some(acc)
}

fn sum_backed_from(m: &IdMap<BackedCreditSettlement>, issuer: &str) -> (r: Option<u64>)
    ensures
        match r {
            Some(v) => v == backed_from_sum(m.pairs(), issuer@),
            None => backed_from_sum(m.pairs(), issuer@) > u64::MAX,
        },
{
    let ghost f = backed_from_amount(issuer@);
    let n = m.len();
    let mut acc: u64 = 0;
    let mut j: usize = 0;
    while j < n
        invariant
            n == m.pairs().len(),
            j <= n,
            acc == sum_of(m.pairs().take(j as int), f),
            f == backed_from_amount(issuer@),
        decreases n - j,
    {
        let e = m.value_at(j);
        let add: u64 = if same_text(e.from_issuer.as_str(), issuer) {
            e.amount_sat
        } else {
            0
        };
        proof {
            lemma_sum_of_step(m.pairs(), f, j as int);
        }
        match acc.checked_add(add) {
            Some(v) => acc = v,
            None => {
                proof {
                    lemma_sum_of_prefix_le(m.pairs(), f, j + 1);
                }
                return None;
            },
        }
        j = j + 1;
    }
    proof {
        assert(m.pairs().take(n as int) =~= m.pairs());
    }
    Some(acc)
}

fn sum_backed_backing(m: &IdMap<BackedCreditSettlement>, issuer: &str, class: ValueClass) -> (r: Option<u64>)
    ensures
        match r {
            Some(v) => v == backed_backing_sum(m.pairs(), issuer@, class),
            None => backed_backing_sum(m.pairs(), issuer@, class) > u64::MAX,
        },
{
    let ghost f = backed_backing_amount(issuer@, class);
    let n = m.len();
    let mut acc: u64 = 0;
    let mut j: usize = 0;
    while j < n
        invariant
            n == m.pairs().len(),
            j <= n,
            acc == sum_of(m.pairs().take(j as int), f),
            f == backed_backing_amount(issuer@, class),
        decreases n - j,
    {
        let e = m.value_at(j);
        let add: u64 = if same_text(e.backing_issuer.as_str(), issuer) && e.value_class == class {
            e.amount_sat
        } else {
            0
        };
        proof {
            lemma_sum_of_step(m.pairs(), f, j as int);
        }
        match acc.checked_add(add) {
            Some(v) => acc = v,
            None => {
                proof {
                    lemma_sum_of_prefix_le(m.pairs(), f, j + 1);
                }
                return None;
            },
        }
        j = j + 1;
    }
    proof {
        assert(m.pairs().take(n as int) =~= m.pairs());
    }
    Some(acc)
}

fn sum_consumptions(m: &IdMap<ClosedLoopConsumption>, issuer: &str) -> (r: Option<u64>)
    ensures
        match r {
            Some(v) => v == consumption_sum(m.pairs(), issuer@),
            None => consumption_sum(m.pairs(), issuer@) > u64::MAX,
        },
{
    let ghost f = consumption_amount(issuer@);
    let n = m.len();
    let mut acc: u64 = 0;
    let mut j: usize = 0;
    while j < n
        invariant
            n == m.pairs().len(),
            j <= n,
            acc == sum_of(m.pairs().take(j as int), f),
            f == consumption_amount(issuer@),
        decreases n - j,
    {
        let e = m.value_at(j);
        let add: u64 = if same_text(e.issuer.as_str(), issuer) {
            e.amount_sat
        } else {
            0
        };
        proof {
            lemma_sum_of_step(m.pairs(), f, j as int);
        }
        match acc.checked_add(add) {
            Some(v) => acc = v,
            None => {
                proof {
                    lemma_sum_of_prefix_le(m.pairs(), f, j + 1);
                }
                return None;
            },
        }
        j = j + 1;
    }
    proof {
        assert(m.pairs().take(n as int) =~= m.pairs());
    }
    Some(acc)
}

fn sum_pending(m: &IdMap<SettlementRecord>, issuer: &str) -> (r: Option<u64>)
    requires
        forall|j: int| 0 <= j < m.pairs().len() ==> #[trigger] m.pairs()[j].1.request.amount_sat + m.pairs()[j].1.request.max_fee_sat <= u64::MAX,
    ensures
        match r {
            Some(v) => v == pending_sum(m.pairs(), issuer@),
            None => pending_sum(m.pairs(), issuer@) > u64::MAX,
        },
{
    let ghost f = pending_amount(issuer@);
    let n = m.len();
    let mut acc: u64 = 0;
    let mut j: usize = 0;
    while j < n
        invariant
            n == m.pairs().len(),
            j <= n,
            acc == sum_of(m.pairs().take(j as int), f),
            f == pending_amount(issuer@),
            forall|j: int| 0 <= j < m.pairs().len() ==> #[trigger] m.pairs()[j].1.request.amount_sat + m.pairs()[j].1.request.max_fee_sat <= u64::MAX,
        decreases n - j,
    {
        let e = m.value_at(j);
        let add: u64 = if same_text(e.request.issuer.as_str(), issuer) && e.state == SettlementState::Pending {
            e.request.amount_sat + e.request.max_fee_sat
        } else {
            0
        };
        proof {
            lemma_sum_of_step(m.pairs(), f, j as int);
        }
        match acc.checked_add(add) {
            Some(v) => acc = v,
            None => {
                proof {
                    lemma_sum_of_prefix_le(m.pairs(), f, j + 1);
                }
                return None;
            },
        }
        j = j + 1;
    }
    proof {
        assert(m.pairs().take(n as int) =~= m.pairs());
    }
    Some(acc)
}

fn sum_settled(m: &IdMap<SettlementRecord>, issuer: &str) -> (r: Option<u64>)
    requires
        forall|j: int| 0 <= j < m.pairs().len() ==> (#[trigger] m.pairs()[j].1.state matches SettlementState::Completed { fee_sat } ==> m.pairs()[j].1.request.amount_sat + fee_sat <= u64::MAX),
    ensures
        match r {
            Some(v) => v == settled_sum(m.pairs(), issuer@),
            None => settled_sum(m.pairs(), issuer@) > u64::MAX,
        },
{
    let ghost f = settled_amount(issuer@);
    let n = m.len();
    let mut acc: u64 = 0;
    let mut j: usize = 0;
    while j < n
        invariant
            n == m.pairs().len(),
            j <= n,
            acc == sum_of(m.pairs().take(j as int), f),
            f == settled_amount(issuer@),
            forall|j: int| 0 <= j < m.pairs().len() ==> (#[trigger] m.pairs()[j].1.state matches SettlementState::Completed { fee_sat } ==> m.pairs()[j].1.request.amount_sat + fee_sat <= u64::MAX),
        decreases n - j,
    {
        let e = m.value_at(j);
        let add: u64 = if same_text(e.request.issuer.as_str(), issuer) && matches!(e.state, SettlementState::Completed { .. }) {
            e.request.amount_sat + match e.state { SettlementState::Completed { fee_sat } => fee_sat, _ => 0 }
        } else {
            0
        };
        proof {
            lemma_sum_of_step(m.pairs(), f, j as int);
        }
        match acc.checked_add(add) {
            Some(v) => acc = v,
            None => {
                proof {
                    lemma_sum_of_prefix_le(m.pairs(), f, j + 1);
                }
                return None;
            },
        }
        j = j + 1;
    }
    proof {
        assert(m.pairs().take(n as int) =~= m.pairs());
    }
    Some(acc)
}

impl CreditAccountSnapshotV1 {
    fn exec_issuer_ok(&self, key: &String, v: &IssuerState) -> (ok: bool)
        ensures
            ok == self.issuer_ok(key@, *v),
    {
        let p = &v.policy;
        let w = &v.withdrawable;
        let exposure = w.redeemable_sat as u128 + w.pending_external_sat as u128;
        let closed = v.closed_loop.available_backing_sat as u128 + v.closed_loop.claimable_sat as u128
            + v.closed_loop.consumed_sat as u128;
        let reserve = w.available_sat as u128 + w.redeemable_sat as u128 + w.pending_external_sat as u128
            + w.settled_external_sat as u128;
        !is_blank_text(key.as_str()) && same_text(p.issuer.as_str(), key.as_str())
            && p.max_offline_peer_credit_sat <= p.max_peer_credit_sat
            && v.peer_credit.offline_outstanding_sat <= v.peer_credit.outstanding_sat
            && v.peer_credit.outstanding_sat <= p.max_peer_credit_sat
            && v.peer_credit.offline_outstanding_sat <= p.max_offline_peer_credit_sat
            && v.closed_loop.claimable_sat <= p.max_closed_loop_sat
            && exposure <= p.max_withdrawable_sat as u128
            && closed == v.closed_loop.total_deposited_sat as u128
            && reserve == w.total_deposited_sat as u128
    }

    fn all_issuers_ok(&self) -> (ok: bool)
        ensures
            ok == (forall|j: int|
                0 <= j < self.issuers.pairs().len() ==> self.issuer_ok(
                    #[trigger] self.issuers.pairs()[j].0,
                    self.issuers.pairs()[j].1,
                )),
    {
        let n = self.issuers.len();
        let mut j: usize = 0;
        while j < n
            invariant
                n == self.issuers.pairs().len(),
                j <= n,
                forall|a: int|
                    0 <= a < j ==> self.issuer_ok(
                        #[trigger] self.issuers.pairs()[a].0,
                        self.issuers.pairs()[a].1,
                    ),
            decreases n - j,
        {
            if !self.exec_issuer_ok(self.issuers.key_at(j), self.issuers.value_at(j)) {
                return false;
            }
            j = j + 1;
        }
        true
    }

    fn exec_receipt_ok(&self, key: &String, v: &ServiceReceiptClaim) -> (ok: bool)
        ensures
            ok == self.receipt_ok(key@, *v),
    {
        same_text(key.as_str(), v.receipt_id.as_str()) && !is_blank_text(key.as_str())
            && same_text(v.counterparty.as_str(), self.counterparty.as_str())
            && !is_blank_text(v.service.as_str()) && !is_blank_text(v.resource.as_str())
            && v.useful_service_units != 0 && v.amount_sat != 0
            && v.issued_at_unix < v.expires_at_unix
            && self.issuers.contains_key(v.issuer.as_str())
    }

    fn all_applied_receipts_ok(&self) -> (ok: bool)
        ensures
            ok == (forall|j: int|
                0 <= j < self.applied_receipts.pairs().len() ==> self.receipt_ok(
                    #[trigger] self.applied_receipts.pairs()[j].0,
                    self.applied_receipts.pairs()[j].1,
                )),
    {
        let n = self.applied_receipts.len();
        let mut j: usize = 0;
        while j < n
            invariant
                n == self.applied_receipts.pairs().len(),
                j <= n,
                forall|a: int|
                    0 <= a < j ==> self.receipt_ok(
                        #[trigger] self.applied_receipts.pairs()[a].0,
                        self.applied_receipts.pairs()[a].1,
                    ),
            decreases n - j,
        {
            if !self.exec_receipt_ok(self.applied_receipts.key_at(j), self.applied_receipts.value_at(j)) {
                return false;
            }
            j = j + 1;
        }
        true
    }

    fn exec_novation_ok(&self, key: &String, v: &CreditNovation) -> (ok: bool)
        ensures
            ok == self.novation_ok(key@, *v),
    {
        same_text(key.as_str(), v.novation_id.as_str()) && !is_blank_text(key.as_str())
            && same_text(v.counterparty.as_str(), self.counterparty.as_str())
            && !same_text(v.from_issuer.as_str(), v.to_issuer.as_str()) && v.amount_sat != 0
            && self.issuers.contains_key(v.from_issuer.as_str())
            && self.issuers.contains_key(v.to_issuer.as_str())
    }

    fn all_novations_ok(&self) -> (ok: bool)
        ensures
            ok == (forall|j: int|
                0 <= j < self.novations.pairs().len() ==> self.novation_ok(
                    #[trigger] self.novations.pairs()[j].0,
                    self.novations.pairs()[j].1,
                )),
    {
        let n = self.novations.len();
        let mut j: usize = 0;
        while j < n
            invariant
                n == self.novations.pairs().len(),
                j <= n,
                forall|a: int|
                    0 <= a < j ==> self.novation_ok(
                        #[trigger] self.novations.pairs()[a].0,
                        self.novations.pairs()[a].1,
                    ),
            decreases n - j,
        {
            if !self.exec_novation_ok(self.novations.key_at(j), self.novations.value_at(j)) {
                return false;
            }
            j = j + 1;
        }
        true
    }

    fn exec_backed_ok(&self, key: &String, v: &BackedCreditSettlement) -> (ok: bool)
        ensures
            ok == self.backed_ok(key@, *v),
    {
        same_text(key.as_str(), v.settlement_id.as_str()) && !is_blank_text(key.as_str())
            && same_text(v.counterparty.as_str(), self.counterparty.as_str()) && v.amount_sat != 0
            && self.issuers.contains_key(v.from_issuer.as_str())
            && self.issuers.contains_key(v.backing_issuer.as_str())
            && v.value_class != ValueClass::PeerCredit
    }

    fn all_backed_settlements_ok(&self) -> (ok: bool)
        ensures
            ok == (forall|j: int|
                0 <= j < self.backed_settlements.pairs().len() ==> self.backed_ok(
                    #[trigger] self.backed_settlements.pairs()[j].0,
                    self.backed_settlements.pairs()[j].1,
                )),
    {
        let n = self.backed_settlements.len();
        let mut j: usize = 0;
        while j < n
            invariant
                n == self.backed_settlements.pairs().len(),
                j <= n,
                forall|a: int|
                    0 <= a < j ==> self.backed_ok(
                        #[trigger] self.backed_settlements.pairs()[a].0,
                        self.backed_settlements.pairs()[a].1,
                    ),
            decreases n - j,
        {
            if !self.exec_backed_ok(self.backed_settlements.key_at(j), self.backed_settlements.value_at(j)) {
                return false;
            }
            j = j + 1;
        }
        true
    }

    fn exec_consumption_ok(&self, key: &String, v: &ClosedLoopConsumption) -> (ok: bool)
        ensures
            ok == self.consumption_ok(key@, *v),
    {
        same_text(key.as_str(), v.consumption_id.as_str()) && !is_blank_text(key.as_str())
            && same_text(v.counterparty.as_str(), self.counterparty.as_str())
            && !is_blank_text(v.resource.as_str()) && v.amount_sat != 0
            && self.issuers.contains_key(v.issuer.as_str())
    }

    fn all_closed_loop_consumptions_ok(&self) -> (ok: bool)
        ensures
            ok == (forall|j: int|
                0 <= j < self.closed_loop_consumptions.pairs().len() ==> self.consumption_ok(
                    #[trigger] self.closed_loop_consumptions.pairs()[j].0,
                    self.closed_loop_consumptions.pairs()[j].1,
                )),
    {
        let n = self.closed_loop_consumptions.len();
        let mut j: usize = 0;
        while j < n
            invariant
                n == self.closed_loop_consumptions.pairs().len(),
                j <= n,
                forall|a: int|
                    0 <= a < j ==> self.consumption_ok(
                        #[trigger] self.closed_loop_consumptions.pairs()[a].0,
                        self.closed_loop_consumptions.pairs()[a].1,
                    ),
            decreases n - j,
        {
            if !self.exec_consumption_ok(self.closed_loop_consumptions.key_at(j), self.closed_loop_consumptions.value_at(j)) {
                return false;
            }
            j = j + 1;
        }
        true
    }

    fn exec_settlement_ok(&self, key: &String, v: &SettlementRecord) -> (ok: bool)
        ensures
            ok == self.settlement_ok(key@, *v),
    {
        let r = &v.request;
        let a = &v.authorization;
        let reserved = r.amount_sat as u128 + r.max_fee_sat as u128;
        if reserved > u64::MAX as u128 {
            return false;
        }
        let expected = ExternalSettlementAuthorization {
            settlement_id: r.settlement_id.clone(),
            issuer: r.issuer.clone(),
            counterparty: r.counterparty.clone(),
            payout_destination: r.payout_destination.clone(),
            amount_sat: r.amount_sat,
            max_fee_sat: r.max_fee_sat,
            reserved_sat: reserved as u64,
            authorized_at_unix: a.authorized_at_unix,
            expires_at_unix: r.expires_at_unix,
        };
        let fee_ok = match v.state {
            SettlementState::Completed { fee_sat } => fee_sat <= r.max_fee_sat,
            _ => true,
        };
        same_text(key.as_str(), r.settlement_id.as_str()) && !is_blank_text(key.as_str())
            && same_text(r.counterparty.as_str(), self.counterparty.as_str())
            && !is_blank_text(r.payout_destination.as_str()) && r.amount_sat != 0
            && a.same_as(&expected) && a.authorized_at_unix < a.expires_at_unix
            && self.issuers.contains_key(r.issuer.as_str()) && fee_ok
    }

    fn all_settlements_ok(&self) -> (ok: bool)
        ensures
            ok == (forall|j: int|
                0 <= j < self.settlements.pairs().len() ==> self.settlement_ok(
                    #[trigger] self.settlements.pairs()[j].0,
                    self.settlements.pairs()[j].1,
                )),
    {
        let n = self.settlements.len();
        let mut j: usize = 0;
        while j < n
            invariant
                n == self.settlements.pairs().len(),
                j <= n,
                forall|a: int|
                    0 <= a < j ==> self.settlement_ok(
                        #[trigger] self.settlements.pairs()[a].0,
                        self.settlements.pairs()[a].1,
                    ),
            decreases n - j,
        {
            if !self.exec_settlement_ok(self.settlements.key_at(j), self.settlements.value_at(j)) {
                return false;
            }
            j = j + 1;
        }
        true
    }

    fn deposits_ok(&self) -> (ok: bool)
        ensures
            ok == ((forall|j: int|
                0 <= j < self.backing_deposits@.len() ==> self.deposit_ok(
                    #[trigger] self.backing_deposits@[j],
                )) && (forall|j: int|
                0 < j < self.backing_deposits@.len() ==> key_lt(
                    deposit_key(self.backing_deposits@[j - 1]),
                    deposit_key(#[trigger] self.backing_deposits@[j]),
                ))),
    {
        let d = &self.backing_deposits;
        let n = d.len();
        let mut j: usize = 0;
        while j < n
            invariant
                n == d@.len(),
                d == &self.backing_deposits,
                j <= n,
                forall|a: int| 0 <= a < j ==> self.deposit_ok(#[trigger] d@[a]),
                forall|a: int| 0 < a < j ==> key_lt(deposit_key(d@[a - 1]), deposit_key(#[trigger] d@[a])),
            decreases n - j,
        {
            let e = &d[j];
            if j > 0 {
                let p = &d[j - 1];
                let ordered = text_less(p.issuer.as_str(), e.issuer.as_str()) || (same_text(
                    p.issuer.as_str(),
                    e.issuer.as_str(),
                ) && text_less(p.deposit_id.as_str(), e.deposit_id.as_str()));
                if !ordered {
                    return false;
                }
            }
            if is_blank_text(e.deposit_id.as_str()) || e.amount_sat == 0
                || !self.issuers.contains_key(e.issuer.as_str())
                || e.value_class == ValueClass::PeerCredit {
                return false;
            }
            j = j + 1;
        }
        true
    }

    fn records_valid(&self) -> (ok: bool)
        ensures
            ok == self.records_ok(),
    {
        self.all_issuers_ok() && self.all_applied_receipts_ok() && self.all_novations_ok()
            && self.deposits_ok() && self.all_backed_settlements_ok()
            && self.all_closed_loop_consumptions_ok() && self.all_settlements_ok()
    }

    fn issuer_totals_valid(&self, id: &String, st: &IssuerState) -> (ok: bool)
        requires
            self.records_ok(),
        ensures
            ok == self.issuer_totals_ok(id@, *st),
    {
        let id = id.as_str();
        assert forall|j: int| 0 <= j < self.settlements.pairs().len() implies (
        #[trigger] self.settlements.pairs()[j].1.state matches SettlementState::Completed { fee_sat }
            ==> self.settlements.pairs()[j].1.request.amount_sat + fee_sat <= u64::MAX) by {
            assert(self.settlement_ok(self.settlements.pairs()[j].0, self.settlements.pairs()[j].1));
        }
        assert forall|j: int| 0 <= j < self.settlements.pairs().len() implies #[trigger] self.settlements.pairs()[j].1.request.amount_sat
            + self.settlements.pairs()[j].1.request.max_fee_sat <= u64::MAX by {
            assert(self.settlement_ok(self.settlements.pairs()[j].0, self.settlements.pairs()[j].1));
        }
        let rp = sum_receipts(&self.applied_receipts, id, ValueClass::PeerCredit);
        let rc = sum_receipts(&self.applied_receipts, id, ValueClass::ClosedLoopDeposit);
        let rw = sum_receipts(&self.applied_receipts, id, ValueClass::ReserveBackedWithdrawable);
        let nt = sum_novations_to(&self.novations, id);
        let nf = sum_novations_from(&self.novations, id);
        let dc = sum_deposits(&self.backing_deposits, id, ValueClass::ClosedLoopDeposit);
        let dw = sum_deposits(&self.backing_deposits, id, ValueClass::ReserveBackedWithdrawable);
        let bf = sum_backed_from(&self.backed_settlements, id);
        let bc = sum_backed_backing(&self.backed_settlements, id, ValueClass::ClosedLoopDeposit);
        let bw = sum_backed_backing(
            &self.backed_settlements,
            id,
            ValueClass::ReserveBackedWithdrawable,
        );
        let cs = sum_consumptions(&self.closed_loop_consumptions, id);
        let pe = sum_pending(&self.settlements, id);
        let se = sum_settled(&self.settlements, id);
        match (rp, rc, rw, nt, nf, dc, dw, bf, bc, bw, cs, pe, se) {
            (
                Some(rp),
                Some(rc),
                Some(rw),
                Some(nt),
                Some(nf),
                Some(dc),
                Some(dw),
                Some(bf),
                Some(bc),
                Some(bw),
                Some(cs),
                Some(pe),
                Some(se),
            ) => {
                let credits = rp as u128 + nt as u128;
                let debits = nf as u128 + bf as u128;
                let closed_alloc = rc as u128 + bc as u128;
                let with_alloc = rw as u128 + bw as u128;
                let max = u64::MAX as u128;
                let c = &st.closed_loop;
                let w = &st.withdrawable;
                credits <= max && debits <= max && closed_alloc <= max && with_alloc <= max
                    && dc == c.total_deposited_sat && dw == w.total_deposited_sat && credits
                    >= debits && credits - debits == st.peer_credit.outstanding_sat as u128
                    && closed_alloc == c.claimable_sat as u128 + c.consumed_sat as u128 && cs
                    == c.consumed_sat && with_alloc == w.redeemable_sat as u128
                    + w.pending_external_sat as u128 + w.settled_external_sat as u128 && pe
                    == w.pending_external_sat && se == w.settled_external_sat
            },
            _ => {
                proof {
                    lemma_sum_of_nonneg(self.applied_receipts.pairs(), receipt_amount(id@, ValueClass::PeerCredit));
                    lemma_sum_of_nonneg(self.applied_receipts.pairs(), receipt_amount(id@, ValueClass::ClosedLoopDeposit));
                    lemma_sum_of_nonneg(self.applied_receipts.pairs(), receipt_amount(id@, ValueClass::ReserveBackedWithdrawable));
                    lemma_sum_of_nonneg(self.novations.pairs(), novation_to_amount(id@));
                    lemma_sum_of_nonneg(self.novations.pairs(), novation_from_amount(id@));
                    lemma_sum_of_nonneg(self.backed_settlements.pairs(), backed_from_amount(id@));
                    lemma_sum_of_nonneg(self.backed_settlements.pairs(), backed_backing_amount(id@, ValueClass::ClosedLoopDeposit));
                    lemma_sum_of_nonneg(self.backed_settlements.pairs(), backed_backing_amount(id@, ValueClass::ReserveBackedWithdrawable));
                }
                false
            },
        }
    }

    fn totals_valid(&self) -> (ok: bool)
        requires
            self.records_ok(),
        ensures
            ok == self.totals_ok(),
    {
        let n = self.issuers.len();
        let ghost f = outstanding_amount();
        let mut acc: u64 = 0;
        let mut j: usize = 0;
        while j < n
            invariant
                self.records_ok(),
                n == self.issuers.pairs().len(),
                j <= n,
                f == outstanding_amount(),
                acc == sum_of(self.issuers.pairs().take(j as int), f),
                forall|a: int|
                    0 <= a < j ==> self.issuer_totals_ok(
                        #[trigger] self.issuers.pairs()[a].0,
                        self.issuers.pairs()[a].1,
                    ),
            decreases n - j,
        {
            let st = self.issuers.value_at(j);
            if !self.issuer_totals_valid(self.issuers.key_at(j), st) {
                return false;
            }
            proof {
                lemma_sum_of_step(self.issuers.pairs(), f, j as int);
            }
            match acc.checked_add(st.peer_credit.outstanding_sat) {
                Some(v) => acc = v,
                None => {
                    proof {
                        lemma_sum_of_prefix_le(self.issuers.pairs(), f, j + 1);
                        assert forall|a: int|
                            0 <= a < n implies self.issuer_totals_ok(
                            #[trigger] self.issuers.pairs()[a].0,
                            self.issuers.pairs()[a].1,
                        ) || !self.totals_ok() by {}
                    }
                    return false;
                },
            }
            j = j + 1;
        }
        proof {
            assert(self.issuers.pairs().take(n as int) =~= self.issuers.pairs());
        }
        acc == self.total_peer_credit_sat && acc <= self.max_total_peer_credit_sat
    }

    proof fn lemma_replay_none_persists(&self, evs: Seq<PeerCreditEvent>, k: int)
        requires
            0 <= k <= evs.len(),
            self.replay(evs.take(k)) is None,
        ensures
            self.replay(evs) is None,
        decreases evs.len() - k,
    {
        if k < evs.len() {
            assert(evs.take(k + 1).drop_last() =~= evs.take(k));
            self.lemma_replay_none_persists(evs, k + 1);
        } else {
            assert(evs.take(k) =~= evs);
        }
    }

    proof fn lemma_replay_step(&self, evs: Seq<PeerCreditEvent>, j: int)
        requires
            0 <= j < evs.len(),
        ensures
            self.replay(evs.take(j + 1)) == (match self.replay(evs.take(j)) {
                None => None,
                Some(m) => self.event_step(m, evs[j]),
            }),
    {
        assert(evs.take(j + 1).drop_last() =~= evs.take(j));
        assert(evs.take(j + 1).last() == evs[j]);
    }

    fn initial_ledgers_exec(&self) -> (r: IdMap<PeerCreditLedger>)
        ensures
            r@ == self.initial_ledgers(),
    {
        proof {
            use_type_invariant(&self.issuers);
            self.issuers.lemma_facts();
        }
        let mut r: IdMap<PeerCreditLedger> = IdMap::new();
        let n = self.issuers.len();
        let mut j: usize = 0;
        while j < n
            invariant
                n == self.issuers.pairs().len(),
                j <= n,
                r@ == Map::new(
                    |k: Seq<char>| exists|a: int| 0 <= a < j && self.issuers.pairs()[a].0 == k,
                    |k: Seq<char>| PeerCreditLedger::zero(),
                ),
            decreases n - j,
        {
            let k = self.issuers.key_at(j).clone();
            let ghost before = r@;
            r.insert(k, PeerCreditLedger::default());
            proof {
                assert(r@ =~= Map::new(
                    |k: Seq<char>| exists|a: int| 0 <= a < j + 1 && self.issuers.pairs()[a].0 == k,
                    |k: Seq<char>| PeerCreditLedger::zero(),
                )) by {
                    assert forall|key: Seq<char>| #[trigger] r@.contains_key(key) == (exists|a: int|
                        0 <= a < j + 1 && self.issuers.pairs()[a].0 == key) by {
                        if key == self.issuers.pairs()[j as int].0 {
                        }
                        if exists|a: int| 0 <= a < j + 1 && self.issuers.pairs()[a].0 == key {
                            let a = choose|a: int| 0 <= a < j + 1 && self.issuers.pairs()[a].0 == key;
                            if a < j {
                                assert(before.contains_key(key));
                            }
                        }
                    }
                }
            }
            j = j + 1;
        }
        proof {
            self.issuers.lemma_facts();
            assert(r@ =~= self.initial_ledgers()) by {
                assert forall|key: Seq<char>| #[trigger] r@.contains_key(key)
                    == self.initial_ledgers().contains_key(key) by {
                    if self.issuers@.contains_key(key) {
                        let a = choose|a: int| 0 <= a < self.issuers.pairs().len() && #[trigger] self.issuers.pairs()[a].0 == key;
                        assert(self.issuers.pairs()[a].0 == key);
                    }
                    if r@.contains_key(key) {
                        let a = choose|a: int| 0 <= a < n && self.issuers.pairs()[a].0 == key;
                        assert(self.issuers@.contains_key(self.issuers.pairs()[a].0));
                    }
                }
            }
        }
        r
    }

    fn peer_receipts_counted(&self) -> (r: u64)
        ensures
            r == peer_receipt_count(self.applied_receipts.pairs()),
    {
        let ghost f = peer_receipt_one();
        let n = self.applied_receipts.len();
        let mut acc: u64 = 0;
        let mut j: usize = 0;
        while j < n
            invariant
                n == self.applied_receipts.pairs().len(),
                j <= n,
                f == peer_receipt_one(),
                acc == sum_of(self.applied_receipts.pairs().take(j as int), f),
                acc <= j,
            decreases n - j,
        {
            proof {
                lemma_sum_of_step(self.applied_receipts.pairs(), f, j as int);
            }
            if self.applied_receipts.value_at(j).value_class == ValueClass::PeerCredit {
                acc = acc + 1;
            }
            j = j + 1;
        }
        proof {
            assert(self.applied_receipts.pairs().take(n as int) =~= self.applied_receipts.pairs());
        }
        acc
    }

    fn events_valid(&self) -> (ok: bool)
        ensures
            ok == self.events_ok(),
    {
        let evs = &self.peer_credit_events;
        let ghost es = evs@;
        let n = evs.len();
        let mut ledgers = self.initial_ledgers_exec();
        assert(ledgers@.dom() =~= self.issuers@.dom());
        let mut seen_r: IdMap<()> = IdMap::new();
        let mut seen_n: IdMap<()> = IdMap::new();
        let mut seen_b: IdMap<()> = IdMap::new();
        let mut prev: u64 = 0;
        let mut cr: u64 = 0;
        let mut cn: u64 = 0;
        let mut cb: u64 = 0;
        let mut j: usize = 0;
        assert(es.take(0) =~= Seq::<PeerCreditEvent>::empty());
        while j < n
            invariant
                es == self.peer_credit_events@,
                evs == &self.peer_credit_events,
                n == es.len(),
                j <= n,
                self.replay(es.take(j as int)) == Some(ledgers@),
                ledgers@.dom() == self.issuers@.dom(),
                forall|a: int| 0 <= a < j ==> 0 < (#[trigger] es[a]).spec_revision() <= self.revision,
                forall|a: int, b: int|
                    0 <= a < b < j ==> (#[trigger] es[a]).spec_revision() < (
                    #[trigger] es[b]).spec_revision(),
                forall|a: int| 0 <= a < j ==> (#[trigger] es[a]).spec_revision() <= prev,
                j > 0 ==> prev == es[j - 1].spec_revision(),
                j == 0 ==> prev == 0,
                forall|a: int, b: int|
                    0 <= a < b < j && Self::same_kind(#[trigger] es[a], #[trigger] es[b])
                        ==> Self::event_id(es[a]) != Self::event_id(es[b]),
                forall|k: Seq<char>|
                    #[trigger] seen_r@.contains_key(k) <==> exists|a: int|
                        0 <= a < j && es[a] is Receipt && Self::event_id(es[a]) == k,
                forall|k: Seq<char>|
                    #[trigger] seen_n@.contains_key(k) <==> exists|a: int|
                        0 <= a < j && es[a] is Novation && Self::event_id(es[a]) == k,
                forall|k: Seq<char>|
                    #[trigger] seen_b@.contains_key(k) <==> exists|a: int|
                        0 <= a < j && es[a] is BackedSettlement && Self::event_id(es[a]) == k,
                cr == sum_of(es.take(j as int), receipt_event_one()),
                cn == sum_of(es.take(j as int), novation_event_one()),
                cb == sum_of(es.take(j as int), backed_event_one()),
                cr <= j,
                cn <= j,
                cb <= j,
            decreases n - j,
        {
            let e = &evs[j];
            let rev = e.revision();
            if rev == 0 || rev <= prev || rev > self.revision {
                proof {
                    if rev != 0 && rev <= self.revision {
                        assert(j > 0);
                        assert(es[j - 1].spec_revision() >= es[j as int].spec_revision());
                    }
                }
                return false;
            }
            proof {
                self.lemma_replay_step(es, j as int);
                lemma_sum_of_step(es, receipt_event_one(), j as int);
                lemma_sum_of_step(es, novation_event_one(), j as int);
                lemma_sum_of_step(es, backed_event_one(), j as int);
            }
            match e {
                PeerCreditEvent::Receipt { receipt_id, mode, .. } => {
                    if seen_r.insert(receipt_id.clone(), ()) {
                        proof {
                            let a = choose|a: int|
                                0 <= a < j && es[a] is Receipt && Self::event_id(es[a])
                                    == receipt_id@;
                            assert(Self::same_kind(es[a], es[j as int]));
                        }
                        return false;
                    }
                    let c = match self.applied_receipts.get(receipt_id.as_str()) {
                        Some(c) => c,
                        None => {
                            proof {
                                self.lemma_replay_none_persists(es, j + 1);
                            }
                            return false;
                        },
                    };
                    if c.value_class != ValueClass::PeerCredit {
                        proof {
                            self.lemma_replay_none_persists(es, j + 1);
                        }
                        return false;
                    }
                    proof {
                        use_type_invariant(&ledgers);
                        ledgers.lemma_facts();
                    }
                    let li = match ledgers.index_of(c.issuer.as_str()) {
                        Some(li) => li,
                        None => {
                            proof {
                                self.lemma_replay_none_persists(es, j + 1);
                            }
                            return false;
                        },
                    };
                    let mut l = *ledgers.value_at(li);
                    if l.credit(c.amount_sat, *mode == AcceptanceMode::OfflineDeferred).is_err() {
                        proof {
                            self.lemma_replay_none_persists(es, j + 1);
                        }
                        return false;
                    }
                    ledgers.update_at(li, l);
                    proof {
                        assert(ledgers@.dom() =~= self.issuers@.dom());
                    }
                    cr = cr + 1;
                },
                PeerCreditEvent::Novation { novation_id, .. } => {
                    if seen_n.insert(novation_id.clone(), ()) {
                        proof {
                            let a = choose|a: int|
                                0 <= a < j && es[a] is Novation && Self::event_id(es[a])
                                    == novation_id@;
                            assert(Self::same_kind(es[a], es[j as int]));
                        }
                        return false;
                    }
                    let nv = match self.novations.get(novation_id.as_str()) {
                        Some(nv) => nv,
                        None => {
                            proof {
                                self.lemma_replay_none_persists(es, j + 1);
                            }
                            return false;
                        },
                    };
                    proof {
                        use_type_invariant(&ledgers);
                        ledgers.lemma_facts();
                    }
                    let fi = match ledgers.index_of(nv.from_issuer.as_str()) {
                        Some(fi) => fi,
                        None => {
                            proof {
                                self.lemma_replay_none_persists(es, j + 1);
                            }
                            return false;
                        },
                    };
                    let mut src = *ledgers.value_at(fi);
                    if src.debit(nv.amount_sat).is_err() {
                        proof {
                            self.lemma_replay_none_persists(es, j + 1);
                        }
                        return false;
                    }
                    ledgers.update_at(fi, src);
                    proof {
                        assert(ledgers@.dom() =~= self.issuers@.dom());
                    }
                    proof {
                        use_type_invariant(&ledgers);
                        ledgers.lemma_facts();
                    }
                    let ti = match ledgers.index_of(nv.to_issuer.as_str()) {
                        Some(ti) => ti,
                        None => {
                            proof {
                                self.lemma_replay_none_persists(es, j + 1);
                            }
                            return false;
                        },
                    };
                    let mut dst = *ledgers.value_at(ti);
                    if dst.credit(nv.amount_sat, false).is_err() {
                        proof {
                            self.lemma_replay_none_persists(es, j + 1);
                        }
                        return false;
                    }
                    ledgers.update_at(ti, dst);
                    proof {
                        assert(ledgers@.dom() =~= self.issuers@.dom());
                    }
                    cn = cn + 1;
                },
                PeerCreditEvent::BackedSettlement { settlement_id, .. } => {
                    if seen_b.insert(settlement_id.clone(), ()) {
                        proof {
                            let a = choose|a: int|
                                0 <= a < j && es[a] is BackedSettlement && Self::event_id(es[a])
                                    == settlement_id@;
                            assert(Self::same_kind(es[a], es[j as int]));
                        }
                        return false;
                    }
                    let bs = match self.backed_settlements.get(settlement_id.as_str()) {
                        Some(bs) => bs,
                        None => {
                            proof {
                                self.lemma_replay_none_persists(es, j + 1);
                            }
                            return false;
                        },
                    };
                    proof {
                        use_type_invariant(&ledgers);
                        ledgers.lemma_facts();
                    }
                    let fi = match ledgers.index_of(bs.from_issuer.as_str()) {
                        Some(fi) => fi,
                        None => {
                            proof {
                                self.lemma_replay_none_persists(es, j + 1);
                            }
                            return false;
                        },
                    };
                    let mut l = *ledgers.value_at(fi);
                    if l.debit(bs.amount_sat).is_err() {
                        proof {
                            self.lemma_replay_none_persists(es, j + 1);
                        }
                        return false;
                    }
                    ledgers.update_at(fi, l);
                    proof {
                        assert(ledgers@.dom() =~= self.issuers@.dom());
                    }
                    cb = cb + 1;
                },
            }
            prev = rev;
            j = j + 1;
        }
        proof {
            assert(es.take(n as int) =~= es);
        }
        if cr != self.peer_receipts_counted() || cn != self.novations.len() as u64
            || cb != self.backed_settlements.len() as u64 {
            return false;
        }
        let m = self.issuers.len();
        let mut k: usize = 0;
        while k < m
            invariant
                m == self.issuers.pairs().len(),
                k <= m,
                self.replay(es) == Some(ledgers@),
                es == self.peer_credit_events@,
                ledgers@.dom() == self.issuers@.dom(),
                forall|a: int|
                    0 <= a < k ==> ledgers@[#[trigger] self.issuers.pairs()[a].0]
                        == self.issuers.pairs()[a].1.peer_credit,
            decreases m - k,
        {
            let st = self.issuers.value_at(k);
            match ledgers.get(self.issuers.key_at(k).as_str()) {
                Some(l) => {
                    if l.outstanding_sat != st.peer_credit.outstanding_sat
                        || l.offline_outstanding_sat != st.peer_credit.offline_outstanding_sat {
                        proof {
                            assert(self.replay(es)->0[self.issuers.pairs()[k as int].0]
                                != self.issuers.pairs()[k as int].1.peer_credit);
                        }
                        return false;
                    }
                },
                None => {
                    proof {
                        use_type_invariant(&self.issuers);
                        self.issuers.lemma_facts();
                        assert(self.issuers@.contains_key(self.issuers.pairs()[k as int].0));
                    }
                    return false;
                },
            }
            k = k + 1;
        }
        true
    }

    fn finished_counted(&self) -> (r: u64)
        ensures
            r == finished_count(self.settlements.pairs()),
    {
        let ghost f = finished_one();
        let n = self.settlements.len();
        let mut acc: u64 = 0;
        let mut j: usize = 0;
        while j < n
            invariant
                n == self.settlements.pairs().len(),
                j <= n,
                f == finished_one(),
                acc == sum_of(self.settlements.pairs().take(j as int), f),
                acc <= j,
            decreases n - j,
        {
            proof {
                lemma_sum_of_step(self.settlements.pairs(), f, j as int);
            }
            if self.settlements.value_at(j).state != SettlementState::Pending {
                acc = acc + 1;
            }
            j = j + 1;
        }
        proof {
            assert(self.settlements.pairs().take(n as int) =~= self.settlements.pairs());
        }
        acc
    }

    fn revision_valid(&self) -> (ok: bool)
        ensures
            ok == self.revision_ok(),
    {
        let expected = self.applied_receipts.len() as u128 + self.novations.len() as u128
            + self.backing_deposits.len() as u128 + self.backed_settlements.len() as u128
            + self.closed_loop_consumptions.len() as u128 + self.settlements.len() as u128
            + self.finished_counted() as u128;
        expected == self.revision as u128
    }

    /// The outcome of validation: an unsupported version, or the first
    /// group of checks that fails, in the order identity, records, event
    /// replay, ledger totals, revision.
    pub open spec fn validation(&self) -> Result<(), CreditError> {
        if self.version != SNAPSHOT_VERSION {
            Err(CreditError::UnsupportedSnapshotVersion)
        } else if is_blank(self.counterparty@) || self.issuers.pairs().len() == 0 {
            Err(CreditError::InvalidSnapshot("account identity or issuer set"))
        } else if !self.records_ok() {
            Err(CreditError::InvalidSnapshot("operation record"))
        } else if !self.events_ok() {
            Err(CreditError::InvalidSnapshot("peer-credit event replay"))
        } else if !self.totals_ok() {
            Err(CreditError::InvalidSnapshot("ledger totals"))
        } else if !self.revision_ok() {
            Err(CreditError::InvalidSnapshot("revision does not match applied operations"))
        } else {
            Ok(())
        }
    }

    /// Structurally validate the snapshot: identity, records, event replay,
    /// ledger totals, and revision. This does not re-authenticate historical
    /// signatures, proofs, or payments.
    pub fn validate(&self) -> (r: Result<(), CreditError>)
        ensures
            r == self.validation(),
            self.version != SNAPSHOT_VERSION ==> r == Err::<(), CreditError>(
                CreditError::UnsupportedSnapshotVersion,
            ),
            self.version == SNAPSHOT_VERSION ==> (r is Ok <==> self.valid_body()),
            self.version == SNAPSHOT_VERSION && r is Err ==> r->Err_0 is InvalidSnapshot,
    {
        if self.version != SNAPSHOT_VERSION {
            return Err(CreditError::UnsupportedSnapshotVersion);
        }
        if is_blank_text(self.counterparty.as_str()) || self.issuers.len() == 0 {
            return Err(CreditError::InvalidSnapshot("account identity or issuer set"));
        }
        if !self.records_valid() {
            return Err(CreditError::InvalidSnapshot("operation record"));
        }
        if !self.events_valid() {
            return Err(CreditError::InvalidSnapshot("peer-credit event replay"));
        }
        if !self.totals_valid() {
            return Err(CreditError::InvalidSnapshot("ledger totals"));
        }
        if !self.revision_valid() {
            return Err(CreditError::InvalidSnapshot("revision does not match applied operations"));
        }
        Ok(())
    }

    pub fn version(&self) -> (r: u32)
        ensures
            r == self.version,
    {
        self.version
    }

    pub fn revision(&self) -> (r: u64)
        ensures
            r == self.revision,
    {
        self.revision
    }

    pub fn counterparty(&self) -> (r: &str)
        ensures
            r@ == self.counterparty@,
    {
        self.counterparty.as_str()
    }
}

} // verus!
