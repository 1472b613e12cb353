//! The decisions around the wallet's operations: which inputs are refused,
//! which imported proofs are new and what they add up to, the sat balance of
//! one mint, how a Lightning payment must have ended, what each operation
//! records in the activity log, and how stored activity is brought up to date.
use vstd::prelude::*;
use crate::activity::{spec_topup_status, topup_activity_status, TopupQuoteState};
use crate::text::{same_text, trim_text, trimmed};
use crate::textbuf::append_text;
use crate::transfer::{melt_state_text, sat_unit, MeltQuoteState};
use crate::wallet_inputs::{operation_id_parses, parse_operation_id};
use crate::wallet::{
    CashuTopupQuote, CashuWalletActivityEntry, CashuWalletActivityKind, CashuWalletActivityStatus,
    CashuWalletEntry,
};

verus! {

/// A token created for a payment.
#[derive(Debug, Clone, PartialEq, Eq)]
pub struct CashuSentPayment {
    pub mint_url: String,
    pub unit: String,
    pub amount_sat: u64,
    pub send_fee_sat: u64,
    pub operation_id: String,
    pub token: String,
}

/// A paid Lightning invoice.
#[derive(Debug, Clone, PartialEq, Eq)]
pub struct CashuLightningPayment {
    pub mint_url: String,
    pub unit: String,
    pub amount_sat: u64,
    pub fee_paid_sat: u64,
    pub quote_id: String,
    pub preimage: String,
}

/// Value taken into the wallet.
#[derive(Debug, Clone, PartialEq, Eq)]
pub struct CashuReceivedPayment {
    pub mint_url: String,
    pub unit: String,
    pub amount_sat: u64,
}

/// The sat balance held at one mint.
#[derive(Debug, Clone, PartialEq, Eq)]
pub struct CashuMintBalance {
    pub mint_url: String,
    pub unit: String,
    pub balance_sat: u64,
}

// ----- inputs -----

/// A top-up must ask for a positive amount.
pub fn check_topup_amount(amount_sat: u64) -> (r: Result<(), String>)
    ensures
        amount_sat == 0 ==> (r matches Err(e) && e@ == "Cashu topup amount must be greater than zero"@),
        amount_sat != 0 ==> r is Ok,
{
    if amount_sat == 0 {
        return Err("Cashu topup amount must be greater than zero".to_owned());
    }
    Ok(())
}

/// A token payment must carry a positive amount.
pub fn check_payment_amount(amount_sat: u64) -> (r: Result<(), String>)
    ensures
        amount_sat == 0 ==> (r matches Err(e) && e@ == "Cashu payment amount must be greater than zero"@),
        amount_sat != 0 ==> r is Ok,
{
    if amount_sat == 0 {
        return Err("Cashu payment amount must be greater than zero".to_owned());
    }
    Ok(())
}

/// Only sat proofs are imported; the unit is compared once trimmed.
pub fn check_proof_unit(unit: &str) -> (r: Result<(), String>)
    ensures
        trimmed(unit@) != "sat"@ ==> (r matches Err(e) && e@ == "Unsupported Cashu proof unit: "@ + trimmed(
            unit@,
        )),
        trimmed(unit@) == "sat"@ ==> r is Ok,
{
    let unit = trim_text(unit);
    let sat = sat_unit();
    if !same_text(unit.as_str(), sat.as_str()) {
        let mut m = "Unsupported Cashu proof unit: ".to_owned();
        append_text(&mut m, unit.as_str());
        return Err(m);
    }
    Ok(())
}

// ----- imported proofs -----

/// Whether a text occurs among the views of a list of texts.
pub open spec fn occurs(v: Seq<String>, s: Seq<char>) -> bool {
    exists|j: int| 0 <= j < v.len() && (#[trigger] v[j])@ == s
}

/// The positions, among the first `n` proofs, of those whose `Y` the wallet
/// does not hold yet, in order.
pub open spec fn new_proof_positions(ys: Seq<String>, existing: Seq<String>, n: nat) -> Seq<usize>
    decreases n,
{
    if n == 0 {
        Seq::empty()
    } else {
        let before = new_proof_positions(ys, existing, (n - 1) as nat);
        if occurs(existing, ys[n - 1]@) {
            before
        } else {
            before.push((n - 1) as usize)
        }
    }
}

/// The amounts of the new proofs among the first `n`, added up with
/// saturation at `u64::MAX`.
pub open spec fn new_proof_total(ys: Seq<String>, amounts: Seq<u64>, existing: Seq<String>, n: nat) -> u64
    decreases n,
{
    if n == 0 {
        0
    } else {
        let before = new_proof_total(ys, amounts, existing, (n - 1) as nat);
        if occurs(existing, ys[n - 1]@) {
            before
        } else {
            before.saturating_add(amounts[n - 1])
        }
    }
}

fn contains_text(v: &Vec<String>, s: &str) -> (b: bool)
    ensures
        b == occurs(v@, s@),
{
    let mut i: usize = 0;
    while i < v.len()
        invariant
            i <= v.len(),
            forall|j: int| 0 <= j < i ==> (#[trigger] v@[j])@ != s@,
        decreases v.len() - i,
    {
        if same_text(v[i].as_str(), s) {
            return true;
        }
        i = i + 1;
    }
    false
}

/// The proofs of an import that the wallet does not hold yet, by position,
/// and what they add up to. A proof is known by its `Y`; `ys[i]` and
/// `amounts[i]` describe the `i`-th proof.
pub fn select_new_proofs(ys: &Vec<String>, amounts: &Vec<u64>, existing: &Vec<String>) -> (r: (
    Vec<usize>,
    u64,
))
    requires
        ys.len() == amounts.len(),
    ensures
        r.0@ == new_proof_positions(ys@, existing@, ys.len() as nat),
        r.1 == new_proof_total(ys@, amounts@, existing@, ys.len() as nat),
{
    let mut kept: Vec<usize> = Vec::new();
    let mut total: u64 = 0;
    let mut i: usize = 0;
    while i < ys.len()
        invariant
            ys.len() == amounts.len(),
            i <= ys.len(),
            kept@ == new_proof_positions(ys@, existing@, i as nat),
            total == new_proof_total(ys@, amounts@, existing@, i as nat),
        decreases ys.len() - i,
    {
        if !contains_text(existing, ys[i].as_str()) {
            kept.push(i);
            total = total.saturating_add(amounts[i]);
        }
        i = i + 1;
    }
    (kept, total)
}

// ----- balances -----

/// The balance of the first entry for this mint in sats, or zero.
pub open spec fn spec_mint_sat_balance(entries: Seq<CashuWalletEntry>, mint_url: Seq<char>) -> u64
    decreases entries.len(),
{
    if entries.len() == 0 {
        0
    } else if entries[0].mint_url@ == mint_url && entries[0].unit@ == "sat"@ {
        entries[0].balance
    } else {
        spec_mint_sat_balance(entries.drop_first(), mint_url)
    }
}

/// The sat balance the wallet holds at one mint, from its per-mint balances.
pub fn mint_sat_balance(entries: &Vec<CashuWalletEntry>, mint_url: &str) -> (r: u64)
    ensures
        r == spec_mint_sat_balance(entries@, mint_url@),
{
    let sat = sat_unit();
    let mut i: usize = 0;
    assert(entries@.skip(0) =~= entries@);
    while i < entries.len()
        invariant
            i <= entries.len(),
            sat@ == "sat"@,
            spec_mint_sat_balance(entries@, mint_url@) == spec_mint_sat_balance(
                entries@.skip(i as int),
                mint_url@,
            ),
        decreases entries.len() - i,
    {
        assert(entries@.skip(i as int).drop_first() =~= entries@.skip(i + 1));
        if same_text(entries[i].mint_url.as_str(), mint_url) && same_text(entries[i].unit.as_str(), sat.as_str()) {
            return entries[i].balance;
        }
        i = i + 1;
    }
    0
}

/// The balance report for one mint.
pub fn mint_balance(normalized_mint: String, entries: &Vec<CashuWalletEntry>) -> (r: CashuMintBalance)
    ensures
        r.mint_url@ == normalized_mint@,
        r.unit@ == "sat"@,
        r.balance_sat == spec_mint_sat_balance(entries@, normalized_mint@),
{
    let balance_sat = mint_sat_balance(entries, normalized_mint.as_str());
    CashuMintBalance { mint_url: normalized_mint, unit: sat_unit(), balance_sat }
}

// ----- Lightning payments -----

/// A Lightning payment must have ended paid and produced a non-empty
/// preimage, which it returns.
pub fn lightning_payment_preimage(state: MeltQuoteState, preimage: Option<String>) -> (r: Result<String, String>)
    ensures
        state != MeltQuoteState::Paid ==> (r matches Err(e) && e@
            == "Cashu Lightning payment finished in unexpected state "@ + melt_state_text(state)),
        state == MeltQuoteState::Paid ==> match preimage {
            Some(p) => if p@.len() > 0 {
                r == Ok::<String, String>(p)
            } else {
                r matches Err(e) && e@ == "Cashu Lightning payment completed without a preimage"@
            },
            None => r matches Err(e) && e@ == "Cashu Lightning payment completed without a preimage"@,
        },
{
    if state != MeltQuoteState::Paid {
        let mut m = "Cashu Lightning payment finished in unexpected state ".to_owned();
        append_text(&mut m, state.as_str());
        return Err(m);
    }
    match preimage {
        Some(p) => {
            if p.unicode_len() > 0 {
                Ok(p)
            } else {
                Err("Cashu Lightning payment completed without a preimage".to_owned())
            }
        },
        None => Err("Cashu Lightning payment completed without a preimage".to_owned()),
    }
}

// ----- what each operation records -----

/// The activity entry of a new top-up quote: pending until the quote is paid.
pub fn topup_activity_entry(id: String, quote: &CashuTopupQuote, created_at_unix: u64) -> (e:
    CashuWalletActivityEntry)
    ensures
        e.id == id,
        e.kind == CashuWalletActivityKind::TopUp,
        e.status == CashuWalletActivityStatus::Pending,
        e.mint_url == quote.mint_url,
        e.unit == quote.unit,
        e.amount_sat == quote.amount,
        e.fee_sat is None,
        e.created_at_unix == created_at_unix,
        e.expires_at_unix == Some(quote.expiry_unix),
        e.quote_id == Some(quote.quote_id),
        e.operation_id is None,
        e.payment_request == Some(quote.payment_request),
        e.token is None,
{
    CashuWalletActivityEntry {
        id,
        kind: CashuWalletActivityKind::TopUp,
        status: CashuWalletActivityStatus::Pending,
        mint_url: quote.mint_url.clone(),
        unit: quote.unit.clone(),
        amount_sat: quote.amount,
        fee_sat: None,
        created_at_unix,
        expires_at_unix: Some(quote.expiry_unix),
        quote_id: Some(quote.quote_id.clone()),
        operation_id: None,
        payment_request: Some(quote.payment_request.clone()),
        token: None,
    }
}

/// The activity entry of a token sent: pending until the token is claimed or reclaimed.
pub fn token_send_activity_entry(id: String, payment: &CashuSentPayment, created_at_unix: u64) -> (e:
    CashuWalletActivityEntry)
    ensures
        e.id == id,
        e.kind == CashuWalletActivityKind::TokenSend,
        e.status == CashuWalletActivityStatus::Pending,
        e.mint_url == payment.mint_url,
        e.unit == payment.unit,
        e.amount_sat == payment.amount_sat,
        e.fee_sat == Some(payment.send_fee_sat),
        e.created_at_unix == created_at_unix,
        e.expires_at_unix is None,
        e.quote_id is None,
        e.operation_id == Some(payment.operation_id),
        e.payment_request is None,
        e.token == Some(payment.token),
{
    CashuWalletActivityEntry {
        id,
        kind: CashuWalletActivityKind::TokenSend,
        status: CashuWalletActivityStatus::Pending,
        mint_url: payment.mint_url.clone(),
        unit: payment.unit.clone(),
        amount_sat: payment.amount_sat,
        fee_sat: Some(payment.send_fee_sat),
        created_at_unix,
        expires_at_unix: None,
        quote_id: None,
        operation_id: Some(payment.operation_id.clone()),
        payment_request: None,
        token: Some(payment.token.clone()),
    }
}

/// The activity entry of a paid Lightning invoice.
pub fn lightning_activity_entry(
    id: String,
    payment: &CashuLightningPayment,
    payment_request: String,
    created_at_unix: u64,
) -> (e: CashuWalletActivityEntry)
    ensures
        e.id == id,
        e.kind == CashuWalletActivityKind::LightningPayment,
        e.status == CashuWalletActivityStatus::Complete,
        e.mint_url == payment.mint_url,
        e.unit == payment.unit,
        e.amount_sat == payment.amount_sat,
        e.fee_sat == Some(payment.fee_paid_sat),
        e.created_at_unix == created_at_unix,
        e.expires_at_unix is None,
        e.quote_id == Some(payment.quote_id),
        e.operation_id is None,
        e.payment_request == Some(payment_request),
        e.token is None,
{
    CashuWalletActivityEntry {
        id,
        kind: CashuWalletActivityKind::LightningPayment,
        status: CashuWalletActivityStatus::Complete,
        mint_url: payment.mint_url.clone(),
        unit: payment.unit.clone(),
        amount_sat: payment.amount_sat,
        fee_sat: Some(payment.fee_paid_sat),
        created_at_unix,
        expires_at_unix: None,
        quote_id: Some(payment.quote_id.clone()),
        operation_id: None,
        payment_request: Some(payment_request),
        token: None,
    }
}

/// The activity entry of value taken in: a received token, or proofs
/// collected from a payment channel.
pub fn received_activity_entry(
    id: String,
    kind: CashuWalletActivityKind,
    payment: &CashuReceivedPayment,
    created_at_unix: u64,
) -> (e: CashuWalletActivityEntry)
    ensures
        e.id == id,
        e.kind == kind,
        e.status == CashuWalletActivityStatus::Complete,
        e.mint_url == payment.mint_url,
        e.unit == payment.unit,
        e.amount_sat == payment.amount_sat,
        e.fee_sat is None,
        e.created_at_unix == created_at_unix,
        e.expires_at_unix is None,
        e.quote_id is None,
        e.operation_id is None,
        e.payment_request is None,
        e.token is None,
{
    CashuWalletActivityEntry {
        id,
        kind,
        status: CashuWalletActivityStatus::Complete,
        mint_url: payment.mint_url.clone(),
        unit: payment.unit.clone(),
        amount_sat: payment.amount_sat,
        fee_sat: None,
        created_at_unix,
        expires_at_unix: None,
        quote_id: None,
        operation_id: None,
        payment_request: None,
        token: None,
    }
}

// ----- bringing stored activity up to date -----

/// The send operation whose saga decides an entry, for a pending token send
/// that names one by a UUID: only such entries can settle by their saga being
/// gone.
pub fn send_saga_to_check(e: &CashuWalletActivityEntry) -> (r: Option<String>)
    ensures
        (e.kind == CashuWalletActivityKind::TokenSend && e.status == CashuWalletActivityStatus::Pending
            && e.operation_id is Some && operation_id_parses(e.operation_id->0@)) ==> (r matches Some(op)
            && op@ == e.operation_id->0@),
        !(e.kind == CashuWalletActivityKind::TokenSend && e.status == CashuWalletActivityStatus::Pending
            && e.operation_id is Some && operation_id_parses(e.operation_id->0@)) ==> r is None,
{
    if e.kind == CashuWalletActivityKind::TokenSend && e.status == CashuWalletActivityStatus::Pending {
        match &e.operation_id {
            Some(op) => {
                if parse_operation_id(op.as_str()) {
                    Some(op.as_str().to_owned())
                } else {
                    None
                }
            },
            None => None,
        }
    } else {
        None
    }
}

/// The status an entry takes given what the wallet knows now: a top-up
/// follows its mint quote; a pending token send whose send saga is gone is
/// complete; every other entry keeps its status.
pub open spec fn spec_refreshed_status(
    e: CashuWalletActivityEntry,
    quote: Option<TopupQuoteState>,
    send_settled: bool,
    now_unix: u64,
) -> CashuWalletActivityStatus {
    if e.kind == CashuWalletActivityKind::TopUp {
        spec_topup_status(e, quote, now_unix)
    } else if e.kind == CashuWalletActivityKind::TokenSend && e.status == CashuWalletActivityStatus::Pending
        && send_settled {
        CashuWalletActivityStatus::Complete
    } else {
        e.status
    }
}

/// Brings every entry's status up to date; reports whether any changed.
/// `quotes[i]` is the state of the mint quote of entry `i`, when the wallet
/// knows it; `send_settled[i]` tells whether the send saga of entry `i` is
/// known to be gone.
pub fn refresh_wallet_activity(
    entries: &mut Vec<CashuWalletActivityEntry>,
    quotes: &Vec<Option<TopupQuoteState>>,
    send_settled: &Vec<bool>,
    now_unix: u64,
) -> (changed: bool)
    requires
        quotes.len() == old(entries).len(),
        send_settled.len() == old(entries).len(),
    ensures
        final(entries)@.len() == old(entries)@.len(),
        forall|i: int|
            0 <= i < old(entries)@.len() ==> #[trigger] final(entries)@[i] == (CashuWalletActivityEntry {
                status: spec_refreshed_status(old(entries)@[i], quotes@[i], send_settled@[i], now_unix),
                ..old(entries)@[i]
            }),
        changed == exists|i: int|
            0 <= i < old(entries)@.len() && spec_refreshed_status(
                #[trigger] old(entries)@[i],
                quotes@[i],
                send_settled@[i],
                now_unix,
            ) != old(entries)@[i].status,
{
    let ghost orig = entries@;
    let mut changed = false;
    let mut i: usize = 0;
    while i < entries.len()
        invariant
            entries@.len() == orig.len(),
            quotes.len() == orig.len(),
            send_settled.len() == orig.len(),
            i <= orig.len(),
            forall|j: int|
                0 <= j < i ==> #[trigger] entries@[j] == (CashuWalletActivityEntry {
                    status: spec_refreshed_status(orig[j], quotes@[j], send_settled@[j], now_unix),
                    ..orig[j]
                }),
            forall|j: int| i <= j < orig.len() ==> #[trigger] entries@[j] == orig[j],
            changed == exists|j: int|
                0 <= j < i && spec_refreshed_status(#[trigger] orig[j], quotes@[j], send_settled@[j], now_unix)
                    != orig[j].status,
        decreases orig.len() - i,
    {
        let next = if entries[i].kind == CashuWalletActivityKind::TopUp {
            topup_activity_status(&entries[i], quotes[i], now_unix)
        } else if entries[i].kind == CashuWalletActivityKind::TokenSend && entries[i].status
            == CashuWalletActivityStatus::Pending && send_settled[i] {
            CashuWalletActivityStatus::Complete
        } else {
            entries[i].status
        };
        proof {
            assert(next == spec_refreshed_status(orig[i as int], quotes@[i as int], send_settled@[i as int], now_unix));
        }
        if next != entries[i].status {
            let mut e = entries.remove(i);
            e.status = next;
            entries.insert(i, e);
            changed = true;
        }
        proof {
            assert(entries@[i as int] == (CashuWalletActivityEntry {
                status: spec_refreshed_status(orig[i as int], quotes@[i as int], send_settled@[i as int], now_unix),
                ..orig[i as int]
            }));
        }
        i = i + 1;
    }
    changed
}

} // verus!
