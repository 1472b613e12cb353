//! The decisions of a cross-mint transfer: an idempotent saga that creates
//! the exact destination quote first, preflights every source-side fee before
//! paying, and accepts the transfer only once the destination balance grew by
//! exactly the requested amount. The wallet work between the steps (quotes,
//! payments, balances, the saga store) is done by the caller, which hands the
//! outcome of each step to the function that decides the next one.
use vstd::prelude::*;
use crate::text::same_text;
use crate::textbuf::{append_decimal, append_text, decimal};
use crate::wallet::{CashuCrossMintTransfer, CashuCrossMintTransferRequest};

verus! {

/// Schema version of a stored transfer saga.
pub const K_CROSS_MINT_TRANSFER_VERSION: u32 = 1;

/// A source mint's melt quote state, as the wallet reports it.
#[derive(Debug, Clone, Copy, PartialEq, Eq, Structural)]
pub enum MeltQuoteState {
    Unpaid,
    Paid,
    Pending,
    Unknown,
    Failed,
}

/// A destination mint's mint quote state, as the wallet reports it.
#[derive(Debug, Clone, Copy, PartialEq, Eq, Structural)]
pub enum MintQuoteState {
    Unpaid,
    Paid,
    Issued,
}

/// The persisted progress of one cross-mint transfer, keyed by its id.
#[derive(Debug, Clone, PartialEq, Eq)]
pub struct CashuCrossMintTransferSaga {
    pub version: u32,
    pub request: CashuCrossMintTransferRequest,
    pub destination_balance_before_sat: u64,
    pub destination_mint_quote_id: Option<String>,
    pub destination_payment_request: Option<String>,
    pub source_melt_quote_id: Option<String>,
    pub melt_fee_reserve_sat: Option<u64>,
    pub wallet_fee_sat: Option<u64>,
    pub fee_paid_sat: Option<u64>,
    pub result: Option<CashuCrossMintTransfer>,
}

/// How a transfer proceeds after its stored saga was read.
#[derive(Debug)]
pub enum TransferStart {
    /// The transfer already finished; this is its result.
    Finished(CashuCrossMintTransfer),
    /// The transfer was interrupted; continue from this saga.
    Resume(CashuCrossMintTransferSaga),
    /// No saga is stored for this id; start a new one.
    Fresh,
}

/// What to do about the source payment.
#[derive(Debug, Clone, Copy, PartialEq, Eq, Structural)]
pub enum SourcePaymentAction {
    /// Prepare, preflight and confirm the melt.
    Pay,
    /// The melt was paid already.
    AlreadyPaid,
}

/// What to do about the destination mint quote once the source paid it.
#[derive(Debug, Clone, Copy, PartialEq, Eq, Structural)]
pub enum DestinationMintAction {
    /// Mint the paid quote.
    Mint,
    /// The quote was issued already.
    AlreadyIssued,
}

/// The name the wallet reports for a melt quote state.
pub open spec fn melt_state_text(s: MeltQuoteState) -> Seq<char> {
    match s {
        MeltQuoteState::Unpaid => "UNPAID"@,
        MeltQuoteState::Paid => "PAID"@,
        MeltQuoteState::Pending => "PENDING"@,
        MeltQuoteState::Unknown => "UNKNOWN"@,
        MeltQuoteState::Failed => "FAILED"@,
    }
}

/// The name the wallet reports for a mint quote state.
pub open spec fn mint_state_text(s: MintQuoteState) -> Seq<char> {
    match s {
        MintQuoteState::Unpaid => "UNPAID"@,
        MintQuoteState::Paid => "PAID"@,
        MintQuoteState::Issued => "ISSUED"@,
    }
}

impl MeltQuoteState {
    pub fn as_str(&self) -> (r: &'static str)
        ensures
            r@ == melt_state_text(*self),
    {
        match self {
            MeltQuoteState::Unpaid => "UNPAID",
            MeltQuoteState::Paid => "PAID",
            MeltQuoteState::Pending => "PENDING",
            MeltQuoteState::Unknown => "UNKNOWN",
            MeltQuoteState::Failed => "FAILED",
        }
    }
}

impl MintQuoteState {
    pub fn as_str(&self) -> (r: &'static str)
        ensures
            r@ == mint_state_text(*self),
    {
        match self {
            MintQuoteState::Unpaid => "UNPAID",
            MintQuoteState::Paid => "PAID",
            MintQuoteState::Issued => "ISSUED",
        }
    }
}

/// The two requests carry the same contents.
pub open spec fn same_request(a: CashuCrossMintTransferRequest, b: CashuCrossMintTransferRequest) -> bool {
    &&& a.transfer_id@ == b.transfer_id@
    &&& a.source_mint_url@ == b.source_mint_url@
    &&& a.destination_mint_url@ == b.destination_mint_url@
    &&& a.amount_sat == b.amount_sat
    &&& a.max_fee_sat == b.max_fee_sat
}

fn requests_match(a: &CashuCrossMintTransferRequest, b: &CashuCrossMintTransferRequest) -> (r: bool)
    ensures
        r == same_request(*a, *b),
{
    same_text(a.transfer_id.as_str(), b.transfer_id.as_str()) && same_text(
        a.source_mint_url.as_str(),
        b.source_mint_url.as_str(),
    ) && same_text(a.destination_mint_url.as_str(), b.destination_mint_url.as_str())
        && a.amount_sat == b.amount_sat && a.max_fee_sat == b.max_fee_sat
}

/// A text with the decimal form of a number between two pieces.
fn text_with_number(before: &str, n: u64, after: &str) -> (r: String)
    ensures
        r@ == before@ + decimal(n as nat) + after@,
{
    let mut s = String::new();
    append_text(&mut s, before);
    append_decimal(&mut s, n);
    append_text(&mut s, after);
    s
}

/// The message for a transfer id that a different request already holds.
pub open spec fn rebound_msg(id: Seq<char>) -> Seq<char> {
    "Cashu cross-mint transfer id "@ + id + " is already bound to a different request"@
}

/// How a stored saga answers a transfer request: a different request under
/// the same id, or a saga of another version, is refused; a finished saga
/// answers with its result; an unfinished one is resumed; none starts anew.
pub open spec fn spec_resume(
    stored: Option<CashuCrossMintTransferSaga>,
    request: CashuCrossMintTransferRequest,
) -> Option<Result<Option<CashuCrossMintTransfer>, Seq<char>>> {
    match stored {
        None => None,
        Some(s) => if s.version != K_CROSS_MINT_TRANSFER_VERSION || !same_request(s.request, request) {
            Some(Err(rebound_msg(request.transfer_id@)))
        } else {
            Some(Ok(s.result))
        },
    }
}

/// Decide how a transfer proceeds from the saga stored under its id.
pub fn resume_cross_mint_transfer(
    stored: Option<CashuCrossMintTransferSaga>,
    request: &CashuCrossMintTransferRequest,
) -> (r: Result<TransferStart, String>)
    ensures
        match spec_resume(stored, *request) {
            None => r matches Ok(TransferStart::Fresh),
            Some(Err(m)) => r matches Err(e) && e@ == m,
            Some(Ok(Some(t))) => r == Ok::<TransferStart, String>(TransferStart::Finished(t)),
            Some(Ok(None)) => r == Ok::<TransferStart, String>(TransferStart::Resume(stored->0)),
        },
        stored is Some && r is Ok ==> {
            &&& stored->0.request.transfer_id@ == request.transfer_id@
            &&& stored->0.request.source_mint_url@ == request.source_mint_url@
            &&& stored->0.request.destination_mint_url@ == request.destination_mint_url@
            &&& stored->0.request.amount_sat == request.amount_sat
            &&& stored->0.request.max_fee_sat == request.max_fee_sat
        },
{
    match stored {
        None => Ok(TransferStart::Fresh),
        Some(saga) => {
            if saga.version != K_CROSS_MINT_TRANSFER_VERSION || !requests_match(&saga.request, request) {
                let mut m = "Cashu cross-mint transfer id ".to_owned();
                append_text(&mut m, request.transfer_id.as_str());
                append_text(&mut m, " is already bound to a different request");
                return Err(m);
            }
            match saga.result {
                Some(t) => Ok(TransferStart::Finished(t)),
                None => Ok(TransferStart::Resume(saga)),
            }
        },
    }
}

/// A new saga for a request, with the destination balance read before anything moved.
pub fn start_cross_mint_transfer(
    request: CashuCrossMintTransferRequest,
    destination_balance_before_sat: u64,
) -> (s: CashuCrossMintTransferSaga)
    ensures
        s.version == K_CROSS_MINT_TRANSFER_VERSION,
        s.request == request,
        s.destination_balance_before_sat == destination_balance_before_sat,
        s.destination_mint_quote_id is None,
        s.destination_payment_request is None,
        s.source_melt_quote_id is None,
        s.melt_fee_reserve_sat is None,
        s.wallet_fee_sat is None,
        s.fee_paid_sat is None,
        s.result is None,
{
    CashuCrossMintTransferSaga {
        version: K_CROSS_MINT_TRANSFER_VERSION,
        request,
        destination_balance_before_sat,
        destination_mint_quote_id: None,
        destination_payment_request: None,
        source_melt_quote_id: None,
        melt_fee_reserve_sat: None,
        wallet_fee_sat: None,
        fee_paid_sat: None,
        result: None,
    }
}

/// The next piece of work a transfer saga asks for: its destination quote,
/// then its source melt quote, then settling the source payment. A step whose
/// record the saga already holds is never asked for again.
#[derive(Debug, Clone, Copy, PartialEq, Eq, Structural)]
pub enum TransferStep {
    CreateDestinationQuote,
    CreateMeltQuote,
    SettleSource,
}

pub open spec fn spec_next_transfer_step(s: CashuCrossMintTransferSaga) -> TransferStep {
    if s.destination_mint_quote_id is None {
        TransferStep::CreateDestinationQuote
    } else if s.source_melt_quote_id is None {
        TransferStep::CreateMeltQuote
    } else {
        TransferStep::SettleSource
    }
}

/// What a saga asks for next.
pub fn next_transfer_step(saga: &CashuCrossMintTransferSaga) -> (r: TransferStep)
    ensures
        r == spec_next_transfer_step(*saga),
{
    if saga.destination_mint_quote_id.is_none() {
        TransferStep::CreateDestinationQuote
    } else if saga.source_melt_quote_id.is_none() {
        TransferStep::CreateMeltQuote
    } else {
        TransferStep::SettleSource
    }
}

/// A saga that holds the record of a step never asks for that step again,
/// and recording a step moves the saga past it.
pub proof fn law_recorded_steps_are_not_repeated(
    s: CashuCrossMintTransferSaga,
    quote_id: String,
    payment_request: String,
    melt_quote_id: String,
    fee_reserve_sat: u64,
)
    ensures
        s.destination_mint_quote_id is Some ==> spec_next_transfer_step(s)
            != TransferStep::CreateDestinationQuote,
        s.source_melt_quote_id is Some ==> spec_next_transfer_step(s) != TransferStep::CreateMeltQuote,
        spec_next_transfer_step(with_destination_quote(s, quote_id, payment_request))
            != TransferStep::CreateDestinationQuote,
        spec_next_transfer_step(
            CashuCrossMintTransferSaga {
                source_melt_quote_id: Some(melt_quote_id),
                melt_fee_reserve_sat: Some(fee_reserve_sat),
                ..with_destination_quote(s, quote_id, payment_request)
            },
        ) == TransferStep::SettleSource,
{
}

/// The fee of the first outgoing transaction recorded for a quote, as
/// `(quote id, fee)` pairs in the wallet's order.
pub open spec fn spec_transaction_fee(txs: Seq<(Option<String>, u64)>, quote_id: Seq<char>) -> Option<u64>
    decreases txs.len(),
{
    if txs.len() == 0 {
        None
    } else if txs[0].0 is Some && txs[0].0->0@ == quote_id {
        Some(txs[0].1)
    } else {
        spec_transaction_fee(txs.drop_first(), quote_id)
    }
}

/// The fee of the wallet's durable record of a paid melt quote, if any.
pub fn transaction_fee_for_quote(txs: &Vec<(Option<String>, u64)>, quote_id: &str) -> (r: Option<u64>)
    ensures
        r == spec_transaction_fee(txs@, quote_id@),
{
    let mut i: usize = 0;
    assert(txs@.skip(0) =~= txs@);
    while i < txs.len()
        invariant
            i <= txs.len(),
            spec_transaction_fee(txs@, quote_id@) == spec_transaction_fee(txs@.skip(i as int), quote_id@),
        decreases txs.len() - i,
    {
        assert(txs@.skip(i as int).drop_first() =~= txs@.skip(i + 1));
        match &txs[i].0 {
            Some(q) => {
                if same_text(q.as_str(), quote_id) {
                    return Some(txs[i].1);
                }
            },
            None => {},
        }
        i = i + 1;
    }
    None
}

// ----- the destination invoice -----

/// What parsing a text as a BOLT11 invoice gives: `None` when it is not one,
/// otherwise the amount it asks for in millisatoshis, if any.
pub uninterp spec fn bolt11_amount_msat(request: Seq<char>) -> Option<Option<u64>>;

/// Parses a BOLT11 invoice with `cdk::Bolt11Invoice::from_str` and reads its
/// `amount_milli_satoshis`. The contract claims only that the outcome is a
/// function of the text: which texts parse, and to which amount, is the
/// parser's.
#[verifier::external_body]
fn parse_bolt11_amount(request: &str) -> (r: Option<Option<u64>>)
    ensures
        r == bolt11_amount_msat(request@),
{
    match request.parse::<cdk::Bolt11Invoice>() {
        Ok(invoice) => Some(invoice.amount_milli_satoshis()),
        Err(_) => None,
    }
}

/// The message for an invoice whose amount is not the requested one.
pub open spec fn invoice_mismatch_msg(invoice_msat: u64, expected_msat: u64) -> Seq<char> {
    "Destination mint invoice amount "@ + decimal(invoice_msat as nat) + " msat does not match requested amount "@
        + decimal(expected_msat as nat) + " msat"@
}

/// The check of an invoice's parse outcome against an exact sat amount.
pub open spec fn spec_invoice_check(parsed: Option<Option<u64>>, amount_sat: u64) -> Result<(), Seq<char>> {
    match parsed {
        None => Err("Destination mint returned an invalid BOLT11 invoice"@),
        Some(amount) => if amount_sat * 1000 > u64::MAX {
            Err("Cashu cross-mint transfer amount is too large"@)
        } else {
            match amount {
                None => Err("Destination mint returned an amountless BOLT11 invoice"@),
                Some(m) => if m != amount_sat * 1000 {
                    Err(invoice_mismatch_msg(m, (amount_sat * 1000) as u64))
                } else {
                    Ok(())
                },
            }
        },
    }
}

/// Checks a parsed invoice: it must parse, and ask for exactly `amount_sat`
/// sats, in millisatoshis.
pub fn check_invoice_amount(parsed: Option<Option<u64>>, amount_sat: u64) -> (r: Result<(), String>)
    ensures
        match spec_invoice_check(parsed, amount_sat) {
            Ok(_) => r is Ok,
            Err(m) => r matches Err(e) && e@ == m,
        },
{
    let amount = match parsed {
        None => {
            return Err("Destination mint returned an invalid BOLT11 invoice".to_owned());
        },
        Some(a) => a,
    };
    let expected_msat = match amount_sat.checked_mul(1000) {
        None => {
            return Err("Cashu cross-mint transfer amount is too large".to_owned());
        },
        Some(e) => e,
    };
    match amount {
        None => Err("Destination mint returned an amountless BOLT11 invoice".to_owned()),
        Some(invoice_msat) => {
            if invoice_msat != expected_msat {
                let mut m = text_with_number("Destination mint invoice amount ", invoice_msat, " msat does not match requested amount ");
                append_decimal(&mut m, expected_msat);
                append_text(&mut m, " msat");
                return Err(m);
            }
            Ok(())
        },
    }
}

/// Checks that a BOLT11 invoice asks for exactly `amount_sat` sats.
pub fn validate_exact_bolt11_amount(payment_request: &str, amount_sat: u64) -> (r: Result<(), String>)
    ensures
        match spec_invoice_check(bolt11_amount_msat(payment_request@), amount_sat) {
            Ok(_) => r is Ok,
            Err(m) => r matches Err(e) && e@ == m,
        },
{
    let parsed = parse_bolt11_amount(payment_request);
    check_invoice_amount(parsed, amount_sat)
}

/// The saga with its destination quote recorded.
pub open spec fn with_destination_quote(
    s: CashuCrossMintTransferSaga,
    quote_id: String,
    payment_request: String,
) -> CashuCrossMintTransferSaga {
    CashuCrossMintTransferSaga {
        destination_mint_quote_id: Some(quote_id),
        destination_payment_request: Some(payment_request),
        ..s
    }
}

/// Records the destination mint quote, which must be for exactly the
/// requested amount and carry an invoice for exactly that amount.
pub fn record_destination_quote(
    saga: &mut CashuCrossMintTransferSaga,
    quote_id: String,
    quote_amount: Option<u64>,
    payment_request: String,
) -> (r: Result<(), String>)
    ensures
        quote_amount != Some(old(saga).request.amount_sat) ==> (r matches Err(e) && e@
            == "Destination mint returned an incorrect mint quote amount"@ && *final(saga) == *old(saga)),
        quote_amount == Some(old(saga).request.amount_sat) ==> match spec_invoice_check(
            bolt11_amount_msat(payment_request@),
            old(saga).request.amount_sat,
        ) {
            Ok(_) => r is Ok && *final(saga) == with_destination_quote(*old(saga), quote_id, payment_request),
            Err(m) => r matches Err(e) && e@ == m && *final(saga) == *old(saga),
        },
{
    if quote_amount != Some(saga.request.amount_sat) {
        return Err("Destination mint returned an incorrect mint quote amount".to_owned());
    }
    validate_exact_bolt11_amount(payment_request.as_str(), saga.request.amount_sat)?;
    saga.destination_mint_quote_id = Some(quote_id);
    saga.destination_payment_request = Some(payment_request);
    Ok(())
}

/// The recorded destination quote id and invoice, the invoice checked again
/// against the requested amount.
pub fn destination_quote(saga: &CashuCrossMintTransferSaga) -> (r: Result<(String, String), String>)
    ensures
        match (saga.destination_mint_quote_id, saga.destination_payment_request) {
            (None, _) => r matches Err(e) && e@ == "Cashu cross-mint saga has no destination quote id"@,
            (Some(_), None) => r matches Err(e) && e@ == "Cashu cross-mint saga has no destination invoice"@,
            (Some(q), Some(p)) => match spec_invoice_check(bolt11_amount_msat(p@), saga.request.amount_sat) {
                Ok(_) => r matches Ok((a, b)) && a@ == q@ && b@ == p@,
                Err(m) => r matches Err(e) && e@ == m,
            },
        },
{
    let quote_id = match &saga.destination_mint_quote_id {
        None => {
            return Err("Cashu cross-mint saga has no destination quote id".to_owned());
        },
        Some(q) => q.as_str().to_owned(),
    };
    let payment_request = match &saga.destination_payment_request {
        None => {
            return Err("Cashu cross-mint saga has no destination invoice".to_owned());
        },
        Some(p) => p.as_str().to_owned(),
    };
    validate_exact_bolt11_amount(payment_request.as_str(), saga.request.amount_sat)?;
    Ok((quote_id, payment_request))
}

// ----- the source melt quote -----

/// The message for a melt fee reserve above the caller's maximum.
pub open spec fn reserve_exceeded_msg(reserve: u64, max: u64) -> Seq<char> {
    "Source mint melt fee reserve "@ + decimal(reserve as nat) + " sat exceeds caller maximum "@ + decimal(
        max as nat,
    ) + " sat"@
}

/// Records the source melt quote, which must be for exactly the requested
/// amount with a fee reserve within the caller's maximum.
pub fn record_melt_quote(
    saga: &mut CashuCrossMintTransferSaga,
    quote_id: String,
    quote_amount: u64,
    fee_reserve_sat: u64,
) -> (r: Result<(), String>)
    ensures
        quote_amount != old(saga).request.amount_sat ==> (r matches Err(e) && e@
            == "Source mint returned an incorrect melt quote amount"@ && *final(saga) == *old(saga)),
        quote_amount == old(saga).request.amount_sat && fee_reserve_sat > old(saga).request.max_fee_sat
            ==> (r matches Err(e) && e@ == reserve_exceeded_msg(fee_reserve_sat, old(saga).request.max_fee_sat)
            && *final(saga) == *old(saga)),
        quote_amount == old(saga).request.amount_sat && fee_reserve_sat <= old(saga).request.max_fee_sat
            ==> (r is Ok && *final(saga) == (CashuCrossMintTransferSaga {
            source_melt_quote_id: Some(quote_id),
            melt_fee_reserve_sat: Some(fee_reserve_sat),
            ..*old(saga)
        })),
{
    if quote_amount != saga.request.amount_sat {
        return Err("Source mint returned an incorrect melt quote amount".to_owned());
    }
    if fee_reserve_sat > saga.request.max_fee_sat {
        let mut m = text_with_number("Source mint melt fee reserve ", fee_reserve_sat, " sat exceeds caller maximum ");
        append_decimal(&mut m, saga.request.max_fee_sat);
        append_text(&mut m, " sat");
        return Err(m);
    }
    saga.source_melt_quote_id = Some(quote_id);
    saga.melt_fee_reserve_sat = Some(fee_reserve_sat);
    Ok(())
}

/// The recorded source melt quote id.
pub fn source_quote_id(saga: &CashuCrossMintTransferSaga) -> (r: Result<String, String>)
    ensures
        match saga.source_melt_quote_id {
            None => r matches Err(e) && e@ == "Cashu cross-mint saga has no source quote id"@,
            Some(q) => r matches Ok(a) && a@ == q@,
        },
{
    match &saga.source_melt_quote_id {
        None => Err("Cashu cross-mint saga has no source quote id".to_owned()),
        Some(q) => Ok(q.as_str().to_owned()),
    }
}

/// Checks the melt quote the source wallet stored against the saga: same
/// invoice, the requested amount, and the recorded fee reserve.
pub fn check_stored_melt_quote(
    saga: &CashuCrossMintTransferSaga,
    payment_request: &str,
    stored_request: &str,
    stored_amount: u64,
    stored_fee_reserve_sat: u64,
) -> (r: Result<(), String>)
    ensures
        stored_request@ != payment_request@ || stored_amount != saga.request.amount_sat ==> (r matches Err(e)
            && e@ == "Stored source mint melt quote does not match the cross-mint transfer"@),
        stored_request@ == payment_request@ && stored_amount == saga.request.amount_sat ==> match saga.melt_fee_reserve_sat {
            None => r matches Err(e) && e@ == "Cashu cross-mint saga has no melt fee reserve"@,
            Some(f) => if f != stored_fee_reserve_sat {
                r matches Err(e) && e@ == "Stored source mint melt quote does not match the cross-mint transfer"@
            } else {
                r is Ok
            },
        },
{
    if !same_text(stored_request, payment_request) || stored_amount != saga.request.amount_sat {
        return Err("Stored source mint melt quote does not match the cross-mint transfer".to_owned());
    }
    match saga.melt_fee_reserve_sat {
        None => Err("Cashu cross-mint saga has no melt fee reserve".to_owned()),
        Some(f) => {
            if f != stored_fee_reserve_sat {
                return Err("Stored source mint melt quote does not match the cross-mint transfer".to_owned());
            }
            Ok(())
        },
    }
}

// ----- paying the source -----

/// Takes over the fee of a melt the wallet finalized while recovering; it must have been paid.
pub fn record_recovered_payment(
    saga: &mut CashuCrossMintTransferSaga,
    state: MeltQuoteState,
    fee_paid_sat: u64,
) -> (r: Result<(), String>)
    ensures
        state != MeltQuoteState::Paid ==> (r matches Err(e) && e@
            == "Recovered source mint payment finished in unexpected state "@ + melt_state_text(state)
            && *final(saga) == *old(saga)),
        state == MeltQuoteState::Paid ==> (r is Ok && *final(saga) == (CashuCrossMintTransferSaga {
            fee_paid_sat: Some(fee_paid_sat),
            ..*old(saga)
        })),
{
    if state != MeltQuoteState::Paid {
        let mut m = "Recovered source mint payment finished in unexpected state ".to_owned();
        append_text(&mut m, state.as_str());
        return Err(m);
    }
    saga.fee_paid_sat = Some(fee_paid_sat);
    Ok(())
}

/// What the state of the stored melt quote asks for: pay an unpaid one, go
/// on after a paid one, and stop at any other.
pub fn source_payment_action(state: MeltQuoteState) -> (r: Result<SourcePaymentAction, String>)
    ensures
        state == MeltQuoteState::Unpaid ==> (r == Ok::<SourcePaymentAction, String>(SourcePaymentAction::Pay)),
        state == MeltQuoteState::Paid ==> (r == Ok::<SourcePaymentAction, String>(SourcePaymentAction::AlreadyPaid)),
        state != MeltQuoteState::Unpaid && state != MeltQuoteState::Paid ==> (r matches Err(e) && e@
            == "Source mint payment is not recoverable from state "@ + melt_state_text(state)),
{
    match state {
        MeltQuoteState::Unpaid => Ok(SourcePaymentAction::Pay),
        MeltQuoteState::Paid => Ok(SourcePaymentAction::AlreadyPaid),
        _ => {
            let mut m = "Source mint payment is not recoverable from state ".to_owned();
            append_text(&mut m, state.as_str());
            Err(m)
        },
    }
}

/// The message for a preflight fee above the caller's maximum.
pub open spec fn preflight_exceeded_msg(fee: int, max: u64) -> Seq<char> {
    "Source mint preflight fee "@ + decimal(fee as nat) + " sat exceeds caller maximum "@ + decimal(max as nat)
        + " sat"@
}

/// The fee check before paying: the melt fee reserve plus the wallet's input
/// and swap fees must stay within the caller's maximum. When it does, the
/// wallet fee is recorded and the payment may be confirmed; otherwise the
/// prepared payment is to be cancelled.
pub fn preflight_source_payment(
    saga: &mut CashuCrossMintTransferSaga,
    fee_reserve_sat: u64,
    wallet_fee_sat: u64,
) -> (r: Result<u64, String>)
    ensures
        fee_reserve_sat + wallet_fee_sat > u64::MAX ==> (r matches Err(e) && e@
            == "Cashu cross-mint fee overflow"@ && *final(saga) == *old(saga)),
        fee_reserve_sat + wallet_fee_sat <= u64::MAX && fee_reserve_sat + wallet_fee_sat > old(saga).request.max_fee_sat
            ==> (r matches Err(e) && e@ == preflight_exceeded_msg(
            fee_reserve_sat + wallet_fee_sat,
            old(saga).request.max_fee_sat,
        ) && *final(saga) == *old(saga)),
        fee_reserve_sat + wallet_fee_sat <= old(saga).request.max_fee_sat ==> (r == Ok::<u64, String>(
            (fee_reserve_sat + wallet_fee_sat) as u64,
        ) && *final(saga) == (CashuCrossMintTransferSaga { wallet_fee_sat: Some(wallet_fee_sat), ..*old(saga) })),
{
    let preflight = match fee_reserve_sat.checked_add(wallet_fee_sat) {
        None => {
            return Err("Cashu cross-mint fee overflow".to_owned());
        },
        Some(p) => p,
    };
    if preflight > saga.request.max_fee_sat {
        let mut m = text_with_number("Source mint preflight fee ", preflight, " sat exceeds caller maximum ");
        append_decimal(&mut m, saga.request.max_fee_sat);
        append_text(&mut m, " sat");
        return Err(m);
    }
    saga.wallet_fee_sat = Some(wallet_fee_sat);
    Ok(preflight)
}

/// Records the confirmed source payment, which must have ended paid.
pub fn record_source_payment(
    saga: &mut CashuCrossMintTransferSaga,
    state: MeltQuoteState,
    fee_paid_sat: u64,
) -> (r: Result<(), String>)
    ensures
        state != MeltQuoteState::Paid ==> (r matches Err(e) && e@
            == "Source mint payment finished in unexpected state "@ + melt_state_text(state)
            && *final(saga) == *old(saga)),
        state == MeltQuoteState::Paid ==> (r is Ok && *final(saga) == (CashuCrossMintTransferSaga {
            fee_paid_sat: Some(fee_paid_sat),
            ..*old(saga)
        })),
{
    if state != MeltQuoteState::Paid {
        let mut m = "Source mint payment finished in unexpected state ".to_owned();
        append_text(&mut m, state.as_str());
        return Err(m);
    }
    saga.fee_paid_sat = Some(fee_paid_sat);
    Ok(())
}

/// Takes the fee of the wallet's durable record of the paid melt; without
/// such a record the transfer cannot go on.
pub fn record_paid_transaction(saga: &mut CashuCrossMintTransferSaga, transaction_fee_sat: Option<u64>) -> (r:
    Result<u64, String>)
    ensures
        match transaction_fee_sat {
            None => r matches Err(e) && e@ == "Paid source mint transfer has no durable wallet transaction"@
                && *final(saga) == *old(saga),
            Some(f) => r == Ok::<u64, String>(f) && *final(saga) == (CashuCrossMintTransferSaga {
                fee_paid_sat: Some(f),
                ..*old(saga)
            }),
        },
{
    match transaction_fee_sat {
        None => Err("Paid source mint transfer has no durable wallet transaction".to_owned()),
        Some(f) => {
            saga.fee_paid_sat = Some(f);
            Ok(f)
        },
    }
}

// ----- the destination side -----

/// What the refreshed destination quote asks for: it must still be for the
/// requested amount; a paid quote is minted, an issued one is done, an
/// unpaid one after a paid source transfer stops the transfer.
pub fn destination_mint_action(
    request: &CashuCrossMintTransferRequest,
    quote_amount: Option<u64>,
    state: MintQuoteState,
) -> (r: Result<DestinationMintAction, String>)
    ensures
        quote_amount != Some(request.amount_sat) ==> (r matches Err(e) && e@
            == "Destination mint quote amount changed during transfer"@),
        quote_amount == Some(request.amount_sat) ==> match state {
            MintQuoteState::Paid => r == Ok::<DestinationMintAction, String>(DestinationMintAction::Mint),
            MintQuoteState::Issued => r == Ok::<DestinationMintAction, String>(
                DestinationMintAction::AlreadyIssued,
            ),
            MintQuoteState::Unpaid => r matches Err(e) && e@
                == "Paid source transfer has destination mint quote in unexpected state "@ + mint_state_text(
                state,
            ),
        },
{
    if quote_amount != Some(request.amount_sat) {
        return Err("Destination mint quote amount changed during transfer".to_owned());
    }
    match state {
        MintQuoteState::Paid => Ok(DestinationMintAction::Mint),
        MintQuoteState::Issued => Ok(DestinationMintAction::AlreadyIssued),
        MintQuoteState::Unpaid => {
            let mut m = "Paid source transfer has destination mint quote in unexpected state ".to_owned();
            append_text(&mut m, state.as_str());
            Err(m)
        },
    }
}

/// The unit text of the sat currency, `cdk::nuts::CurrencyUnit::Sat.to_string()`.
/// The contract claims that it is `"sat"`: the crate's `Display` writes
/// `"SAT"` normalized to lower case.
#[verifier::external_body]
pub(crate) fn sat_unit() -> (r: String)
    ensures
        r@ == "sat"@,
{
    cdk::nuts::CurrencyUnit::Sat.to_string()
}

/// The message for a destination balance other than the expected one.
pub open spec fn balance_mismatch_msg(after: u64, expected: int) -> Seq<char> {
    "Destination mint balance is "@ + decimal(after as nat) + " sat; expected "@ + decimal(expected as nat)
        + " sat after transfer"@
}

/// The message for a source fee above the caller's maximum.
pub open spec fn charged_msg(fee: u64, max: u64) -> Seq<char> {
    "Source mint charged "@ + decimal(fee as nat) + " sat after a maximum "@ + decimal(max as nat)
        + " sat preflight"@
}

/// The transfer a finished saga reports.
pub open spec fn transfer_result_ok(
    t: CashuCrossMintTransfer,
    s: CashuCrossMintTransferSaga,
    source_quote_id: Seq<char>,
    destination_quote_id: Seq<char>,
    fee_paid_sat: u64,
    destination_balance_after_sat: u64,
) -> bool {
    &&& t.transfer_id@ == s.request.transfer_id@
    &&& t.source_mint_url@ == s.request.source_mint_url@
    &&& t.destination_mint_url@ == s.request.destination_mint_url@
    &&& t.unit@ == "sat"@
    &&& t.amount_sat == s.request.amount_sat
    &&& t.max_fee_sat == s.request.max_fee_sat
    &&& t.melt_fee_reserve_sat == (match s.melt_fee_reserve_sat { Some(f) => f, None => 0 })
    &&& t.wallet_fee_sat == (match s.wallet_fee_sat { Some(f) => f, None => 0 })
    &&& t.fee_paid_sat == fee_paid_sat
    &&& t.source_melt_quote_id@ == source_quote_id
    &&& t.destination_mint_quote_id@ == destination_quote_id
    &&& t.destination_balance_before_sat == s.destination_balance_before_sat
    &&& t.destination_balance_after_sat == destination_balance_after_sat
}

/// Accepts the transfer once the destination balance grew by exactly the
/// requested amount and the source fee stayed within the caller's maximum;
/// the saga then keeps the result, so a retry answers with it.
pub fn finish_cross_mint_transfer(
    saga: &mut CashuCrossMintTransferSaga,
    source_quote_id: String,
    destination_quote_id: String,
    fee_paid_sat: u64,
    destination_balance_after_sat: u64,
) -> (r: Result<CashuCrossMintTransfer, String>)
    ensures
        r is Ok ==> destination_balance_after_sat == old(saga).destination_balance_before_sat
            + old(saga).request.amount_sat && fee_paid_sat <= old(saga).request.max_fee_sat,
        ({
            let s = *old(saga);
            let expected = s.destination_balance_before_sat + s.request.amount_sat;
            if expected > u64::MAX {
                r matches Err(e) && e@ == "Destination mint balance overflow"@ && *final(saga) == s
            } else if destination_balance_after_sat != expected {
                r matches Err(e) && e@ == balance_mismatch_msg(destination_balance_after_sat, expected)
                    && *final(saga) == s
            } else if fee_paid_sat > s.request.max_fee_sat {
                r matches Err(e) && e@ == charged_msg(fee_paid_sat, s.request.max_fee_sat) && *final(saga)
                    == s
            } else {
                r matches Ok(t) && transfer_result_ok(
                    t,
                    s,
                    source_quote_id@,
                    destination_quote_id@,
                    fee_paid_sat,
                    destination_balance_after_sat,
                ) && *final(saga) == (CashuCrossMintTransferSaga { result: Some(t), ..s })
            }
        }),
{
    let expected = match saga.destination_balance_before_sat.checked_add(saga.request.amount_sat) {
        None => {
            return Err("Destination mint balance overflow".to_owned());
        },
        Some(e) => e,
    };
    if destination_balance_after_sat != expected {
        let mut m = text_with_number("Destination mint balance is ", destination_balance_after_sat, " sat; expected ");
        append_decimal(&mut m, expected);
        append_text(&mut m, " sat after transfer");
        return Err(m);
    }
    if fee_paid_sat > saga.request.max_fee_sat {
        let mut m = text_with_number("Source mint charged ", fee_paid_sat, " sat after a maximum ");
        append_decimal(&mut m, saga.request.max_fee_sat);
        append_text(&mut m, " sat preflight");
        return Err(m);
    }
    let melt_fee_reserve_sat = match saga.melt_fee_reserve_sat {
        Some(f) => f,
        None => 0,
    };
    let wallet_fee_sat = match saga.wallet_fee_sat {
        Some(f) => f,
        None => 0,
    };
    let result = CashuCrossMintTransfer {
        transfer_id: saga.request.transfer_id.as_str().to_owned(),
        source_mint_url: saga.request.source_mint_url.as_str().to_owned(),
        destination_mint_url: saga.request.destination_mint_url.as_str().to_owned(),
        unit: sat_unit(),
        amount_sat: saga.request.amount_sat,
        max_fee_sat: saga.request.max_fee_sat,
        melt_fee_reserve_sat,
        wallet_fee_sat,
        fee_paid_sat,
        source_melt_quote_id: source_quote_id,
        destination_mint_quote_id: destination_quote_id,
        destination_balance_before_sat: saga.destination_balance_before_sat,
        destination_balance_after_sat,
    };
    let kept = copy_transfer(&result);
    saga.result = Some(kept);
    Ok(result)
}

/// A field-by-field copy of a transfer result.
fn copy_transfer(t: &CashuCrossMintTransfer) -> (r: CashuCrossMintTransfer)
    ensures
        r == *t,
{
    CashuCrossMintTransfer {
        transfer_id: t.transfer_id.clone(),
        source_mint_url: t.source_mint_url.clone(),
        destination_mint_url: t.destination_mint_url.clone(),
        unit: t.unit.clone(),
        amount_sat: t.amount_sat,
        max_fee_sat: t.max_fee_sat,
        melt_fee_reserve_sat: t.melt_fee_reserve_sat,
        wallet_fee_sat: t.wallet_fee_sat,
        fee_paid_sat: t.fee_paid_sat,
        source_melt_quote_id: t.source_melt_quote_id.clone(),
        destination_mint_quote_id: t.destination_mint_quote_id.clone(),
        destination_balance_before_sat: t.destination_balance_before_sat,
        destination_balance_after_sat: t.destination_balance_after_sat,
    }
}

/// A retry of the request a transfer finished with is answered with that
/// transfer, and never runs the transfer again.
pub proof fn law_retry_returns_finished_transfer(
    s: CashuCrossMintTransferSaga,
    t: CashuCrossMintTransfer,
    request: CashuCrossMintTransferRequest,
)
    requires
        s.version == K_CROSS_MINT_TRANSFER_VERSION,
        same_request(s.request, request),
    ensures
        spec_resume(Some(CashuCrossMintTransferSaga { result: Some(t), ..s }), request) == Some(
            Ok::<Option<CashuCrossMintTransfer>, Seq<char>>(Some(t)),
        ),
{
}

/// A transfer id, once bound, refuses every request that differs from the
/// one it was bound to.
pub proof fn law_transfer_id_binds_request(
    s: CashuCrossMintTransferSaga,
    request: CashuCrossMintTransferRequest,
)
    requires
        !same_request(s.request, request),
    ensures
        spec_resume(Some(s), request) == Some(
            Err::<Option<CashuCrossMintTransfer>, Seq<char>>(rebound_msg(request.transfer_id@)),
        ),
{
}

/// Under a stored saga of the current version, a request is taken up only if
/// it is the very request the transfer id was bound with: the same transfer
/// id, source mint URL, destination mint URL, amount and maximum fee. It is
/// then answered with the saga's result (or resumed when there is none); a
/// request that differs in any one of them is refused as rebound, and so is
/// every request under a saga of another version.
pub proof fn law_resume_requires_the_bound_request(
    s: CashuCrossMintTransferSaga,
    request: CashuCrossMintTransferRequest,
)
    ensures
        ({
            let b = s.request;
            let identical = b.transfer_id@ == request.transfer_id@ && b.source_mint_url@
                == request.source_mint_url@ && b.destination_mint_url@ == request.destination_mint_url@
                && b.amount_sat == request.amount_sat && b.max_fee_sat == request.max_fee_sat;
            let refused = Some(
                Err::<Option<CashuCrossMintTransfer>, Seq<char>>(
                    "Cashu cross-mint transfer id "@ + request.transfer_id@
                        + " is already bound to a different request"@,
                ),
            );
            &&& s.version == K_CROSS_MINT_TRANSFER_VERSION && identical ==> spec_resume(Some(s), request)
                == Some(Ok::<Option<CashuCrossMintTransfer>, Seq<char>>(s.result))
            &&& !identical ==> spec_resume(Some(s), request) == refused
            &&& s.version != K_CROSS_MINT_TRANSFER_VERSION ==> spec_resume(Some(s), request) == refused
            &&& spec_resume(Some(s), request) matches Some(Ok(_)) ==> identical
        }),
{
}

} // verus!
