//! What the wallet reads from the texts its callers hand it before any mint or
//! store work: a Cashu token to receive, a list of proofs to import, and the
//! id of a send operation to revoke. Each text is parsed by the Cashu and UUID
//! crates; which parsed values are accepted, and which refusal each input
//! gets, is decided here.
use vstd::prelude::*;
use crate::text::trimmed;
use crate::textbuf::append_text;
use crate::wallet::{normalize_mint_url, spec_normalize_mint_url};
use crate::wallet_ops::check_proof_unit;

verus! {

// ----- a token to receive -----

/// What receiving a token reads from it: the text of its one mint URL, if it
/// names exactly one, and the text of its unit, if it states one, with whether
/// that unit is sat.
#[derive(Debug, Clone, PartialEq, Eq)]
pub struct CashuTokenHead {
    pub mint_url: Option<String>,
    pub unit: Option<(String, bool)>,
}

/// The view of a token's parse outcome.
pub open spec fn token_head_view(parsed: Option<CashuTokenHead>) -> Option<
    (Option<Seq<char>>, Option<(Seq<char>, bool)>),
> {
    match parsed {
        None => None,
        Some(h) => Some(
            (
                match h.mint_url {
                    Some(m) => Some(m@),
                    None => None,
                },
                match h.unit {
                    Some((u, sat)) => Some((u@, sat)),
                    None => None,
                },
            ),
        ),
    }
}

/// What parsing a text as a Cashu token gives: `None` where it is not a token,
/// otherwise its mint URL text (absent unless the token names exactly one
/// mint) and its unit text with whether the unit is sat (absent where the
/// token states none).
pub uninterp spec fn token_mint_and_unit(encoded: Seq<char>) -> Option<
    (Option<Seq<char>>, Option<(Seq<char>, bool)>),
>;

/// Parses a token with `cdk::nuts::Token::from_str`, then reads
/// `Token::mint_url` and `Token::unit`, comparing the unit with
/// `CurrencyUnit::Sat`. The contract claims only that the outcome is a
/// function of the text: which texts are tokens, and what they hold, is the
/// parser's.
#[verifier::external_body]
fn parse_token_head(encoded: &str) -> (r: Option<CashuTokenHead>)
    ensures
        token_head_view(r) == token_mint_and_unit(encoded@),
{
    let token = match encoded.parse::<cdk::nuts::Token>() {
        Ok(t) => t,
        Err(_) => return None,
    };
    let mint_url = token.mint_url().ok().map(|m| m.to_string());
    let unit = match token.unit() {
        Some(u) => Some((u.to_string(), u == cdk::nuts::CurrencyUnit::Sat)),
        None => None,
    };
    Some(CashuTokenHead { mint_url, unit })
}

/// The mint a token is received at, or why it is refused: it must parse, name
/// exactly one mint, and be in sat (a token that states no unit is in sat),
/// and its mint URL must normalize.
pub open spec fn spec_received_token_mint(
    parsed: Option<(Option<Seq<char>>, Option<(Seq<char>, bool)>)>,
) -> Result<Seq<char>, Seq<char>> {
    match parsed {
        None => Err("Failed to parse Cashu token"@),
        Some((None, _)) => Err("Cashu token must contain exactly one mint"@),
        Some((Some(mint), unit)) => match unit {
            Some((u, is_sat)) => if !is_sat {
                Err("Unsupported Cashu token unit: "@ + u)
            } else {
                spec_normalize_mint_url(mint)
            },
            None => spec_normalize_mint_url(mint),
        },
    }
}

/// Decide on a token's parse outcome: the normalized mint to receive it at,
/// or the refusal.
pub fn received_token_mint(parsed: &Option<CashuTokenHead>) -> (r: Result<String, String>)
    ensures
        match spec_received_token_mint(token_head_view(*parsed)) {
            Ok(m) => r matches Ok(x) && x@ == m,
            Err(m) => r matches Err(e) && e@ == m,
        },
{
    match parsed {
        None => Err("Failed to parse Cashu token".to_owned()),
        Some(head) => match &head.mint_url {
            None => Err("Cashu token must contain exactly one mint".to_owned()),
            Some(mint) => {
                match &head.unit {
                    Some((u, is_sat)) => {
                        if !*is_sat {
                            let mut m = "Unsupported Cashu token unit: ".to_owned();
                            append_text(&mut m, u.as_str());
                            return Err(m);
                        }
                    },
                    None => {},
                }
                normalize_mint_url(mint.as_str())
            },
        },
    }
}

/// Check a token before receiving it: the normalized mint it is received at,
/// or the refusal.
pub fn check_received_token(encoded: &str) -> (r: Result<String, String>)
    ensures
        match spec_received_token_mint(token_mint_and_unit(encoded@)) {
            Ok(m) => r matches Ok(x) && x@ == m,
            Err(m) => r matches Err(e) && e@ == m,
        },
{
    let parsed = parse_token_head(encoded);
    received_token_mint(&parsed)
}

// ----- proofs to import -----

/// The views of a list of proof keys: each proof's `Y` text and amount.
pub open spec fn key_views(keys: Seq<(String, u64)>) -> Seq<(Seq<char>, u64)> {
    keys.map_values(|k: (String, u64)| (k.0@, k.1))
}

/// The view of a proof list's parse outcome.
pub open spec fn parsed_keys_view(parsed: Option<Option<Vec<(String, u64)>>>) -> Option<
    Option<Seq<(Seq<char>, u64)>>,
> {
    match parsed {
        None => None,
        Some(None) => Some(None),
        Some(Some(keys)) => Some(Some(key_views(keys@))),
    }
}

/// What reading a text as a JSON list of Cashu proofs gives: `None` where it
/// is not one; `Some(None)` where the `Y` of some proof cannot be computed;
/// otherwise, in the list's order, each proof's `Y` text and amount.
pub uninterp spec fn proof_keys(proofs_json: Seq<char>) -> Option<Option<Seq<(Seq<char>, u64)>>>;

/// Reads a JSON list with `serde_json::from_str::<Vec<cdk::nuts::Proof>>`,
/// then computes each proof's `Proof::y` (hash to curve of its secret) and
/// reads its amount. The contract claims only that the outcome is a function
/// of the text: which texts are proof lists, and the points they hash to, are
/// the parser's and the curve's.
#[verifier::external_body]
fn parse_proof_keys(proofs_json: &str) -> (r: Option<Option<Vec<(String, u64)>>>)
    ensures
        parsed_keys_view(r) == proof_keys(proofs_json@),
{
    match serde_json::from_str::<Vec<cdk::nuts::Proof>>(proofs_json) {
        Ok(proofs) => Some(
            proofs.iter().map(|p| p.y().ok().map(|y| (y.to_string(), p.amount.to_u64()))).collect(),
        ),
        Err(_) => None,
    }
}

/// Whether two lists give, position by position, the `Y` texts and the
/// amounts of a list of proof keys.
pub open spec fn split_keys(ys: Seq<String>, amounts: Seq<u64>, keys: Seq<(Seq<char>, u64)>) -> bool {
    &&& ys.len() == keys.len()
    &&& amounts.len() == keys.len()
    &&& forall|i: int| 0 <= i < keys.len() ==> (#[trigger] ys[i])@ == keys[i].0 && amounts[i] == keys[i].1
}

/// The keys of a proof list's parse outcome, or why the list is refused.
pub open spec fn spec_proof_keys(parsed: Option<Option<Seq<(Seq<char>, u64)>>>) -> Result<
    Seq<(Seq<char>, u64)>,
    Seq<char>,
> {
    match parsed {
        None => Err("Failed to parse Cashu payment proofs"@),
        Some(None) => Err("Failed to prepare Cashu proof import"@),
        Some(Some(keys)) => Ok(keys),
    }
}

/// Decide on a proof list's parse outcome: the `Y` texts and the amounts of
/// its proofs, in order, or the refusal.
pub fn split_proof_keys(parsed: Option<Option<Vec<(String, u64)>>>) -> (r: Result<(Vec<String>, Vec<u64>), String>)
    ensures
        match spec_proof_keys(parsed_keys_view(parsed)) {
            Ok(keys) => r matches Ok((ys, amounts)) && split_keys(ys@, amounts@, keys),
            Err(m) => r matches Err(e) && e@ == m,
        },
{
    match parsed {
        None => Err("Failed to parse Cashu payment proofs".to_owned()),
        Some(None) => Err("Failed to prepare Cashu proof import".to_owned()),
        Some(Some(keys)) => {
            let mut ys: Vec<String> = Vec::new();
            let mut amounts: Vec<u64> = Vec::new();
            let mut i: usize = 0;
            while i < keys.len()
                invariant
                    i <= keys.len(),
                    split_keys(ys@, amounts@, key_views(keys@).take(i as int)),
                decreases keys.len() - i,
            {
                ys.push(keys[i].0.clone());
                amounts.push(keys[i].1);
                i = i + 1;
            }
            assert(key_views(keys@).take(keys.len() as int) == key_views(keys@));
            Ok((ys, amounts))
        },
    }
}

/// What an import of proofs is made of, or why it is refused, checked in
/// this order: the unit must be sat once trimmed, the mint URL must
/// normalize, and the proof list must parse.
pub open spec fn spec_proof_import(
    mint_url: Seq<char>,
    unit: Seq<char>,
    parsed: Option<Option<Seq<(Seq<char>, u64)>>>,
) -> Result<(Seq<char>, Seq<(Seq<char>, u64)>), Seq<char>> {
    if trimmed(unit) != "sat"@ {
        Err("Unsupported Cashu proof unit: "@ + trimmed(unit))
    } else {
        match spec_normalize_mint_url(mint_url) {
            Err(e) => Err(e),
            Ok(m) => match spec_proof_keys(parsed) {
                Err(e) => Err(e),
                Ok(keys) => Ok((m, keys)),
            },
        }
    }
}

/// Check an import of proofs: the normalized mint, and the `Y` texts and
/// amounts of the proofs in the order given, or the refusal.
pub fn proof_import_keys(mint_url: &str, unit: &str, proofs_json: &str) -> (r: Result<
    (String, Vec<String>, Vec<u64>),
    String,
>)
    ensures
        match spec_proof_import(mint_url@, unit@, proof_keys(proofs_json@)) {
            Ok((m, keys)) => r matches Ok((x, ys, amounts)) && x@ == m && split_keys(ys@, amounts@, keys),
            Err(m) => r matches Err(e) && e@ == m,
        },
{
    check_proof_unit(unit)?;
    let normalized = normalize_mint_url(mint_url)?;
    let parsed = parse_proof_keys(proofs_json);
    let (ys, amounts) = split_proof_keys(parsed)?;
    Ok((normalized, ys, amounts))
}

// ----- a send operation to revoke -----

/// Whether `uuid::Uuid::parse_str` accepts a text.
pub uninterp spec fn operation_id_parses(id: Seq<char>) -> bool;

/// Calls `uuid::Uuid::parse_str`, the parser behind `str::parse` for a
/// `Uuid`. The contract claims only that acceptance is a function of the
/// text.
#[verifier::external_body]
pub(crate) fn parse_operation_id(id: &str) -> (r: bool)
    ensures
        r == operation_id_parses(id@),
{
    uuid::Uuid::parse_str(id).is_ok()
}

/// A send operation is named by a UUID.
pub fn check_operation_id(id: &str) -> (r: Result<(), String>)
    ensures
        r is Ok <==> operation_id_parses(id@),
        r matches Err(e) ==> e@ == "Invalid Cashu send operation id"@,
{
    if !parse_operation_id(id) {
        return Err("Invalid Cashu send operation id".to_owned());
    }
    Ok(())
}

} // verus!
