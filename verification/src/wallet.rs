//! Wallet data, mint URL normalization, cross-mint transfer requests, and the
//! wallet activity log.
use vstd::prelude::*;
use crate::receiver::{join_path, path_join, strip_slashes, trim_end_slashes};
use crate::text::{chars_of, same_text, trim_text, trimmed};
use crate::textbuf::join2;

verus! {

pub const CASHU_WALLET_SEED_VERSION: u32 = 1;

/// Largest number of activity entries kept.
pub const K_MAX_WALLET_ACTIVITY_ENTRIES: usize = 200;

#[derive(Debug, Clone, PartialEq, Eq)]
pub struct CashuWalletSeedFile {
    pub version: u32,
    pub seed_hex: String,
}

#[derive(Debug, Clone, PartialEq, Eq)]
pub struct CashuWalletEntry {
    pub mint_url: String,
    pub unit: String,
    pub balance: u64,
}

#[derive(Debug, Clone, PartialEq, Eq)]
pub struct CashuUnitTotal {
    pub unit: String,
    pub balance: u64,
}

#[derive(Debug, Clone, PartialEq, Eq, Default)]
pub struct CashuWalletOverview {
    pub totals: Vec<CashuUnitTotal>,
    pub entries: Vec<CashuWalletEntry>,
    pub warnings: Vec<String>,
    pub legacy_state_detected: bool,
}

#[derive(Debug, Clone, PartialEq, Eq)]
pub struct CashuTopupQuote {
    pub mint_url: String,
    pub unit: String,
    pub amount: u64,
    pub quote_id: String,
    pub payment_request: String,
    pub expiry_unix: u64,
}

#[derive(Debug, Clone, PartialEq, Eq)]
pub struct CashuCrossMintTransferRequest {
    /// Caller-owned idempotency key. Reusing it resumes or returns the same transfer.
    pub transfer_id: String,
    /// Caller-selected and caller-approved source mint.
    pub source_mint_url: String,
    /// Caller-selected and caller-approved destination mint.
    pub destination_mint_url: String,
    pub amount_sat: u64,
    /// Maximum total source-side fee, including the melt reserve and wallet input fees.
    pub max_fee_sat: u64,
}

#[derive(Debug, Clone, PartialEq, Eq)]
pub struct CashuCrossMintTransfer {
    pub transfer_id: String,
    pub source_mint_url: String,
    pub destination_mint_url: String,
    pub unit: String,
    pub amount_sat: u64,
    pub max_fee_sat: u64,
    pub melt_fee_reserve_sat: u64,
    pub wallet_fee_sat: u64,
    pub fee_paid_sat: u64,
    pub source_melt_quote_id: String,
    pub destination_mint_quote_id: String,
    pub destination_balance_before_sat: u64,
    pub destination_balance_after_sat: u64,
}

#[derive(Debug, Clone, Copy, PartialEq, Eq, Structural)]
pub enum CashuWalletActivityKind {
    TopUp,
    LightningPayment,
    TokenSend,
    TokenReceive,
    ChannelCollect,
}

#[derive(Debug, Clone, Copy, PartialEq, Eq, Structural)]
pub enum CashuWalletActivityStatus {
    Pending,
    Complete,
    Reclaimed,
    Expired,
}

#[derive(Debug, Clone, PartialEq, Eq)]
pub struct CashuWalletActivityEntry {
    pub id: String,
    pub kind: CashuWalletActivityKind,
    pub status: CashuWalletActivityStatus,
    pub mint_url: String,
    pub unit: String,
    pub amount_sat: u64,
    pub fee_sat: Option<u64>,
    pub created_at_unix: u64,
    pub expires_at_unix: Option<u64>,
    pub quote_id: Option<String>,
    pub operation_id: Option<String>,
    pub payment_request: Option<String>,
    pub token: Option<String>,
}

// ----- file layout -----

pub fn cashu_wallet_dir(data_dir: &str) -> (r: String)
    ensures
        r@ == join_path(data_dir@, "cashu"@),
{
    path_join(data_dir, "cashu")
}

pub fn cashu_wallet_db_path(data_dir: &str) -> (r: String)
    ensures
        r@ == join_path(join_path(data_dir@, "cashu"@), "wallet.sqlite"@),
{
    let dir = cashu_wallet_dir(data_dir);
    path_join(dir.as_str(), "wallet.sqlite")
}

pub fn cashu_wallet_seed_path(data_dir: &str) -> (r: String)
    ensures
        r@ == join_path(join_path(data_dir@, "cashu"@), "seed.json"@),
{
    let dir = cashu_wallet_dir(data_dir);
    path_join(dir.as_str(), "seed.json")
}

pub fn legacy_cashu_wallet_state_path(data_dir: &str) -> (r: String)
    ensures
        r@ == join_path(data_dir@, "cashu-wallet.json"@),
{
    path_join(data_dir, "cashu-wallet.json")
}

// ----- mint URLs -----

/// What parsing a URL gives the normalization: its scheme, whether it has a
/// query, whether it has a fragment, and its path.
#[derive(Debug, Clone, PartialEq, Eq)]
pub struct ParsedUrl {
    pub scheme: String,
    pub has_query: bool,
    pub has_fragment: bool,
    pub path: String,
}

/// The scheme, query presence, fragment presence and path of the URL that
/// `url::Url::parse` reads from a text, or `None` where it refuses the text.
pub uninterp spec fn url_parts(raw: Seq<char>) -> Option<(Seq<char>, bool, bool, Seq<char>)>;

/// The serialization of the URL parsed from `raw` after `set_path(path)`, or
/// `None` where `raw` does not parse.
pub uninterp spec fn url_text_with_path(raw: Seq<char>, path: Seq<char>) -> Option<Seq<char>>;

/// Calls `url::Url::parse` and reads the parsed URL's `scheme`, `query`,
/// `fragment` and `path`. The contract claims only that the result is what
/// those calls give for this text (a function of the text alone).
#[verifier::external_body]
fn parse_url(raw: &str) -> (r: Option<ParsedUrl>)
    ensures
        match url_parts(raw@) {
            None => r is None,
            Some((s, q, f, p)) => r matches Some(u) && u.scheme@ == s && u.has_query == q
                && u.has_fragment == f && u.path@ == p,
        },
{
    match url::Url::parse(raw) {
        Ok(u) => Some(
            ParsedUrl {
                scheme: u.scheme().to_string(),
                has_query: u.query().is_some(),
                has_fragment: u.fragment().is_some(),
                path: u.path().to_string(),
            },
        ),
        Err(_) => None,
    }
}

/// Calls `url::Url::parse`, then `url::Url::set_path`, and serializes the
/// result. The contract claims that the result is a function of the two texts
/// and that it is present exactly where the text parses (the same parse call
/// as [`parse_url`]).
#[verifier::external_body]
fn url_with_path(raw: &str, path: &str) -> (r: Option<String>)
    ensures
        r is Some <==> url_parts(raw@) is Some,
        r is Some <==> url_text_with_path(raw@, path@) is Some,
        r matches Some(s) ==> s@ == url_text_with_path(raw@, path@)->0,
{
    match url::Url::parse(raw) {
        Ok(mut u) => {
            u.set_path(path);
            Some(u.to_string())
        },
        Err(_) => None,
    }
}

pub open spec fn invalid_mint_msg(raw: Seq<char>) -> Seq<char> {
    "Invalid mint URL: "@ + raw
}

/// What the parsed parts of a mint URL decide: the path to set (trailing
/// slashes removed), or why the URL is refused.
pub open spec fn spec_mint_url_path(raw: Seq<char>, parts: Option<(Seq<char>, bool, bool, Seq<char>)>) -> Result<
    Seq<char>,
    Seq<char>,
> {
    match parts {
        None => Err(invalid_mint_msg(raw)),
        Some((scheme, q, f, path)) => if scheme != "http"@ && scheme != "https"@ {
            Err("Unsupported mint URL scheme: "@ + scheme)
        } else if q || f {
            Err("Mint URL must not include query or fragment"@)
        } else {
            Ok(strip_slashes(path))
        },
    }
}

/// A mint URL: `http` or `https`, without query or fragment, with trailing
/// slashes removed from the path and from the serialized URL.
pub open spec fn spec_normalize_mint_url(raw: Seq<char>) -> Result<Seq<char>, Seq<char>> {
    match spec_mint_url_path(raw, url_parts(raw)) {
        Err(e) => Err(e),
        Ok(path) => match url_text_with_path(raw, path) {
            Some(s) => Ok(strip_slashes(s)),
            None => Err(invalid_mint_msg(raw)),
        },
    }
}

/// Decide on parsed URL parts: the path to set, or the refusal.
pub fn mint_url_path(raw: &str, parts: &Option<ParsedUrl>) -> (r: Result<String, String>)
    ensures
        match spec_mint_url_path(
            raw@,
            match parts {
                Some(u) => Some((u.scheme@, u.has_query, u.has_fragment, u.path@)),
                None => None,
            },
        ) {
            Ok(p) => r matches Ok(x) && x@ == p,
            Err(m) => r matches Err(e) && e@ == m,
        },
{
    match parts {
        None => Err(join2("Invalid mint URL: ", raw)),
        Some(u) => {
            if !same_text(u.scheme.as_str(), "http") && !same_text(u.scheme.as_str(), "https") {
                return Err(join2("Unsupported mint URL scheme: ", u.scheme.as_str()));
            }
            if u.has_query || u.has_fragment {
                return Err("Mint URL must not include query or fragment".to_owned());
            }
            Ok(trim_end_slashes(u.path.as_str()))
        },
    }
}

/// Normalize a caller-supplied mint URL.
pub fn normalize_mint_url(raw: &str) -> (r: Result<String, String>)
    ensures
        match spec_normalize_mint_url(raw@) {
            Ok(s) => r matches Ok(x) && x@ == s,
            Err(m) => r matches Err(e) && e@ == m,
        },
{
    let parts = parse_url(raw);
    let path = mint_url_path(raw, &parts)?;
    match url_with_path(raw, path.as_str()) {
        Some(s) => Ok(trim_end_slashes(s.as_str())),
        None => Err(join2("Invalid mint URL: ", raw)),
    }
}

// ----- cross-mint transfer requests -----

/// Characters a transfer id may hold: ASCII letters, digits, `-` and `_`.
pub open spec fn is_id_char(c: char) -> bool {
    ('a' <= c <= 'z') || ('A' <= c <= 'Z') || ('0' <= c <= '9') || c == '-' || c == '_'
}

/// A transfer id of 1 to 128 allowed characters.
pub open spec fn valid_transfer_id(t: Seq<char>) -> bool {
    0 < t.len() <= 128 && forall|i: int| 0 <= i < t.len() ==> is_id_char(#[trigger] t[i])
}

pub open spec fn spec_transfer_request(
    transfer_id: Seq<char>,
    source: Seq<char>,
    destination: Seq<char>,
    amount_sat: u64,
) -> Result<(Seq<char>, Seq<char>, Seq<char>), Seq<char>> {
    let id = trimmed(transfer_id);
    if !valid_transfer_id(id) {
        Err("Cashu cross-mint transfer id must be 1-128 ASCII letters, digits, '-' or '_'"@)
    } else if amount_sat == 0 {
        Err("Cashu cross-mint transfer amount must be greater than zero"@)
    } else if amount_sat * 1000 > u64::MAX {
        Err("Cashu cross-mint transfer amount is too large"@)
    } else {
        match spec_normalize_mint_url(source) {
            Err(e) => Err(e),
            Ok(s) => match spec_normalize_mint_url(destination) {
                Err(e) => Err(e),
                Ok(d) => if s == d {
                    Err("Cashu cross-mint transfer requires two different mints"@)
                } else {
                    Ok((id, s, d))
                },
            },
        }
    }
}

fn id_char(c: char) -> (b: bool)
    ensures
        b == is_id_char(c),
{
    ('a' <= c && c <= 'z') || ('A' <= c && c <= 'Z') || ('0' <= c && c <= '9') || c == '-' || c
        == '_'
}

fn transfer_id_ok(t: &str) -> (b: bool)
    ensures
        b == valid_transfer_id(t@),
{
    let v = chars_of(t);
    if v.len() == 0 || v.len() > 128 {
        return false;
    }
    let mut i: usize = 0;
    while i < v.len()
        invariant
            v@ == t@,
            i <= v.len(),
            forall|j: int| 0 <= j < i ==> is_id_char(#[trigger] t@[j]),
        decreases v.len() - i,
    {
        if !id_char(v[i]) {
            return false;
        }
        i = i + 1;
    }
    true
}

/// Trim and check the transfer id, check the amount, and normalize both mint
/// URLs, which must differ.
pub fn normalize_cross_mint_transfer_request(request: CashuCrossMintTransferRequest) -> (r: Result<
    CashuCrossMintTransferRequest,
    String,
>)
    ensures
        match spec_transfer_request(
            request.transfer_id@,
            request.source_mint_url@,
            request.destination_mint_url@,
            request.amount_sat,
        ) {
            Ok((id, s, d)) => r matches Ok(n) && n.transfer_id@ == id && n.source_mint_url@ == s
                && n.destination_mint_url@ == d && n.amount_sat == request.amount_sat
                && n.max_fee_sat == request.max_fee_sat,
            Err(m) => r matches Err(e) && e@ == m,
        },
{
    let transfer_id = trim_text(request.transfer_id.as_str());
    if !transfer_id_ok(transfer_id.as_str()) {
        return Err(
            "Cashu cross-mint transfer id must be 1-128 ASCII letters, digits, '-' or '_'".to_owned(),
        );
    }
    if request.amount_sat == 0 {
        return Err("Cashu cross-mint transfer amount must be greater than zero".to_owned());
    }
    if request.amount_sat.checked_mul(1000).is_none() {
        return Err("Cashu cross-mint transfer amount is too large".to_owned());
    }
    let source = normalize_mint_url(request.source_mint_url.as_str())?;
    let destination = normalize_mint_url(request.destination_mint_url.as_str())?;
    if same_text(source.as_str(), destination.as_str()) {
        return Err("Cashu cross-mint transfer requires two different mints".to_owned());
    }
    Ok(
        CashuCrossMintTransferRequest {
            transfer_id,
            source_mint_url: source,
            destination_mint_url: destination,
            amount_sat: request.amount_sat,
            max_fee_sat: request.max_fee_sat,
        },
    )
}

} // verus!
