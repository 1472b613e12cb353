//! Wallet seed files and activity ids: the hex text they hold.
use vstd::prelude::*;
use crate::textbuf::{append_decimal, append_text, decimal};
use crate::wallet::{CashuWalletSeedFile, CASHU_WALLET_SEED_VERSION};

verus! {

/// A hexadecimal digit of either case.
pub open spec fn is_hex_char(c: char) -> bool {
    ('0' <= c <= '9') || ('a' <= c <= 'f') || ('A' <= c <= 'F')
}

/// The value of a hexadecimal digit.
pub open spec fn hex_val(c: char) -> int {
    if '0' <= c <= '9' {
        c as int - '0' as int
    } else if 'a' <= c <= 'f' {
        c as int - 'a' as int + 10
    } else {
        c as int - 'A' as int + 10
    }
}

/// The lower-case hexadecimal digit of a value below 16.
pub open spec fn hex_digit(d: int) -> char {
    if d < 10 {
        (48 + d) as char
    } else {
        (87 + d) as char
    }
}

/// Text that `hex::decode` accepts: an even number of hexadecimal digits.
pub open spec fn is_hex_text(s: Seq<char>) -> bool {
    s.len() % 2 == 0 && forall|i: int| 0 <= i < s.len() ==> is_hex_char(#[trigger] s[i])
}

/// The bytes that a text of hexadecimal digit pairs stands for.
pub open spec fn hex_bytes(s: Seq<char>) -> Seq<u8> {
    Seq::new((s.len() / 2) as nat, |i: int| (16 * hex_val(s[2 * i]) + hex_val(s[2 * i + 1])) as u8)
}

/// Lower-case hexadecimal text of bytes, two digits per byte.
pub open spec fn hex_text(b: Seq<u8>) -> Seq<char> {
    Seq::new(2 * b.len(), |i: int| if i % 2 == 0 {
        hex_digit(b[i / 2] as int / 16)
    } else {
        hex_digit(b[i / 2] as int % 16)
    })
}

/// `hex::decode`: per its documentation and source, an odd number of bytes
/// or any byte that is not a hexadecimal digit (either case) is refused;
/// otherwise each digit pair gives one byte, high digit first.
#[verifier::external_body]
fn hex_decode(s: &str) -> (r: Option<Vec<u8>>)
    ensures
        r is Some <==> is_hex_text(s@),
        r matches Some(b) ==> b@ == hex_bytes(s@),
{
    hex::decode(s).ok()
}

/// `hex::encode`: per its documentation, two lower-case hexadecimal digits
/// per byte, high digit first.
#[verifier::external_body]
fn hex_encode(b: &[u8]) -> (r: String)
    ensures
        r@ == hex_text(b@),
{
    hex::encode(b)
}

/// The seed a seed file holds: its hex text decoded, which must be 64 bytes.
pub fn wallet_seed_from_file(file: &CashuWalletSeedFile) -> (r: Result<Vec<u8>, String>)
    ensures
        !is_hex_text(file.seed_hex@) ==> (r matches Err(e) && e@ == "Invalid Cashu wallet seed"@),
        is_hex_text(file.seed_hex@) && hex_bytes(file.seed_hex@).len() != 64 ==> (r matches Err(e)
            && e@ == "Cashu wallet seed must be 64 bytes"@),
        is_hex_text(file.seed_hex@) && hex_bytes(file.seed_hex@).len() == 64 ==> (r matches Ok(b)
            && b@ == hex_bytes(file.seed_hex@)),
{
    match hex_decode(file.seed_hex.as_str()) {
        None => Err("Invalid Cashu wallet seed".to_owned()),
        Some(bytes) => {
            if bytes.len() != 64 {
                Err("Cashu wallet seed must be 64 bytes".to_owned())
            } else {
                Ok(bytes)
            }
        },
    }
}

/// The seed file written for a seed: the current version and the seed as
/// lower-case hex.
pub fn wallet_seed_file(seed: &[u8]) -> (f: CashuWalletSeedFile)
    ensures
        f.version == CASHU_WALLET_SEED_VERSION,
        f.seed_hex@ == hex_text(seed@),
{
    CashuWalletSeedFile { version: CASHU_WALLET_SEED_VERSION, seed_hex: hex_encode(seed) }
}

/// An activity id: the creation time, a dash, and random suffix bytes in hex.
pub fn wallet_activity_id(now_unix: u64, suffix: &[u8]) -> (r: String)
    ensures
        r@ == decimal(now_unix as nat) + "-"@ + hex_text(suffix@),
{
    let mut s = String::new();
    append_decimal(&mut s, now_unix);
    append_text(&mut s, "-");
    let h = hex_encode(suffix);
    append_text(&mut s, h.as_str());
    s
}

/// Decoding a seed file written for a 64-byte seed gives the seed back.
pub proof fn law_seed_hex_roundtrip(seed: Seq<u8>)
    ensures
        is_hex_text(hex_text(seed)),
        hex_bytes(hex_text(seed)) == seed,
{
    let t = hex_text(seed);
    assert forall|i: int| 0 <= i < t.len() implies is_hex_char(#[trigger] t[i]) by {
        let b = seed[i / 2] as int;
        assert(0 <= b / 16 < 16 && 0 <= b % 16 < 16) by (nonlinear_arith)
            requires 0 <= b < 256;
    }
    assert(t.len() % 2 == 0);
    assert forall|i: int| 0 <= i < seed.len() implies #[trigger] hex_bytes(t)[i] == seed[i] by {
        let b = seed[i] as int;
        assert((2 * i) / 2 == i && (2 * i + 1) / 2 == i && (2 * i) % 2 == 0 && (2 * i + 1) % 2 == 1)
            by (nonlinear_arith);
        assert(0 <= b / 16 < 16 && 0 <= b % 16 < 16 && 16 * (b / 16) + b % 16 == b)
            by (nonlinear_arith)
            requires 0 <= b < 256;
    }
    assert(hex_bytes(t) =~= seed);
}

} // verus!
