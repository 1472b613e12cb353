use cashu_service::wallet_inputs::{
    check_operation_id, check_received_token, proof_import_keys, received_token_mint,
    split_proof_keys, CashuTokenHead,
};
use cdk::mint_url::MintUrl;
use cdk::nuts::{CurrencyUnit, Id, Proof, SecretKey, Token, TokenV3};
use cdk::secret::Secret;
use cdk::Amount;
use std::str::FromStr;

fn test_proof(amount: u64) -> Proof {
    Proof::new(
        Amount::from(amount),
        Id::from_str("009a1f293253e41e").unwrap(),
        Secret::generate(),
        SecretKey::generate().public_key(),
    )
}

fn mint(url: &str) -> MintUrl {
    MintUrl::from_str(url).unwrap()
}

#[test]
fn wallet_test_receive_payment_token_rejects_invalid_token() {
    let err = check_received_token("not-a-token").unwrap_err();
    assert!(err.contains("parse Cashu token"));
}

#[test]
fn a_sat_token_is_received_at_its_normalized_mint() {
    let token = Token::new(
        mint("https://mint.example/"),
        vec![test_proof(4), test_proof(8)],
        None,
        CurrencyUnit::Sat,
    );
    assert_eq!(
        check_received_token(&token.to_string()).unwrap(),
        "https://mint.example"
    );
}

#[test]
fn a_token_without_a_unit_is_taken_as_sat() {
    let v3 = TokenV3::new(mint("https://mint.example/path/"), vec![test_proof(2)], None, None).unwrap();
    assert_eq!(
        check_received_token(&Token::TokenV3(v3).to_string()).unwrap(),
        "https://mint.example/path"
    );
}

#[test]
fn a_token_in_another_unit_is_refused() {
    let token = Token::new(
        mint("https://mint.example"),
        vec![test_proof(4)],
        None,
        CurrencyUnit::Usd,
    );
    assert_eq!(
        check_received_token(&token.to_string()).unwrap_err(),
        "Unsupported Cashu token unit: usd"
    );
}

#[test]
fn a_token_naming_two_mints_is_refused() {
    let v3 = TokenV3::new(mint("https://a.example"), vec![test_proof(1)], None, Some(CurrencyUnit::Sat))
        .unwrap();
    let mut value = serde_json::to_value(&v3).unwrap();
    let first = value["token"][0].clone();
    let mut second = first.clone();
    second["mint"] = serde_json::Value::String("https://b.example".to_string());
    value["token"] = serde_json::Value::Array(vec![first, second]);
    let two: TokenV3 = serde_json::from_value(value).unwrap();
    assert_eq!(
        check_received_token(&Token::TokenV3(two).to_string()).unwrap_err(),
        "Cashu token must contain exactly one mint"
    );
}

#[test]
fn a_token_at_an_unusable_mint_is_refused_by_the_mint_rules() {
    let token = Token::new(
        mint("http://mint.example?x=1"),
        vec![test_proof(4)],
        None,
        CurrencyUnit::Sat,
    );
    assert_eq!(
        check_received_token(&token.to_string()).unwrap_err(),
        "Mint URL must not include query or fragment"
    );
}

#[test]
fn the_token_decision_follows_the_parse_outcome() {
    assert_eq!(received_token_mint(&None).unwrap_err(), "Failed to parse Cashu token");
    let head = |mint_url: Option<&str>, unit: Option<(&str, bool)>| {
        Some(CashuTokenHead {
            mint_url: mint_url.map(|m| m.to_string()),
            unit: unit.map(|(u, s)| (u.to_string(), s)),
        })
    };
    assert_eq!(
        received_token_mint(&head(None, Some(("sat", true)))).unwrap_err(),
        "Cashu token must contain exactly one mint"
    );
    assert_eq!(
        received_token_mint(&head(Some("https://mint.example/"), Some(("sat", false)))).unwrap_err(),
        "Unsupported Cashu token unit: sat"
    );
    assert_eq!(
        received_token_mint(&head(Some("https://mint.example/"), Some(("sat", true)))).unwrap(),
        "https://mint.example"
    );
    assert_eq!(
        received_token_mint(&head(Some("https://mint.example//"), None)).unwrap(),
        "https://mint.example"
    );
    assert_eq!(
        received_token_mint(&head(Some("ftp://mint.example"), None)).unwrap_err(),
        "Unsupported mint URL scheme: ftp"
    );
}

#[test]
fn imported_proofs_are_known_by_their_points_and_amounts() {
    let proofs = vec![test_proof(4), test_proof(8)];
    let json = serde_json::to_string(&proofs).unwrap();
    let (normalized, ys, amounts) = proof_import_keys("https://mint.example/", " sat ", &json).unwrap();
    assert_eq!(normalized, "https://mint.example");
    let expected: Vec<String> = proofs.iter().map(|p| p.y().unwrap().to_string()).collect();
    assert_eq!(ys, expected);
    assert_ne!(ys[0], json);
    assert_eq!(amounts, vec![4, 8]);
}

#[test]
fn an_empty_proof_list_imports_nothing() {
    let (_, ys, amounts) = proof_import_keys("https://mint.example", "sat", "[]").unwrap();
    assert!(ys.is_empty());
    assert!(amounts.is_empty());
}

#[test]
fn proof_imports_are_refused_in_order() {
    assert_eq!(
        proof_import_keys("ftp://mint.example", "usd", "not json").unwrap_err(),
        "Unsupported Cashu proof unit: usd"
    );
    assert_eq!(
        proof_import_keys("ftp://mint.example", "sat", "not json").unwrap_err(),
        "Unsupported mint URL scheme: ftp"
    );
    assert_eq!(
        proof_import_keys("https://mint.example", "sat", "not json").unwrap_err(),
        "Failed to parse Cashu payment proofs"
    );
    assert_eq!(
        proof_import_keys("https://mint.example", "sat", "[{\"amount\":1}]").unwrap_err(),
        "Failed to parse Cashu payment proofs"
    );
}

#[test]
fn the_proof_decision_follows_the_parse_outcome() {
    assert_eq!(split_proof_keys(None).unwrap_err(), "Failed to parse Cashu payment proofs");
    assert_eq!(split_proof_keys(Some(None)).unwrap_err(), "Failed to prepare Cashu proof import");
    let (ys, amounts) = split_proof_keys(Some(Some(vec![
        ("02aa".to_string(), 3),
        ("03bb".to_string(), 5),
    ])))
    .unwrap();
    assert_eq!(ys, vec!["02aa".to_string(), "03bb".to_string()]);
    assert_eq!(amounts, vec![3, 5]);
}

#[test]
fn wallet_test_revoke_pending_payment_rejects_invalid_operation_id() {
    let err = check_operation_id("nope").unwrap_err();
    assert!(err.contains("Invalid Cashu send operation id"));
}

#[test]
fn send_operations_are_named_by_uuids() {
    assert!(check_operation_id("67e55044-10b1-426f-9247-bb680e5fe0c8").is_ok());
    assert!(check_operation_id("67e5504410b1426f9247bb680e5fe0c8").is_ok());
    assert!(check_operation_id("67e55044-10b1-426f-9247-bb680e5fe0c").is_err());
    assert!(check_operation_id("").is_err());
}
