use cashu_service::receiver::{
    check_receiver_key, default_spilman_receiver_min_capacity, default_spilman_receiver_units,
    spilman_receiver_key_path, spilman_receiver_store_path, trim_end_slashes,
    CashuSpilmanReceiverKeyFile, FileSpilmanPaymentReceiverConfig,
};

#[test]
fn receiver_config_normalizes_mints_and_units() {
    let config = FileSpilmanPaymentReceiverConfig {
        accepted_mints: vec![
            "https://mint.example/".to_string(),
            " https://mint.example ".to_string(),
        ],
        units: vec!["SAT".to_string(), "sat".to_string()],
        min_capacity: 0,
        max_amount_per_output: 64,
        min_expiry_seconds: 30,
    }
    .normalized()
    .expect("normalize receiver config");

    assert_eq!(config.accepted_mints, vec!["https://mint.example"]);
    assert_eq!(config.units, vec!["sat"]);
    assert_eq!(config.min_capacity, 1);
}

#[test]
fn receiver_config_sorts_mints_and_units_and_keeps_limits() {
    let config = FileSpilmanPaymentReceiverConfig {
        accepted_mints: vec![
            "https://b.example//".to_string(),
            "   ".to_string(),
            "https://a.example".to_string(),
            "/".to_string(),
        ],
        units: vec!["sat".to_string(), " MSATS".to_string()],
        min_capacity: 9,
        max_amount_per_output: 0,
        min_expiry_seconds: 7,
    }
    .normalized()
    .unwrap();
    assert_eq!(config.accepted_mints, vec!["https://a.example", "https://b.example"]);
    assert_eq!(config.units, vec!["msat", "sat"]);
    assert_eq!(config.min_capacity, 9);
    assert_eq!(config.min_expiry_seconds, 7);
}

#[test]
fn receiver_config_requires_a_mint_and_known_units() {
    let no_mints = FileSpilmanPaymentReceiverConfig::new(vec![" / ".to_string()]);
    assert_eq!(
        no_mints.normalized().unwrap_err(),
        "Cashu Spilman receiver requires at least one accepted mint"
    );
    let mut bad_unit = FileSpilmanPaymentReceiverConfig::new(vec!["https://m".to_string()]);
    bad_unit.units = vec!["sat".to_string(), "Yen".to_string(), "eur".to_string()];
    assert_eq!(bad_unit.normalized().unwrap_err(), "unsupported Cashu channel unit 'yen'");
    let mut no_units = FileSpilmanPaymentReceiverConfig::new(vec!["https://m".to_string()]);
    no_units.units = Vec::new();
    assert_eq!(no_units.normalized().unwrap().units, vec!["sat"]);
}

#[test]
fn receiver_defaults_and_file_layout() {
    let config = FileSpilmanPaymentReceiverConfig::new(vec!["https://mint.example".to_string()]);
    assert_eq!(config.units, default_spilman_receiver_units());
    assert_eq!(config.min_capacity, default_spilman_receiver_min_capacity());
    assert_eq!(config.max_amount_per_output, 0);
    assert_eq!(spilman_receiver_key_path("/data"), "/data/spilman-receiver-key.json");
    assert_eq!(spilman_receiver_store_path("/data/"), "/data/spilman-receiver.sqlite");
    assert_eq!(spilman_receiver_store_path(""), "spilman-receiver.sqlite");
    assert_eq!(trim_end_slashes("a///"), "a");
    assert_eq!(trim_end_slashes("///"), "");
}

#[test]
fn stored_receiver_keys_are_checked_against_their_secret() {
    let key = CashuSpilmanReceiverKeyFile {
        version: 1,
        secret_hex: "11".repeat(32),
        public_key_hex: "02ab".to_string(),
    };
    assert!(check_receiver_key(&key, Ok("02ab".to_string())).is_ok());
    assert_eq!(
        check_receiver_key(&key, Ok("03cd".to_string())).unwrap_err(),
        "Spilman receiver key public key does not match secret"
    );
    assert_eq!(
        check_receiver_key(&key, Err("invalid secret".to_string())).unwrap_err(),
        "invalid secret"
    );
    let old = CashuSpilmanReceiverKeyFile { version: 7, ..key };
    assert_eq!(
        check_receiver_key(&old, Ok("02ab".to_string())).unwrap_err(),
        "unsupported Spilman receiver key version 7"
    );
}
