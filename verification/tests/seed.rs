use cashu_service::seed::{wallet_activity_id, wallet_seed_file, wallet_seed_from_file};
use cashu_service::wallet::{cashu_wallet_db_path, cashu_wallet_seed_path, CashuWalletSeedFile};
use rand::RngCore;

#[test]
fn seed_files_hold_the_seed_as_lower_case_hex() {
    let mut seed = vec![0_u8; 64];
    seed[0] = 0xab;
    seed[63] = 0x0f;
    let file = wallet_seed_file(&seed);
    assert_eq!(file.version, 1);
    assert_eq!(file.seed_hex.len(), 128);
    assert!(file.seed_hex.starts_with("ab00"));
    assert!(file.seed_hex.ends_with("000f"));
}

#[test]
fn a_written_seed_reads_back_unchanged() {
    let seed: Vec<u8> = (0..64).map(|i| (i * 7) as u8).collect();
    let file = wallet_seed_file(&seed);
    assert_eq!(wallet_seed_from_file(&file).unwrap(), seed);
}

#[test]
fn seed_files_must_hold_64_bytes_of_hex() {
    let bad = CashuWalletSeedFile { version: 1, seed_hex: "zz".repeat(64) };
    assert_eq!(wallet_seed_from_file(&bad).unwrap_err(), "Invalid Cashu wallet seed");
    let odd = CashuWalletSeedFile { version: 1, seed_hex: "a".repeat(127) };
    assert_eq!(wallet_seed_from_file(&odd).unwrap_err(), "Invalid Cashu wallet seed");
    let short = CashuWalletSeedFile { version: 1, seed_hex: "ab".repeat(32) };
    assert_eq!(
        wallet_seed_from_file(&short).unwrap_err(),
        "Cashu wallet seed must be 64 bytes"
    );
    let upper = CashuWalletSeedFile { version: 1, seed_hex: "AB".repeat(64) };
    assert_eq!(wallet_seed_from_file(&upper).unwrap(), vec![0xab_u8; 64]);
}

#[test]
fn activity_ids_join_time_and_hex_suffix() {
    assert_eq!(
        wallet_activity_id(1_700_000_000, &[0xde, 0xad, 0xbe, 0xef]),
        "1700000000-deadbeef"
    );
    assert_eq!(wallet_activity_id(0, &[0, 1, 2, 3]), "0-00010203");
}

fn seed_roundtrip_and_paths() {
    let temp_dir = tempfile::tempdir().unwrap();
    let dir = temp_dir.path().to_string_lossy().into_owned();
    let seed_path = cashu_wallet_seed_path(&dir);
    let db_path = cashu_wallet_db_path(&dir);
    assert_eq!(
        seed_path,
        temp_dir.path().join("cashu").join("seed.json").to_string_lossy()
    );
    assert_eq!(
        db_path,
        temp_dir.path().join("cashu").join("wallet.sqlite").to_string_lossy()
    );

    let mut seed = [0_u8; 64];
    rand::thread_rng().fill_bytes(&mut seed);
    let file = wallet_seed_file(&seed);
    let restored = wallet_seed_from_file(&file).unwrap();
    assert_eq!(restored.len(), 64);
    assert_eq!(restored, seed.to_vec());
}

#[test]
fn wallet_test_cashu_wallet_seed_roundtrip_and_paths() {
    seed_roundtrip_and_paths();
}

#[test]
fn tests_test_cashu_wallet_seed_roundtrip_and_paths() {
    seed_roundtrip_and_paths();
}
