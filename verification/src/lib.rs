pub mod text;
pub mod textbuf;
pub mod idmap;
pub mod deposits;
pub mod error;
pub mod protocol;
pub mod ledger;
pub mod model;
pub mod exposure;
pub mod account;
pub mod account_ops;
pub mod settlement_ops;
pub mod snapshot_model;
pub mod snapshot;
pub mod restore;
pub mod spilman;
pub mod spilman_payment;
pub mod receiver;
pub mod wallet;
pub mod activity;
pub mod laws;
pub mod seed;
pub mod pairs;
pub mod snapshot_laws;
pub mod transfer;
pub mod wallet_ops;
pub mod wallet_inputs;
