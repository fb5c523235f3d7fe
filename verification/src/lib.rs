pub mod crypto;
pub mod config;
pub mod error;
pub mod instruction;
pub mod ethereum_monitor;
pub mod ledger;
pub mod processor;
pub mod solana_monitor;
pub mod state;
pub mod submitter;
pub mod text;
pub mod types;
pub mod validator_client;
