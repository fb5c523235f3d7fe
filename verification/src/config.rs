use vstd::prelude::*;

verus! {

/// Where the source-chain monitor and submitter reach their chain.
#[derive(Debug, Clone)]
pub struct SolanaConfig {
    pub rpc_url: String,
    pub ws_url: String,
    pub bridge_program_id: String,
    pub commitment: String,
}

/// Where the destination-chain monitor and submitter reach their chain.
#[derive(Debug, Clone)]
pub struct EthereumConfig {
    pub rpc_url: String,
    pub ws_url: String,
    pub chain_id: u64,
    pub bridge_contract: String,
    pub wrapped_sol_contract: String,
    pub validator_registry_contract: String,
    pub confirmations: u64,
}

/// Where the relay ledger persists.
#[derive(Debug, Clone)]
pub struct DatabaseConfig {
    pub url: String,
    pub max_connections: u32,
}

/// One validator of the roster: its identities on each chain and, when it can
/// be asked to sign, its signing endpoint.
#[derive(Debug)]
pub struct ValidatorConfig {
    pub name: String,
    pub eth_address: String,
    pub sol_public_key: String,
    pub endpoint: Option<String>,
}

} // verus!
