use bridge_core::error::{BridgeError, VaultError};
use bridge_core::instruction::BridgeInstruction;
use bridge_core::processor::{
    create_unlock_message, derive_record_address, derive_vault_address, initialize, lock_tokens,
    pause, process_instruction, unlock_tokens, unpause, update_config, AccountView,
    TokenAccountView, VaultAccounts, VaultEffect,
};
use bridge_core::state::{
    bytes32_to_eth_address, eth_address_to_bytes32, BridgeConfig, BridgeStatus, Pubkey,
    UserBridgeState,
};
use ed25519_dalek::{Signer, SigningKey};

fn key(tag: u8) -> Pubkey {
    let mut k = [0u8; 32];
    k[0] = tag;
    k[31] = tag;
    k
}

fn signer_account(k: Pubkey) -> AccountView {
    AccountView { key: k, owner: [0u8; 32], is_signer: true }
}

fn validator_keys(seeds: &[u8]) -> (Vec<SigningKey>, Vec<Pubkey>) {
    let mut signing = Vec::new();
    let mut public = Vec::new();
    for seed in seeds {
        let mut secret = [7u8; 32];
        secret[0] = *seed;
        let sk = SigningKey::from_bytes(&secret);
        public.push(sk.verifying_key().to_bytes());
        signing.push(sk);
    }
    (signing, public)
}

fn initialized_config(
    program_id: &Pubkey,
    config_key: &Pubkey,
    fee_basis_points: u16,
    validators: Vec<Pubkey>,
    threshold: u8,
) -> BridgeConfig {
    let admin = key(1);
    let relayer = key(2);
    let admin_account = signer_account(admin);
    let config_account = AccountView { key: *config_key, owner: [0u8; 32], is_signer: false };
    let (vault_pda, _bump) = derive_vault_address(program_id, config_key);
    initialize(
        program_id,
        &admin_account,
        &config_account,
        &vault_pda,
        admin,
        relayer,
        fee_basis_points,
        validators,
        threshold,
    )
    .expect("initialize should succeed")
}

#[test]
fn test_bridge_status_values() {
    assert_eq!(BridgeStatus::Pending as u8, 0);
    assert_eq!(BridgeStatus::Completed as u8, 1);
    assert_eq!(BridgeStatus::Cancelled as u8, 2);
}

#[test]
fn test_eth_address_conversion() {
    let eth_addr = [
        0x74, 0x2d, 0x35, 0xCc, 0x66, 0x34, 0xC0, 0x53, 0x29, 0x25, 0xa3, 0xb8, 0x44, 0xBc, 0x9e,
        0x75, 0x95, 0xf0, 0xbE, 0xb0,
    ];
    let bytes32 = eth_address_to_bytes32(&eth_addr);
    assert_eq!(&bytes32[0..12], &[0u8; 12]);
    assert_eq!(&bytes32[12..], &eth_addr[..]);
    let recovered = bytes32_to_eth_address(&bytes32);
    assert_eq!(recovered, eth_addr);
}

#[test]
fn test_initialize() {
    let program_id = key(9);
    let config_key = key(10);
    let (_sk, validators) = validator_keys(&[1, 2, 3]);
    let config = initialized_config(&program_id, &config_key, 50, validators, 2);
    assert_eq!(config.fee_basis_points, 50);
    assert!(!config.is_paused);
    assert_eq!(config.total_locked, 0);
    assert_eq!(config.nonce, 0);
    assert_eq!(config.validators.len(), 3);
    assert_eq!(config.validator_threshold, 2);
}

#[test]
fn test_invalid_fee_initialization() {
    let program_id = key(9);
    let config_key = key(10);
    let admin = key(1);
    let admin_account = signer_account(admin);
    let config_account = AccountView { key: config_key, owner: [0u8; 32], is_signer: false };
    let (vault_pda, _bump) = derive_vault_address(&program_id, &config_key);
    let (_sk, validators) = validator_keys(&[1, 2, 3]);
    let r = initialize(
        &program_id,
        &admin_account,
        &config_account,
        &vault_pda,
        admin,
        key(2),
        10001,
        validators,
        2,
    );
    assert!(matches!(r, Err(VaultError::Custom(BridgeError::InvalidFee))));
}

#[test]
fn test_invalid_validator_threshold() {
    let program_id = key(9);
    let config_key = key(10);
    let admin = key(1);
    let admin_account = signer_account(admin);
    let config_account = AccountView { key: config_key, owner: [0u8; 32], is_signer: false };
    let (vault_pda, _bump) = derive_vault_address(&program_id, &config_key);
    let (_sk, validators) = validator_keys(&[1, 2, 3]);
    // threshold of zero
    let r = initialize(
        &program_id,
        &admin_account,
        &config_account,
        &vault_pda,
        admin,
        key(2),
        50,
        validators.clone(),
        0,
    );
    assert!(matches!(r, Err(VaultError::InvalidArgument)));
    // threshold above the roster size
    let r = initialize(
        &program_id,
        &admin_account,
        &config_account,
        &vault_pda,
        admin,
        key(2),
        50,
        validators.clone(),
        4,
    );
    assert!(matches!(r, Err(VaultError::InvalidArgument)));
    // empty roster
    let r = initialize(
        &program_id,
        &admin_account,
        &config_account,
        &vault_pda,
        admin,
        key(2),
        50,
        Vec::new(),
        1,
    );
    assert!(matches!(r, Err(VaultError::InvalidArgument)));
    // oversized roster
    let (_sk6, six) = validator_keys(&[1, 2, 3, 4, 5, 6]);
    let r = initialize(
        &program_id,
        &admin_account,
        &config_account,
        &vault_pda,
        admin,
        key(2),
        50,
        six,
        2,
    );
    assert!(matches!(r, Err(VaultError::InvalidArgument)));
    // initializing over existing storage
    let owned_config_account =
        AccountView { key: config_key, owner: program_id, is_signer: false };
    let (_sk3, validators3) = validator_keys(&[1, 2, 3]);
    let r = initialize(
        &program_id,
        &admin_account,
        &owned_config_account,
        &vault_pda,
        admin,
        key(2),
        50,
        validators3,
        2,
    );
    assert!(matches!(r, Err(VaultError::Custom(BridgeError::AlreadyInitialized))));
}

fn lock_env(program_id: &Pubkey) -> (AccountView, TokenAccountView, AccountView, Pubkey) {
    let user = key(20);
    let user_account = signer_account(user);
    let mint = key(21);
    let user_token = TokenAccountView { mint, amount: 10_000_000_000 };
    let config_account = AccountView { key: key(10), owner: *program_id, is_signer: false };
    (user_account, user_token, config_account, mint)
}

#[test]
fn test_lock_tokens_fee_math() {
    let program_id = key(9);
    let (_sk, validators) = validator_keys(&[1, 2, 3]);
    let mut config = initialized_config(&program_id, &key(10), 50, validators, 2);
    config.is_paused = false;
    let (user_account, user_token, config_account, mint) = lock_env(&program_id);
    let record_key = derive_record_address(&program_id, &user_account.key, 0);
    let outcome = lock_tokens(
        &program_id,
        &user_account,
        &user_token,
        &record_key,
        &config_account,
        &mut config,
        &mint,
        1_000_000_000,
        1,
        [3u8; 32],
        1_700_000_000,
    )
    .expect("lock should succeed");
    // fee = floor(1_000_000_000 * 50 / 10000)
    assert_eq!(outcome.fee, 5_000_000);
    assert_eq!(outcome.net_amount, 995_000_000);
    assert_eq!(outcome.record.nonce, 0);
    assert_eq!(outcome.record.locked_amount, 995_000_000);
    assert!(matches!(outcome.record.status, BridgeStatus::Pending));
    assert!(!outcome.record.unlocked);
    assert_eq!(config.nonce, 1);
    assert_eq!(config.total_locked, 995_000_000);
}

#[test]
fn test_lock_tokens_error_cases() {
    let program_id = key(9);
    let (_sk, validators) = validator_keys(&[1, 2, 3]);
    let mut config = initialized_config(&program_id, &key(10), 50, validators, 2);
    let (user_account, user_token, config_account, mint) = lock_env(&program_id);
    let record_key = derive_record_address(&program_id, &user_account.key, 0);

    // zero amount
    let r = lock_tokens(
        &program_id, &user_account, &user_token, &record_key, &config_account, &mut config,
        &mint, 0, 1, [3u8; 32], 0,
    );
    assert!(matches!(r, Err(VaultError::Custom(BridgeError::InsufficientFunds))));

    // destination chain out of range
    let r = lock_tokens(
        &program_id, &user_account, &user_token, &record_key, &config_account, &mut config,
        &mint, 5, 11, [3u8; 32], 0,
    );
    assert!(matches!(r, Err(VaultError::Custom(BridgeError::InvalidDestination))));
    let r = lock_tokens(
        &program_id, &user_account, &user_token, &record_key, &config_account, &mut config,
        &mint, 5, 0, [3u8; 32], 0,
    );
    assert!(matches!(r, Err(VaultError::Custom(BridgeError::InvalidDestination))));

    // balance below the requested amount
    let poor = TokenAccountView { mint, amount: 4 };
    let r = lock_tokens(
        &program_id, &user_account, &poor, &record_key, &config_account, &mut config, &mint, 5,
        1, [3u8; 32], 0,
    );
    assert!(matches!(r, Err(VaultError::Custom(BridgeError::InsufficientFunds))));

    // wrong token for this vault
    let other_mint = key(22);
    let r = lock_tokens(
        &program_id, &user_account, &user_token, &record_key, &config_account, &mut config,
        &other_mint, 5, 1, [3u8; 32], 0,
    );
    assert!(matches!(r, Err(VaultError::Custom(BridgeError::InsufficientFunds))));

    // fee multiplication overflow
    let rich = TokenAccountView { mint, amount: u64::MAX };
    let r = lock_tokens(
        &program_id, &user_account, &rich, &record_key, &config_account, &mut config, &mint,
        u64::MAX, 1, [3u8; 32], 0,
    );
    assert!(matches!(r, Err(VaultError::Custom(BridgeError::Overflow))));

    // unsigned caller
    let unsigned = AccountView { is_signer: false, ..user_account };
    let r = lock_tokens(
        &program_id, &unsigned, &user_token, &record_key, &config_account, &mut config, &mint,
        5, 1, [3u8; 32], 0,
    );
    assert!(matches!(r, Err(VaultError::Custom(BridgeError::MissingRequiredSignature))));

    // config storage owned by someone else
    let foreign = AccountView { owner: key(30), ..config_account };
    let r = lock_tokens(
        &program_id, &user_account, &user_token, &record_key, &foreign, &mut config, &mint, 5,
        1, [3u8; 32], 0,
    );
    assert!(matches!(r, Err(VaultError::Custom(BridgeError::IncorrectOwner))));

    // wrong derived record address
    let bad_record_key = key(31);
    let r = lock_tokens(
        &program_id, &user_account, &user_token, &bad_record_key, &config_account, &mut config,
        &mint, 5, 1, [3u8; 32], 0,
    );
    assert!(matches!(r, Err(VaultError::Custom(BridgeError::InvalidPDA))));

    // nothing above may have advanced the nonce or the running total
    assert_eq!(config.nonce, 0);
    assert_eq!(config.total_locked, 0);
}

#[test]
fn test_pause_and_unpause() {
    let program_id = key(9);
    let (_sk, validators) = validator_keys(&[1, 2, 3]);
    let mut config = initialized_config(&program_id, &key(10), 50, validators, 2);
    let admin_account = signer_account(key(1));
    let config_account = AccountView { key: key(10), owner: program_id, is_signer: false };
    pause(&program_id, &admin_account, &config_account, &mut config).expect("pause");
    assert!(config.is_paused);
    // a lock is now refused
    let (user_account, user_token, lock_config_account, mint) = lock_env(&program_id);
    let record_key = derive_record_address(&program_id, &user_account.key, 0);
    let r = lock_tokens(
        &program_id, &user_account, &user_token, &record_key, &lock_config_account, &mut config,
        &mint, 5, 1, [3u8; 32], 0,
    );
    assert!(matches!(r, Err(VaultError::Custom(BridgeError::BridgePaused))));
    unpause(&program_id, &admin_account, &config_account, &mut config).expect("unpause");
    assert!(!config.is_paused);
    // only the admin may pause
    let outsider = signer_account(key(5));
    let r = pause(&program_id, &outsider, &config_account, &mut config);
    assert!(matches!(r, Err(VaultError::Custom(BridgeError::Unauthorized))));
}

#[test]
fn test_update_config() {
    let program_id = key(9);
    let (_sk, validators) = validator_keys(&[1, 2, 3]);
    let mut config = initialized_config(&program_id, &key(10), 50, validators, 2);
    let admin_account = signer_account(key(1));
    let config_account = AccountView { key: key(10), owner: program_id, is_signer: false };
    update_config(
        &program_id,
        &admin_account,
        &config_account,
        &mut config,
        None,
        Some(key(7)),
        Some(100),
    )
    .expect("update");
    assert_eq!(config.fee_basis_points, 100);
    assert_eq!(config.relayer_authority, key(7));
    assert_eq!(config.admin, key(1));
    // a fee above 100% is rejected and changes nothing
    let r = update_config(
        &program_id,
        &admin_account,
        &config_account,
        &mut config,
        None,
        None,
        Some(10001),
    );
    assert!(matches!(r, Err(VaultError::Custom(BridgeError::InvalidFee))));
    assert_eq!(config.fee_basis_points, 100);
}

struct UnlockEnv {
    program_id: Pubkey,
    relayer_account: AccountView,
    user: Pubkey,
    vault_pda: Pubkey,
    config_account: AccountView,
}

fn unlock_env(program_id: Pubkey) -> UnlockEnv {
    let config_key = key(10);
    let (vault_pda, _bump) = derive_vault_address(&program_id, &config_key);
    UnlockEnv {
        program_id,
        relayer_account: signer_account(key(2)),
        user: key(20),
        vault_pda,
        config_account: AccountView { key: config_key, owner: program_id, is_signer: false },
    }
}

fn pending_record(user: Pubkey, nonce: u64, amount: u64) -> UserBridgeState {
    UserBridgeState {
        user,
        locked_amount: amount,
        token_mint: key(21),
        destination_chain: 1,
        destination_address: [3u8; 32],
        status: BridgeStatus::Pending,
        nonce,
        timestamp: 0,
        unlocked: false,
    }
}

fn sign_unlock(sk: &SigningKey, nonce: u64, user: &Pubkey, amount: u64) -> [u8; 64] {
    let message = create_unlock_message(nonce, user, amount);
    sk.sign(&message).to_bytes()
}

#[test]
fn test_unlock_succeeds_once_then_already_unlocked() {
    let (signing, validators) = validator_keys(&[1, 2, 3]);
    let env = unlock_env(key(9));
    let mut config = initialized_config(&env.program_id, &key(10), 50, validators, 2);
    config.total_locked = 995_000_000;
    let mut record = pending_record(env.user, 1, 995_000_000);
    let signatures = vec![
        sign_unlock(&signing[0], 1, &env.user, 995_000_000),
        sign_unlock(&signing[2], 1, &env.user, 995_000_000),
    ];
    let amount = unlock_tokens(
        &env.program_id,
        &env.relayer_account,
        &env.user,
        &env.vault_pda,
        &env.program_id,
        &env.config_account,
        &mut config,
        &mut record,
        1,
        &signatures,
    )
    .expect("unlock should succeed");
    assert_eq!(amount, 995_000_000);
    assert!(record.unlocked);
    assert!(matches!(record.status, BridgeStatus::Completed));
    assert_eq!(config.total_locked, 0);
    // a second release of the same nonce fails
    let r = unlock_tokens(
        &env.program_id,
        &env.relayer_account,
        &env.user,
        &env.vault_pda,
        &env.program_id,
        &env.config_account,
        &mut config,
        &mut record,
        1,
        &signatures,
    );
    assert!(matches!(r, Err(VaultError::Custom(BridgeError::AlreadyUnlocked))));
}

#[test]
fn test_unlock_below_threshold_fails() {
    let (signing, validators) = validator_keys(&[1, 2, 3]);
    let env = unlock_env(key(9));
    let mut config = initialized_config(&env.program_id, &key(10), 50, validators, 2);
    config.total_locked = 500;
    let mut record = pending_record(env.user, 4, 500);
    // one valid signature against a threshold of two, padded with garbage
    let signatures = vec![sign_unlock(&signing[0], 4, &env.user, 500), [9u8; 64], [8u8; 64]];
    let r = unlock_tokens(
        &env.program_id,
        &env.relayer_account,
        &env.user,
        &env.vault_pda,
        &env.program_id,
        &env.config_account,
        &mut config,
        &mut record,
        4,
        &signatures,
    );
    assert!(matches!(r, Err(VaultError::Custom(BridgeError::ThresholdNotMet))));
    assert!(!record.unlocked);
    assert_eq!(config.total_locked, 500);
}

#[test]
fn test_unlock_duplicated_signature_counts_once() {
    let (signing, validators) = validator_keys(&[1, 2, 3]);
    let env = unlock_env(key(9));
    let mut config = initialized_config(&env.program_id, &key(10), 50, validators, 2);
    config.total_locked = 500;
    let mut record = pending_record(env.user, 4, 500);
    let sig = sign_unlock(&signing[0], 4, &env.user, 500);
    // the same valid signature twice credits one validator, not two
    let signatures = vec![sig, sig];
    let r = unlock_tokens(
        &env.program_id,
        &env.relayer_account,
        &env.user,
        &env.vault_pda,
        &env.program_id,
        &env.config_account,
        &mut config,
        &mut record,
        4,
        &signatures,
    );
    assert!(matches!(r, Err(VaultError::Custom(BridgeError::ThresholdNotMet))));
    assert!(!record.unlocked);
    // two distinct validators meet the threshold
    let signatures = vec![sig, sign_unlock(&signing[1], 4, &env.user, 500)];
    let r = unlock_tokens(
        &env.program_id,
        &env.relayer_account,
        &env.user,
        &env.vault_pda,
        &env.program_id,
        &env.config_account,
        &mut config,
        &mut record,
        4,
        &signatures,
    );
    assert!(r.is_ok());
}

#[test]
fn test_unlock_foreign_signatures_never_count() {
    let (_signing, validators) = validator_keys(&[1, 2, 3]);
    let (foreign_signing, _foreign) = validator_keys(&[40, 41]);
    let env = unlock_env(key(9));
    let mut config = initialized_config(&env.program_id, &key(10), 50, validators, 2);
    config.total_locked = 500;
    let mut record = pending_record(env.user, 4, 500);
    // two well-formed signatures, both from keys outside the roster
    let signatures = vec![
        sign_unlock(&foreign_signing[0], 4, &env.user, 500),
        sign_unlock(&foreign_signing[1], 4, &env.user, 500),
    ];
    let r = unlock_tokens(
        &env.program_id,
        &env.relayer_account,
        &env.user,
        &env.vault_pda,
        &env.program_id,
        &env.config_account,
        &mut config,
        &mut record,
        4,
        &signatures,
    );
    assert!(matches!(r, Err(VaultError::Custom(BridgeError::ThresholdNotMet))));
}

#[test]
fn test_unlock_error_cases() {
    let (signing, validators) = validator_keys(&[1, 2, 3]);
    let env = unlock_env(key(9));
    let mut config = initialized_config(&env.program_id, &key(10), 50, validators, 2);
    config.total_locked = 500;
    let good_sigs = vec![
        sign_unlock(&signing[0], 4, &env.user, 500),
        sign_unlock(&signing[1], 4, &env.user, 500),
    ];

    // caller other than the configured relayer
    let outsider = signer_account(key(5));
    let mut record = pending_record(env.user, 4, 500);
    let r = unlock_tokens(
        &env.program_id, &outsider, &env.user, &env.vault_pda, &env.program_id,
        &env.config_account, &mut config, &mut record, 4, &good_sigs,
    );
    assert!(matches!(r, Err(VaultError::Custom(BridgeError::Unauthorized))));

    // nonce mismatch
    let mut record = pending_record(env.user, 3, 500);
    let r = unlock_tokens(
        &env.program_id, &env.relayer_account, &env.user, &env.vault_pda, &env.program_id,
        &env.config_account, &mut config, &mut record, 4, &good_sigs,
    );
    assert!(matches!(r, Err(VaultError::Custom(BridgeError::InvalidNonce))));

    // record no longer pending
    let mut record = pending_record(env.user, 4, 500);
    record.status = BridgeStatus::Cancelled;
    let r = unlock_tokens(
        &env.program_id, &env.relayer_account, &env.user, &env.vault_pda, &env.program_id,
        &env.config_account, &mut config, &mut record, 4, &good_sigs,
    );
    assert!(matches!(r, Err(VaultError::Custom(BridgeError::InvalidStatus))));

    // wrong custody address
    let mut record = pending_record(env.user, 4, 500);
    let bad_pda = key(33);
    let r = unlock_tokens(
        &env.program_id, &env.relayer_account, &env.user, &bad_pda, &env.program_id,
        &env.config_account, &mut config, &mut record, 4, &good_sigs,
    );
    assert!(matches!(r, Err(VaultError::Custom(BridgeError::InvalidPDA))));

    // record storage owned by someone else
    let mut record = pending_record(env.user, 4, 500);
    let foreign_owner = key(30);
    let r = unlock_tokens(
        &env.program_id, &env.relayer_account, &env.user, &env.vault_pda, &foreign_owner,
        &env.config_account, &mut config, &mut record, 4, &good_sigs,
    );
    assert!(matches!(r, Err(VaultError::Custom(BridgeError::IncorrectOwner))));

    // unlock still works while paused
    config.is_paused = true;
    let mut record = pending_record(env.user, 4, 500);
    let r = unlock_tokens(
        &env.program_id, &env.relayer_account, &env.user, &env.vault_pda, &env.program_id,
        &env.config_account, &mut config, &mut record, 4, &good_sigs,
    );
    assert!(r.is_ok());
}

#[test]
fn test_serialization() {
    let config = BridgeConfig {
        admin: key(1),
        relayer_authority: key(2),
        vault_pda_bump: 255,
        fee_basis_points: 50,
        is_paused: false,
        total_locked: 1_000_000_000,
        nonce: 42,
        validators: vec![key(3), key(4), key(5)],
        validator_threshold: 2,
    };
    let serialized = config.serialize();
    let deserialized = BridgeConfig::try_from_slice(&serialized).unwrap();
    assert_eq!(config.admin, deserialized.admin);
    assert_eq!(config.nonce, deserialized.nonce);
    assert_eq!(config.validators.len(), 3);
    assert_eq!(config.validator_threshold, 2);
}

#[test]
fn test_user_state_serialization() {
    let record = UserBridgeState {
        user: key(20),
        locked_amount: 995_000_000,
        token_mint: key(21),
        destination_chain: 1,
        destination_address: [3u8; 32],
        status: BridgeStatus::Pending,
        nonce: 7,
        timestamp: -5,
        unlocked: false,
    };
    let serialized = record.serialize();
    assert_eq!(serialized.len(), 123);
    let deserialized = UserBridgeState::try_from_slice(&serialized).unwrap();
    assert_eq!(deserialized.user, record.user);
    assert_eq!(deserialized.locked_amount, record.locked_amount);
    assert_eq!(deserialized.nonce, 7);
    assert_eq!(deserialized.timestamp, -5);
    assert!(matches!(deserialized.status, BridgeStatus::Pending));
    assert!(!deserialized.unlocked);
    // a malformed status byte does not decode
    let mut bad = serialized.clone();
    bad[105] = 9;
    assert!(UserBridgeState::try_from_slice(&bad).is_err());
}

#[test]
fn test_instruction_packing() {
    let init = BridgeInstruction::Initialize {
        admin: key(50),
        relayer_authority: key(51),
        fee_basis_points: 50,
        validators: vec![key(52), key(53)],
        validator_threshold: 2,
    };

    let packed = init.pack();
    let unpacked = BridgeInstruction::unpack(&packed).unwrap();
    match unpacked {
        BridgeInstruction::Initialize { fee_basis_points, validator_threshold, .. } => {
            assert_eq!(fee_basis_points, 50);
            assert_eq!(validator_threshold, 2);
        }
        _ => panic!("Wrong instruction type"),
    }
}

#[test]
fn test_lock_tokens_packing() {
    let lock = BridgeInstruction::LockTokens {
        amount: 1_000_000_000,
        destination_chain: 1,
        destination_address: [0u8; 32],
    };

    let packed = lock.pack();
    let unpacked = BridgeInstruction::unpack(&packed).unwrap();

    match unpacked {
        BridgeInstruction::LockTokens { amount, destination_chain, .. } => {
            assert_eq!(amount, 1_000_000_000);
            assert_eq!(destination_chain, 1);
        }
        _ => panic!("Wrong instruction type"),
    }
}

#[test]
fn test_process_instruction_from_packed_bytes() {
    let program_id = key(9);
    let config_key = key(10);
    let (_sk, validators) = validator_keys(&[1, 2, 3]);
    let admin = key(1);
    let (vault_pda, _bump) = derive_vault_address(&program_id, &config_key);
    let mut accounts = VaultAccounts {
        signer: signer_account(admin),
        config_account: AccountView { key: config_key, owner: [0u8; 32], is_signer: false },
        config: None,
        vault_pda_key: vault_pda,
        user_key: key(20),
        user_token: TokenAccountView { mint: key(21), amount: 10_000_000_000 },
        token_mint_key: key(21),
        record_key: derive_record_address(&program_id, &key(20), 0),
        record_account_owner: program_id,
        record: None,
        now: 1_700_000_000,
    };
    let init = BridgeInstruction::Initialize {
        admin,
        relayer_authority: key(2),
        fee_basis_points: 50,
        validators,
        validator_threshold: 2,
    };
    let effect = process_instruction(&program_id, &mut accounts, &init.pack()).unwrap();
    assert!(matches!(effect, VaultEffect::Initialized));
    assert_eq!(accounts.config.as_ref().unwrap().fee_basis_points, 50);

    // the config account now belongs to the module; the user locks
    accounts.config_account.owner = program_id;
    accounts.signer = signer_account(key(20));
    let lock = BridgeInstruction::LockTokens {
        amount: 1_000_000_000,
        destination_chain: 1,
        destination_address: [3u8; 32],
    };
    let effect = process_instruction(&program_id, &mut accounts, &lock.pack()).unwrap();
    match effect {
        VaultEffect::Locked(outcome) => {
            assert_eq!(outcome.net_amount, 995_000_000);
            assert_eq!(outcome.record.nonce, 0);
        }
        _ => panic!("wrong effect"),
    }
    assert_eq!(accounts.config.as_ref().unwrap().nonce, 1);
    assert!(accounts.record.is_some());

    // undecodable payload: refused, nothing changes
    let r = process_instruction(&program_id, &mut accounts, &[99u8, 0, 0]);
    assert!(matches!(r, Err(VaultError::InvalidInstructionData)));
    assert_eq!(accounts.config.as_ref().unwrap().nonce, 1);
}

#[test]
fn test_instruction_round_trips() {
    let cases = vec![
        BridgeInstruction::UnlockTokens { nonce: 7, signatures: vec![[4u8; 64], [5u8; 64]] },
        BridgeInstruction::UpdateConfig {
            new_admin: Some(key(60)),
            new_relayer: None,
            new_fee: Some(25),
        },
        BridgeInstruction::UpdateConfig { new_admin: None, new_relayer: None, new_fee: None },
        BridgeInstruction::Pause,
        BridgeInstruction::Unpause,
    ];
    for case in cases {
        let packed = case.pack();
        let unpacked = BridgeInstruction::unpack(&packed).unwrap();
        assert_eq!(packed, unpacked.pack());
    }
    assert!(BridgeInstruction::unpack(&[]).is_err());
    assert!(BridgeInstruction::unpack(&[7u8]).is_err());
    assert!(BridgeInstruction::unpack(&[0u8, 1u8]).is_err());
}
