use vstd::prelude::*;

use crate::crypto::{ed25519_verifies, ed25519_verify, sha256, sha256_spec, push_bytes};
use crate::error::{BridgeError, VaultError};
use crate::state::{
    config_wf, is_zero_key, pubkey_eq, zero_key, BridgeConfig, BridgeStatus, Pubkey,
    SignatureBytes, UserBridgeState, MAX_VALIDATORS,
};
use vstd::bytes::{spec_u64_to_le_bytes, u64_to_le_bytes};

verus! {

/// What the runtime reports about one referenced storage account.
#[derive(Debug, Clone, Copy)]
pub struct AccountView {
    pub key: Pubkey,
    pub owner: Pubkey,
    pub is_signer: bool,
}

/// What the runtime reports about the caller's token balance.
#[derive(Debug, Clone, Copy)]
pub struct TokenAccountView {
    pub mint: Pubkey,
    pub amount: u64,
}

/// Everything a successful lock changes or emits.
#[derive(Debug, Clone, Copy)]
pub struct LockOutcome {
    pub record: UserBridgeState,
    pub fee: u64,
    pub net_amount: u64,
}

/// The fixed seed of the vault custody address.
pub open spec fn vault_seed() -> Seq<u8> {
    seq![118u8, 97u8, 117u8, 108u8, 116u8]  // "vault"
}

/// The fixed seed of a lock record address.
pub open spec fn record_seed() -> Seq<u8> {
    seq![98u8, 114u8, 105u8, 100u8, 103u8, 101u8]  // "bridge"
}

/// The custody address derived from the module and config identities alone.
pub open spec fn spec_vault_address(program_id: Seq<u8>, config_key: Seq<u8>) -> Seq<u8> {
    sha256_spec(vault_seed() + config_key + program_id)
}

/// The derivation witness byte stored with the config.
pub open spec fn spec_vault_bump(program_id: Seq<u8>, config_key: Seq<u8>) -> u8 {
    spec_vault_address(program_id, config_key)[31]
}

/// The lock record address derived from the owner identity and the nonce.
pub open spec fn spec_record_address(program_id: Seq<u8>, user: Seq<u8>, nonce: u64) -> Seq<u8> {
    sha256_spec(record_seed() + user + spec_u64_to_le_bytes(nonce) + program_id)
}

/// Derive the vault custody address and its witness byte.
pub fn derive_vault_address(program_id: &Pubkey, config_key: &Pubkey) -> (r: ([u8; 32], u8))
    ensures
        r.0@ == spec_vault_address(program_id@, config_key@),
        r.1 == spec_vault_bump(program_id@, config_key@),
{
    let mut data: Vec<u8> = Vec::new();
    let seed: [u8; 5] = [118, 97, 117, 108, 116];
    assert(seed@ =~= vault_seed());
    push_bytes(&mut data, seed.as_slice());
    push_bytes(&mut data, config_key.as_slice());
    push_bytes(&mut data, program_id.as_slice());
    assert(data@ =~= vault_seed() + config_key@ + program_id@);
    let address = sha256(data.as_slice());
    let bump = address[31];
    (address, bump)
}

/// Derive the address of the lock record for `(user, nonce)`.
pub fn derive_record_address(program_id: &Pubkey, user: &Pubkey, nonce: u64) -> (r: [u8; 32])
    ensures
        r@ == spec_record_address(program_id@, user@, nonce),
{
    let mut data: Vec<u8> = Vec::new();
    let seed: [u8; 6] = [98, 114, 105, 100, 103, 101];
    assert(seed@ =~= record_seed());
    push_bytes(&mut data, seed.as_slice());
    push_bytes(&mut data, user.as_slice());
    let nonce_bytes = u64_to_le_bytes(nonce);
    push_bytes(&mut data, nonce_bytes.as_slice());
    push_bytes(&mut data, program_id.as_slice());
    assert(data@ =~= record_seed() + user@ + spec_u64_to_le_bytes(nonce) + program_id@);
    sha256(data.as_slice())
}

/// The bytes every release authorization signs: a fixed tag, then the nonce,
/// the recipient identity and the amount.
pub open spec fn unlock_preimage(nonce: u64, user: Seq<u8>, amount: u64) -> Seq<u8> {
    unlock_tag() + spec_u64_to_le_bytes(nonce) + user + spec_u64_to_le_bytes(amount)
}

/// The fixed tag of the release message.
pub open spec fn unlock_tag() -> Seq<u8> {
    seq![117u8, 110u8, 108u8, 111u8, 99u8, 107u8, 58u8]  // "unlock:"
}

/// The canonical release message for one lock record.
pub open spec fn spec_unlock_message(nonce: u64, user: Seq<u8>, amount: u64) -> Seq<u8> {
    sha256_spec(unlock_preimage(nonce, user, amount))
}

/// Build the canonical release message the validators must have signed.
pub fn create_unlock_message(nonce: u64, user: &Pubkey, amount: u64) -> (r: [u8; 32])
    ensures
        r@ == spec_unlock_message(nonce, user@, amount),
{
    let mut data: Vec<u8> = Vec::new();
    let tag: [u8; 7] = [117, 110, 108, 111, 99, 107, 58];
    assert(tag@ =~= unlock_tag());
    push_bytes(&mut data, tag.as_slice());
    let nonce_bytes = u64_to_le_bytes(nonce);
    push_bytes(&mut data, nonce_bytes.as_slice());
    push_bytes(&mut data, user.as_slice());
    let amount_bytes = u64_to_le_bytes(amount);
    push_bytes(&mut data, amount_bytes.as_slice());
    assert(data@ =~= unlock_preimage(nonce, user@, amount));
    sha256(data.as_slice())
}

/// The first validator key, in roster order, this signature verifies under.
pub open spec fn first_matching_validator(
    msg: Seq<u8>,
    sig: SignatureBytes,
    validators: Seq<Pubkey>,
) -> Option<int>
    decreases validators.len(),
{
    if validators.len() == 0 {
        None
    } else if ed25519_verifies(validators.first()@, msg, sig@) {
        Some(0)
    } else {
        match first_matching_validator(msg, sig, validators.drop_first()) {
            Some(i) => Some(i + 1),
            None => None,
        }
    }
}

/// What `first_matching_validator` returns: the least matching roster index,
/// or none when no configured key verifies the signature.
pub proof fn lemma_first_matching(msg: Seq<u8>, sig: SignatureBytes, validators: Seq<Pubkey>)
    ensures
        match first_matching_validator(msg, sig, validators) {
            Some(j) => 0 <= j < validators.len() && ed25519_verifies(validators[j]@, msg, sig@)
                && (forall|k: int|
                0 <= k < j ==> !ed25519_verifies(#[trigger] validators[k]@, msg, sig@)),
            None => forall|k: int|
                0 <= k < validators.len() ==> !ed25519_verifies(
                    #[trigger] validators[k]@,
                    msg,
                    sig@,
                ),
        },
    decreases validators.len(),
{
    if validators.len() > 0 && !ed25519_verifies(validators.first()@, msg, sig@) {
        lemma_first_matching(msg, sig, validators.drop_first());
        assert(forall|k: int|
            1 <= k < validators.len() ==> validators.drop_first()[k - 1] == #[trigger] validators[k]);
    }
}

/// The distinct validator identities the supplied signatures speak for. Each
/// signature endorses only its first matching key, and a set holds each
/// identity once, so one validator's signature, however often it is supplied,
/// contributes a single identity.
pub open spec fn matched_validator_set(
    msg: Seq<u8>,
    sigs: Seq<SignatureBytes>,
    validators: Seq<Pubkey>,
) -> Set<int>
    decreases sigs.len(),
{
    if sigs.len() == 0 {
        Set::empty()
    } else {
        let rest = matched_validator_set(msg, sigs.drop_last(), validators);
        match first_matching_validator(msg, sigs.last(), validators) {
            Some(j) => rest.insert(j),
            None => rest,
        }
    }
}

/// How many distinct configured validators the supplied signatures verify
/// under: the count a release holds against the threshold.
pub open spec fn spec_count_valid(
    msg: Seq<u8>,
    sigs: Seq<SignatureBytes>,
    validators: Seq<Pubkey>,
) -> int {
    matched_validator_set(msg, sigs, validators).len() as int
}

/// The matched-identity set is finite, and no larger than the pile of
/// signatures it was collected from.
pub proof fn lemma_matched_set_props(
    msg: Seq<u8>,
    sigs: Seq<SignatureBytes>,
    validators: Seq<Pubkey>,
)
    ensures
        matched_validator_set(msg, sigs, validators).finite(),
        0 <= matched_validator_set(msg, sigs, validators).len() <= sigs.len(),
    decreases sigs.len(),
{
    if sigs.len() > 0 {
        lemma_matched_set_props(msg, sigs.drop_last(), validators);
    }
}

/// Whether `sig` verifies under any of the given validator keys, and under
/// which one first.
fn find_matching_validator(
    msg: &[u8; 32],
    sig: &SignatureBytes,
    validators: &Vec<Pubkey>,
) -> (r: Option<usize>)
    ensures
        match r {
            Some(j) => first_matching_validator(msg@, *sig, validators@) == Some(j as int),
            None => first_matching_validator(msg@, *sig, validators@) is None,
        },
{
    proof {
        lemma_first_matching(msg@, *sig, validators@);
    }
    let mut j: usize = 0;
    while j < validators.len()
        invariant
            j <= validators@.len(),
            forall|k: int| 0 <= k < j ==> !ed25519_verifies(#[trigger] validators@[k]@, msg@, sig@),
        decreases validators@.len() - j,
    {
        if ed25519_verify(&validators[j], msg.as_slice(), sig) {
            proof {
                lemma_first_matching(msg@, *sig, validators@);
                match first_matching_validator(msg@, *sig, validators@) {
                    Some(f) => {
                        if f < j {
                            assert(!ed25519_verifies(validators@[f]@, msg@, sig@));
                        }
                        if f > j {
                            assert(!ed25519_verifies(validators@[j as int]@, msg@, sig@));
                        }
                    },
                    None => {
                        assert(!ed25519_verifies(validators@[j as int]@, msg@, sig@));
                    },
                }
            }
            return Some(j);
        }
        j += 1;
    }
    proof {
        lemma_first_matching(msg@, *sig, validators@);
    }
    None
}

/// Count the distinct configured validators the supplied signatures verify
/// under. Each signature is matched against the roster in order and credits
/// at most its first matching validator; a validator already credited is not
/// credited again, so a duplicated signature cannot raise the count.
#[verifier::loop_isolation(false)]
pub fn count_valid_signatures(
    msg: &[u8; 32],
    sigs: &Vec<SignatureBytes>,
    validators: &Vec<Pubkey>,
) -> (r: usize)
    ensures
        r == spec_count_valid(msg@, sigs@, validators@),
{
    let mut used: Vec<bool> = Vec::new();
    let mut v: usize = 0;
    while v < validators.len()
        invariant
            v <= validators@.len(),
            used@.len() == v,
            forall|k: int| 0 <= k < v ==> !used@[k],
        decreases validators@.len() - v,
    {
        used.push(false);
        v += 1;
    }
    let mut count: usize = 0;
    let mut i: usize = 0;
    proof {
        assert(sigs@.subrange(0, 0) =~= Seq::<SignatureBytes>::empty());
    }
    while i < sigs.len()
        invariant
            i <= sigs@.len(),
            used@.len() == validators@.len(),
            count <= i,
            ({
                let mset = matched_validator_set(msg@, sigs@.subrange(0, i as int), validators@);
                &&& mset.finite()
                &&& count == mset.len()
                &&& forall|k: int| 0 <= k < validators@.len() ==> used@[k] == mset.contains(k)
            }),
        decreases sigs@.len() - i,
    {
        let ghost mset = matched_validator_set(msg@, sigs@.subrange(0, i as int), validators@);
        proof {
            assert(sigs@.subrange(0, i + 1).drop_last() =~= sigs@.subrange(0, i as int));
            assert(sigs@.subrange(0, i + 1).last() == sigs@[i as int]);
        }
        match find_matching_validator(msg, &sigs[i], validators) {
            Some(j) => {
                proof {
                    lemma_first_matching(msg@, sigs@[i as int], validators@);
                }
                if !used[j] {
                    used[j] = true;
                    count += 1;
                }
                proof {
                    assert(matched_validator_set(
                        msg@,
                        sigs@.subrange(0, i + 1),
                        validators@,
                    ) == mset.insert(j as int));
                    if mset.contains(j as int) {
                        assert(mset.insert(j as int) =~= mset);
                    }
                }
            },
            None => {
                proof {
                    assert(matched_validator_set(msg@, sigs@.subrange(0, i + 1), validators@)
                        == mset);
                }
            },
        }
        i += 1;
    }
    proof {
        assert(sigs@.subrange(0, sigs@.len() as int) =~= sigs@);
    }
    count
}

/// Fee charged for a lock, in basis points of the gross amount, rounded down.
pub open spec fn spec_fee(amount: u64, fee_basis_points: u16) -> int {
    (amount * fee_basis_points) / 10000
}

/// The fee never exceeds the gross amount when the rate is at most 100%.
pub proof fn lemma_fee_bounds(amount: u64, fee_basis_points: u16)
    requires
        fee_basis_points <= 10000,
    ensures
        0 <= spec_fee(amount, fee_basis_points) <= amount,
{
    assert(0 <= (amount * fee_basis_points) / 10000 <= amount) by (nonlinear_arith)
        requires
            fee_basis_points <= 10000,
            amount >= 0,
    ;
}

/// The first rule an Initialize call breaks, if any, in check order.
pub open spec fn initialize_check(
    program_id: Seq<u8>,
    admin_account: AccountView,
    config_account: AccountView,
    vault_pda_key: Seq<u8>,
    admin: Pubkey,
    fee_basis_points: u16,
    validators: Seq<Pubkey>,
    validator_threshold: u8,
) -> Option<VaultError> {
    if !admin_account.is_signer {
        Some(VaultError::Custom(BridgeError::MissingRequiredSignature))
    } else if admin_account.key@ != admin@ {
        Some(VaultError::Custom(BridgeError::Unauthorized))
    } else if config_account.owner@ != zero_key() {
        Some(VaultError::Custom(BridgeError::AlreadyInitialized))
    } else if fee_basis_points > 10000 {
        Some(VaultError::Custom(BridgeError::InvalidFee))
    } else if validators.len() == 0 || validators.len() > MAX_VALIDATORS {
        Some(VaultError::InvalidArgument)
    } else if validator_threshold == 0 || validator_threshold as int > validators.len() {
        Some(VaultError::InvalidArgument)
    } else if vault_pda_key != spec_vault_address(program_id, config_account.key@) {
        Some(VaultError::Custom(BridgeError::InvalidPDA))
    } else {
        None
    }
}

/// Create the vault configuration.
///
/// Fails when the admin did not sign or is not the named admin, when the
/// config storage already exists, on a fee above 100%, an empty or oversized
/// validator roster, a threshold outside `1..=len(validators)`, or a custody
/// address that does not match the derivation. On success the returned config
/// starts unpaused with nonce 0 and nothing locked.
pub fn initialize(
    program_id: &Pubkey,
    admin_account: &AccountView,
    config_account: &AccountView,
    vault_pda_key: &Pubkey,
    admin: Pubkey,
    relayer_authority: Pubkey,
    fee_basis_points: u16,
    validators: Vec<Pubkey>,
    validator_threshold: u8,
) -> (r: Result<BridgeConfig, VaultError>)
    ensures
        ({
            let check = initialize_check(
                program_id@,
                *admin_account,
                *config_account,
                vault_pda_key@,
                admin,
                fee_basis_points,
                validators@,
                validator_threshold,
            );
            match r {
                Ok(c) => {
                    &&& check is None
                    &&& c.admin == admin
                    &&& c.relayer_authority == relayer_authority
                    &&& c.vault_pda_bump == spec_vault_bump(program_id@, config_account.key@)
                    &&& c.fee_basis_points == fee_basis_points
                    &&& !c.is_paused
                    &&& c.total_locked == 0
                    &&& c.nonce == 0
                    &&& c.validators == validators
                    &&& c.validator_threshold == validator_threshold
                    &&& config_wf(&c)
                },
                Err(e) => check == Some(e),
            }
        }),
{
    if !admin_account.is_signer {
        return Err(VaultError::Custom(BridgeError::MissingRequiredSignature));
    }
    if !pubkey_eq(&admin_account.key, &admin) {
        return Err(VaultError::Custom(BridgeError::Unauthorized));
    }
    if !is_zero_key(&config_account.owner) {
        return Err(VaultError::Custom(BridgeError::AlreadyInitialized));
    }
    if fee_basis_points > 10000 {
        return Err(VaultError::Custom(BridgeError::InvalidFee));
    }
    if validators.len() == 0 || validators.len() > MAX_VALIDATORS {
        return Err(VaultError::InvalidArgument);
    }
    if validator_threshold == 0 || validator_threshold as usize > validators.len() {
        return Err(VaultError::InvalidArgument);
    }
    let (vault_pda, vault_bump) = derive_vault_address(program_id, &config_account.key);
    if !pubkey_eq(vault_pda_key, &vault_pda) {
        return Err(VaultError::Custom(BridgeError::InvalidPDA));
    }
    Ok(
        BridgeConfig {
            admin,
            relayer_authority,
            vault_pda_bump: vault_bump,
            fee_basis_points,
            is_paused: false,
            total_locked: 0,
            nonce: 0,
            validators,
            validator_threshold,
        },
    )
}

/// The first rule a LockTokens call breaks, if any, in check order.
pub open spec fn lock_check(
    program_id: Seq<u8>,
    user_account: AccountView,
    user_token: TokenAccountView,
    record_key: Seq<u8>,
    config_account: AccountView,
    config: BridgeConfig,
    token_mint_key: Seq<u8>,
    amount: u64,
    destination_chain: u8,
) -> Option<VaultError> {
    if !user_account.is_signer {
        Some(VaultError::Custom(BridgeError::MissingRequiredSignature))
    } else if config_account.owner@ != program_id {
        Some(VaultError::Custom(BridgeError::IncorrectOwner))
    } else if config.is_paused {
        Some(VaultError::Custom(BridgeError::BridgePaused))
    } else if amount == 0 {
        Some(VaultError::Custom(BridgeError::InsufficientFunds))
    } else if destination_chain == 0 || destination_chain > 10 {
        Some(VaultError::Custom(BridgeError::InvalidDestination))
    } else if amount * config.fee_basis_points > u64::MAX {
        Some(VaultError::Custom(BridgeError::Overflow))
    } else if user_token.amount < amount {
        Some(VaultError::Custom(BridgeError::InsufficientFunds))
    } else if user_token.mint@ != token_mint_key {
        Some(VaultError::Custom(BridgeError::InsufficientFunds))
    } else if config.nonce == u64::MAX {
        Some(VaultError::Custom(BridgeError::Overflow))
    } else if record_key != spec_record_address(program_id, user_account.key@, config.nonce) {
        Some(VaultError::Custom(BridgeError::InvalidPDA))
    } else if config.total_locked + amount - spec_fee(amount, config.fee_basis_points)
        > u64::MAX {
        Some(VaultError::Custom(BridgeError::Overflow))
    } else {
        None
    }
}

/// Lock `amount` units for transfer to `destination_chain`.
///
/// The caller must have signed; the vault must not be paused; the amount must
/// be positive, covered by the caller's balance, of the vault's own token, and
/// free of overflow in the fee and total-locked math; the destination chain
/// must lie in `1..=10`; and `record_key` must match the derivation for the
/// caller and the next nonce. On success the nonce advances by one, the net
/// amount joins the running total, and the returned record holds the net
/// amount under status `Pending`. On failure the config is unchanged.
pub fn lock_tokens(
    program_id: &Pubkey,
    user_account: &AccountView,
    user_token: &TokenAccountView,
    record_key: &Pubkey,
    config_account: &AccountView,
    config: &mut BridgeConfig,
    token_mint_key: &Pubkey,
    amount: u64,
    destination_chain: u8,
    destination_address: [u8; 32],
    now: i64,
) -> (r: Result<LockOutcome, VaultError>)
    requires
        config_wf(old(config)),
    ensures
        ({
            let check = lock_check(
                program_id@,
                *user_account,
                *user_token,
                record_key@,
                *config_account,
                *old(config),
                token_mint_key@,
                amount,
                destination_chain,
            );
            match r {
                Ok(o) => {
                    &&& check is None
                    &&& o.fee == spec_fee(amount, old(config).fee_basis_points)
                    &&& o.net_amount == amount - o.fee
                    &&& o.record == (UserBridgeState {
                        user: user_account.key,
                        locked_amount: o.net_amount,
                        token_mint: *token_mint_key,
                        destination_chain,
                        destination_address,
                        status: BridgeStatus::Pending,
                        nonce: old(config).nonce,
                        timestamp: now,
                        unlocked: false,
                    })
                    &&& *final(config) == (BridgeConfig {
                        nonce: (old(config).nonce + 1) as u64,
                        total_locked: (old(config).total_locked + o.net_amount) as u64,
                        ..*old(config)
                    })
                },
                Err(e) => check == Some(e) && *final(config) == *old(config),
            }
        }),
{
    if !user_account.is_signer {
        return Err(VaultError::Custom(BridgeError::MissingRequiredSignature));
    }
    if !pubkey_eq(&config_account.owner, program_id) {
        return Err(VaultError::Custom(BridgeError::IncorrectOwner));
    }
    if config.is_paused {
        return Err(VaultError::Custom(BridgeError::BridgePaused));
    }
    if amount == 0 {
        return Err(VaultError::Custom(BridgeError::InsufficientFunds));
    }
    if destination_chain == 0 || destination_chain > 10 {
        return Err(VaultError::Custom(BridgeError::InvalidDestination));
    }
    let fee = match amount.checked_mul(config.fee_basis_points as u64) {
        Some(product) => product / 10000,
        None => {
            return Err(VaultError::Custom(BridgeError::Overflow));
        },
    };
    proof {
        lemma_fee_bounds(amount, config.fee_basis_points);
    }
    let net_amount = amount - fee;
    if user_token.amount < amount {
        return Err(VaultError::Custom(BridgeError::InsufficientFunds));
    }
    if !pubkey_eq(&user_token.mint, token_mint_key) {
        return Err(VaultError::Custom(BridgeError::InsufficientFunds));
    }
    let current_nonce = config.nonce;
    let next_nonce = match config.nonce.checked_add(1) {
        Some(n) => n,
        None => {
            return Err(VaultError::Custom(BridgeError::Overflow));
        },
    };
    let expected_record_key = derive_record_address(program_id, &user_account.key, current_nonce);
    if !pubkey_eq(record_key, &expected_record_key) {
        return Err(VaultError::Custom(BridgeError::InvalidPDA));
    }
    let new_total = match config.total_locked.checked_add(net_amount) {
        Some(t) => t,
        None => {
            return Err(VaultError::Custom(BridgeError::Overflow));
        },
    };
    config.nonce = next_nonce;
    config.total_locked = new_total;
    let record = UserBridgeState {
        user: user_account.key,
        locked_amount: net_amount,
        token_mint: *token_mint_key,
        destination_chain,
        destination_address,
        status: BridgeStatus::Pending,
        nonce: current_nonce,
        timestamp: now,
        unlocked: false,
    };
    Ok(LockOutcome { record, fee, net_amount })
}

/// The first rule an UnlockTokens call breaks, if any, in check order.
pub open spec fn unlock_check(
    program_id: Seq<u8>,
    relayer_account: AccountView,
    user_key: Seq<u8>,
    vault_pda_key: Seq<u8>,
    record_account_owner: Seq<u8>,
    config_account: AccountView,
    config: BridgeConfig,
    record: UserBridgeState,
    nonce: u64,
    signatures: Seq<SignatureBytes>,
) -> Option<VaultError> {
    if !relayer_account.is_signer {
        Some(VaultError::Custom(BridgeError::MissingRequiredSignature))
    } else if config_account.owner@ != program_id {
        Some(VaultError::Custom(BridgeError::IncorrectOwner))
    } else if relayer_account.key@ != config.relayer_authority@ {
        Some(VaultError::Custom(BridgeError::Unauthorized))
    } else if record_account_owner != program_id {
        Some(VaultError::Custom(BridgeError::IncorrectOwner))
    } else if record.nonce != nonce {
        Some(VaultError::Custom(BridgeError::InvalidNonce))
    } else if record.unlocked {
        Some(VaultError::Custom(BridgeError::AlreadyUnlocked))
    } else if record.status != BridgeStatus::Pending {
        Some(VaultError::Custom(BridgeError::InvalidStatus))
    } else if user_key != record.user@ {
        Some(VaultError::Custom(BridgeError::Unauthorized))
    } else if vault_pda_key != spec_vault_address(program_id, config_account.key@) {
        Some(VaultError::Custom(BridgeError::InvalidPDA))
    } else if spec_vault_bump(program_id, config_account.key@) != config.vault_pda_bump {
        Some(VaultError::Custom(BridgeError::InvalidPDA))
    } else if signatures.len() < config.validator_threshold as int {
        Some(VaultError::Custom(BridgeError::ThresholdNotMet))
    } else if spec_count_valid(
        spec_unlock_message(nonce, user_key, record.locked_amount),
        signatures,
        config.validators@,
    ) < config.validator_threshold as int {
        Some(VaultError::Custom(BridgeError::ThresholdNotMet))
    } else if config.total_locked < record.locked_amount {
        Some(VaultError::Custom(BridgeError::Overflow))
    } else {
        None
    }
}

/// Release a pending lock record to its owner.
///
/// Only the configured relayer may call; the record must match the nonce, be
/// `Pending` and not yet released, belong to `user_key`, and sit under this
/// module; the custody address and its stored witness byte must re-derive; and
/// the supplied signatures must verify, against the canonical release
/// message, under at least `validator_threshold` distinct configured
/// validator keys — a duplicated signature credits its validator once. On
/// success the record becomes `Completed` and released, the locked amount
/// leaves the running total, and that amount is returned. On failure both the
/// config and the record are unchanged.
pub fn unlock_tokens(
    program_id: &Pubkey,
    relayer_account: &AccountView,
    user_key: &Pubkey,
    vault_pda_key: &Pubkey,
    record_account_owner: &Pubkey,
    config_account: &AccountView,
    config: &mut BridgeConfig,
    record: &mut UserBridgeState,
    nonce: u64,
    signatures: &Vec<SignatureBytes>,
) -> (r: Result<u64, VaultError>)
    ensures
        ({
            let check = unlock_check(
                program_id@,
                *relayer_account,
                user_key@,
                vault_pda_key@,
                record_account_owner@,
                *config_account,
                *old(config),
                *old(record),
                nonce,
                signatures@,
            );
            match r {
                Ok(amount) => {
                    &&& check is None
                    &&& amount == old(record).locked_amount
                    &&& *final(record) == (UserBridgeState {
                        status: BridgeStatus::Completed,
                        unlocked: true,
                        ..*old(record)
                    })
                    &&& *final(config) == (BridgeConfig {
                        total_locked: (old(config).total_locked - amount) as u64,
                        ..*old(config)
                    })
                },
                Err(e) => {
                    &&& check == Some(e)
                    &&& *final(config) == *old(config)
                    &&& *final(record) == *old(record)
                },
            }
        }),
{
    if !relayer_account.is_signer {
        return Err(VaultError::Custom(BridgeError::MissingRequiredSignature));
    }
    if !pubkey_eq(&config_account.owner, program_id) {
        return Err(VaultError::Custom(BridgeError::IncorrectOwner));
    }
    if !pubkey_eq(&relayer_account.key, &config.relayer_authority) {
        return Err(VaultError::Custom(BridgeError::Unauthorized));
    }
    if !pubkey_eq(record_account_owner, program_id) {
        return Err(VaultError::Custom(BridgeError::IncorrectOwner));
    }
    if record.nonce != nonce {
        return Err(VaultError::Custom(BridgeError::InvalidNonce));
    }
    if record.unlocked {
        return Err(VaultError::Custom(BridgeError::AlreadyUnlocked));
    }
    if !matches!(record.status, BridgeStatus::Pending) {
        return Err(VaultError::Custom(BridgeError::InvalidStatus));
    }
    if !pubkey_eq(user_key, &record.user) {
        return Err(VaultError::Custom(BridgeError::Unauthorized));
    }
    let (expected_vault_pda, vault_bump) = derive_vault_address(program_id, &config_account.key);
    if !pubkey_eq(vault_pda_key, &expected_vault_pda) {
        return Err(VaultError::Custom(BridgeError::InvalidPDA));
    }
    if vault_bump != config.vault_pda_bump {
        return Err(VaultError::Custom(BridgeError::InvalidPDA));
    }
    if signatures.len() < config.validator_threshold as usize {
        return Err(VaultError::Custom(BridgeError::ThresholdNotMet));
    }
    let message = create_unlock_message(nonce, user_key, record.locked_amount);
    let valid_count = count_valid_signatures(&message, signatures, &config.validators);
    if valid_count < config.validator_threshold as usize {
        return Err(VaultError::Custom(BridgeError::ThresholdNotMet));
    }
    let new_total = match config.total_locked.checked_sub(record.locked_amount) {
        Some(t) => t,
        None => {
            return Err(VaultError::Custom(BridgeError::Overflow));
        },
    };
    record.unlocked = true;
    record.status = BridgeStatus::Completed;
    config.total_locked = new_total;
    Ok(record.locked_amount)
}

/// The first rule an admin-gated call breaks, if any, in check order.
pub open spec fn admin_check(
    program_id: Seq<u8>,
    admin_account: AccountView,
    config_account: AccountView,
    config: BridgeConfig,
) -> Option<VaultError> {
    if !admin_account.is_signer {
        Some(VaultError::Custom(BridgeError::MissingRequiredSignature))
    } else if config_account.owner@ != program_id {
        Some(VaultError::Custom(BridgeError::IncorrectOwner))
    } else if admin_account.key@ != config.admin@ {
        Some(VaultError::Custom(BridgeError::Unauthorized))
    } else {
        None
    }
}

/// Update the admin, relayer or fee, each only when a new value is given.
///
/// Only the current admin may call; a new fee above 100% is rejected and
/// leaves everything unchanged.
pub fn update_config(
    program_id: &Pubkey,
    admin_account: &AccountView,
    config_account: &AccountView,
    config: &mut BridgeConfig,
    new_admin: Option<Pubkey>,
    new_relayer: Option<Pubkey>,
    new_fee: Option<u16>,
) -> (r: Result<(), VaultError>)
    ensures
        ({
            let check = admin_check(program_id@, *admin_account, *config_account, *old(config));
            match r {
                Ok(()) => {
                    &&& check is None
                    &&& (new_fee matches Some(f) ==> f <= 10000)
                    &&& *final(config) == (BridgeConfig {
                        admin: if new_admin is Some { new_admin->0 } else { old(config).admin },
                        relayer_authority: if new_relayer is Some {
                            new_relayer->0
                        } else {
                            old(config).relayer_authority
                        },
                        fee_basis_points: if new_fee is Some {
                            new_fee->0
                        } else {
                            old(config).fee_basis_points
                        },
                        ..*old(config)
                    })
                },
                Err(e) => {
                    &&& *final(config) == *old(config)
                    &&& if check is Some {
                        check == Some(e)
                    } else {
                        new_fee matches Some(f) && f > 10000 && e == VaultError::Custom(
                            BridgeError::InvalidFee,
                        )
                    }
                },
            }
        }),
{
    if !admin_account.is_signer {
        return Err(VaultError::Custom(BridgeError::MissingRequiredSignature));
    }
    if !pubkey_eq(&config_account.owner, program_id) {
        return Err(VaultError::Custom(BridgeError::IncorrectOwner));
    }
    if !pubkey_eq(&admin_account.key, &config.admin) {
        return Err(VaultError::Custom(BridgeError::Unauthorized));
    }
    if let Some(f) = new_fee {
        if f > 10000 {
            return Err(VaultError::Custom(BridgeError::InvalidFee));
        }
    }
    if let Some(a) = new_admin {
        config.admin = a;
    }
    if let Some(rl) = new_relayer {
        config.relayer_authority = rl;
    }
    if let Some(f) = new_fee {
        config.fee_basis_points = f;
    }
    Ok(())
}

/// Stop further locks. Releases stay possible so in-flight transfers finish.
/// Pausing an already paused vault is a no-op.
pub fn pause(
    program_id: &Pubkey,
    admin_account: &AccountView,
    config_account: &AccountView,
    config: &mut BridgeConfig,
) -> (r: Result<(), VaultError>)
    ensures
        ({
            let check = admin_check(program_id@, *admin_account, *config_account, *old(config));
            match r {
                Ok(()) => check is None && *final(config) == (BridgeConfig {
                    is_paused: true,
                    ..*old(config)
                }),
                Err(e) => check == Some(e) && *final(config) == *old(config),
            }
        }),
{
    if !admin_account.is_signer {
        return Err(VaultError::Custom(BridgeError::MissingRequiredSignature));
    }
    if !pubkey_eq(&config_account.owner, program_id) {
        return Err(VaultError::Custom(BridgeError::IncorrectOwner));
    }
    if !pubkey_eq(&admin_account.key, &config.admin) {
        return Err(VaultError::Custom(BridgeError::Unauthorized));
    }
    config.is_paused = true;
    Ok(())
}

/// Allow locks again. Unpausing an already active vault is a no-op.
pub fn unpause(
    program_id: &Pubkey,
    admin_account: &AccountView,
    config_account: &AccountView,
    config: &mut BridgeConfig,
) -> (r: Result<(), VaultError>)
    ensures
        ({
            let check = admin_check(program_id@, *admin_account, *config_account, *old(config));
            match r {
                Ok(()) => check is None && *final(config) == (BridgeConfig {
                    is_paused: false,
                    ..*old(config)
                }),
                Err(e) => check == Some(e) && *final(config) == *old(config),
            }
        }),
{
    if !admin_account.is_signer {
        return Err(VaultError::Custom(BridgeError::MissingRequiredSignature));
    }
    if !pubkey_eq(&config_account.owner, program_id) {
        return Err(VaultError::Custom(BridgeError::IncorrectOwner));
    }
    if !pubkey_eq(&admin_account.key, &config.admin) {
        return Err(VaultError::Custom(BridgeError::Unauthorized));
    }
    config.is_paused = false;
    Ok(())
}

/// The checks of a release that concern who calls and which record is
/// targeted, before any signature is examined.
pub open spec fn unlock_identity_checks_pass(
    program_id: Seq<u8>,
    relayer_account: AccountView,
    user_key: Seq<u8>,
    vault_pda_key: Seq<u8>,
    record_account_owner: Seq<u8>,
    config_account: AccountView,
    config: BridgeConfig,
    record: UserBridgeState,
    nonce: u64,
) -> bool {
    &&& relayer_account.is_signer
    &&& config_account.owner@ == program_id
    &&& relayer_account.key@ == config.relayer_authority@
    &&& record_account_owner == program_id
    &&& record.nonce == nonce
    &&& !record.unlocked
    &&& record.status is Pending
    &&& user_key == record.user@
    &&& vault_pda_key == spec_vault_address(program_id, config_account.key@)
    &&& spec_vault_bump(program_id, config_account.key@) == config.vault_pda_bump
}

/// A release happens exactly once: after a release succeeds, a second release
/// of the same record under the same nonce fails with `AlreadyUnlocked`,
/// whatever signatures it brings.
pub proof fn lemma_unlock_exactly_once(
    program_id: Seq<u8>,
    relayer_account: AccountView,
    user_key: Seq<u8>,
    vault_pda_key: Seq<u8>,
    record_account_owner: Seq<u8>,
    config_account: AccountView,
    config: BridgeConfig,
    record: UserBridgeState,
    nonce: u64,
    signatures: Seq<SignatureBytes>,
    signatures2: Seq<SignatureBytes>,
)
    requires
        unlock_check(
            program_id,
            relayer_account,
            user_key,
            vault_pda_key,
            record_account_owner,
            config_account,
            config,
            record,
            nonce,
            signatures,
        ) is None,
    ensures
        unlock_check(
            program_id,
            relayer_account,
            user_key,
            vault_pda_key,
            record_account_owner,
            config_account,
            BridgeConfig { total_locked: (config.total_locked - record.locked_amount) as u64, ..config },
            UserBridgeState { status: BridgeStatus::Completed, unlocked: true, ..record },
            nonce,
            signatures2,
        ) == Some(VaultError::Custom(BridgeError::AlreadyUnlocked)),
{
}

/// Too few matching signatures never release: when fewer than the threshold
/// of the supplied signatures verify under some validator key, the release
/// fails, and once every caller- and record-identity check passes, it fails
/// with exactly `ThresholdNotMet` — however many signatures were supplied.
pub proof fn lemma_threshold_not_met(
    program_id: Seq<u8>,
    relayer_account: AccountView,
    user_key: Seq<u8>,
    vault_pda_key: Seq<u8>,
    record_account_owner: Seq<u8>,
    config_account: AccountView,
    config: BridgeConfig,
    record: UserBridgeState,
    nonce: u64,
    signatures: Seq<SignatureBytes>,
)
    requires
        spec_count_valid(
            spec_unlock_message(nonce, user_key, record.locked_amount),
            signatures,
            config.validators@,
        ) < config.validator_threshold,
    ensures
        !(unlock_check(
            program_id,
            relayer_account,
            user_key,
            vault_pda_key,
            record_account_owner,
            config_account,
            config,
            record,
            nonce,
            signatures,
        ) is None),
        unlock_identity_checks_pass(
            program_id,
            relayer_account,
            user_key,
            vault_pda_key,
            record_account_owner,
            config_account,
            config,
            record,
            nonce,
        ) ==> unlock_check(
            program_id,
            relayer_account,
            user_key,
            vault_pda_key,
            record_account_owner,
            config_account,
            config,
            record,
            nonce,
            signatures,
        ) == Some(VaultError::Custom(BridgeError::ThresholdNotMet)),
{
    if signatures.len() >= config.validator_threshold {
        lemma_count_valid_nonneg(
            spec_unlock_message(nonce, user_key, record.locked_amount),
            signatures,
            config.validators@,
        );
    } else {
        lemma_count_valid_bounded(
            spec_unlock_message(nonce, user_key, record.locked_amount),
            signatures,
            config.validators@,
        );
    }
}

/// The count of matching signatures is never negative.
pub proof fn lemma_count_valid_nonneg(
    msg: Seq<u8>,
    sigs: Seq<SignatureBytes>,
    validators: Seq<Pubkey>,
)
    ensures
        spec_count_valid(msg, sigs, validators) >= 0,
{
    lemma_matched_set_props(msg, sigs, validators);
}

/// The count of matching signatures never exceeds the number supplied.
pub proof fn lemma_count_valid_bounded(
    msg: Seq<u8>,
    sigs: Seq<SignatureBytes>,
    validators: Seq<Pubkey>,
)
    ensures
        0 <= spec_count_valid(msg, sigs, validators) <= sigs.len(),
{
    lemma_matched_set_props(msg, sigs, validators);
}

/// A signature that matches no configured validator key never counts toward
/// the threshold: adding it to any pile leaves the count unchanged.
pub proof fn lemma_unmatched_signature_does_not_count(
    msg: Seq<u8>,
    sigs: Seq<SignatureBytes>,
    validators: Seq<Pubkey>,
    sig: SignatureBytes,
)
    requires
        forall|i: int| 0 <= i < validators.len() ==> !ed25519_verifies(
            #[trigger] validators[i]@,
            msg,
            sig@,
        ),
    ensures
        spec_count_valid(msg, sigs.push(sig), validators) == spec_count_valid(
            msg,
            sigs,
            validators,
        ),
{
    assert(sigs.push(sig).drop_last() =~= sigs);
    lemma_first_matching(msg, sig, validators);
    match first_matching_validator(msg, sig, validators) {
        Some(j) => {
            assert(!ed25519_verifies(validators[j]@, msg, sig@));
        },
        None => {},
    }
}

/// A signature already in the pile has already credited its validator.
proof fn lemma_matched_set_contains(
    msg: Seq<u8>,
    sigs: Seq<SignatureBytes>,
    validators: Seq<Pubkey>,
    m: int,
    j: int,
)
    requires
        0 <= m < sigs.len(),
        first_matching_validator(msg, sigs[m], validators) == Some(j),
    ensures
        matched_validator_set(msg, sigs, validators).contains(j),
    decreases sigs.len(),
{
    if m == sigs.len() - 1 {
        assert(sigs.last() == sigs[m]);
    } else {
        assert(sigs.drop_last()[m] == sigs[m]);
        lemma_matched_set_contains(msg, sigs.drop_last(), validators, m, j);
    }
}

/// One validator's signature, supplied again, never counts twice toward the
/// threshold: duplicating a signature already in the pile leaves the count of
/// matched validator identities unchanged.
pub proof fn lemma_duplicate_signature_counts_once(
    msg: Seq<u8>,
    sigs: Seq<SignatureBytes>,
    validators: Seq<Pubkey>,
    m: int,
)
    requires
        0 <= m < sigs.len(),
    ensures
        spec_count_valid(msg, sigs.push(sigs[m]), validators) == spec_count_valid(
            msg,
            sigs,
            validators,
        ),
{
    let sig = sigs[m];
    assert(sigs.push(sig).drop_last() =~= sigs);
    match first_matching_validator(msg, sig, validators) {
        Some(j) => {
            lemma_matched_set_contains(msg, sigs, validators, m, j);
            assert(matched_validator_set(msg, sigs, validators).insert(j)
                =~= matched_validator_set(msg, sigs, validators));
        },
        None => {},
    }
}

/// Initialization rejects every out-of-range parameter: a fee above 100%, an
/// empty or oversized validator roster, and a threshold of zero or above the
/// roster size all fail.
pub proof fn lemma_initialize_rejects_bad_parameters(
    program_id: Seq<u8>,
    admin_account: AccountView,
    config_account: AccountView,
    vault_pda_key: Seq<u8>,
    admin: Pubkey,
    fee_basis_points: u16,
    validators: Seq<Pubkey>,
    validator_threshold: u8,
)
    requires
        fee_basis_points > 10000 || validators.len() == 0 || validators.len() > MAX_VALIDATORS
            || validator_threshold == 0 || validator_threshold as int > validators.len(),
    ensures
        !(initialize_check(
            program_id,
            admin_account,
            config_account,
            vault_pda_key,
            admin,
            fee_basis_points,
            validators,
            validator_threshold,
        ) is None),
{
}

/// Pausing blocks locks but not releases: a paused vault fails every lock
/// with `BridgePaused` once the caller signed and the storage is the
/// module's, while the outcome of a release does not depend on the paused
/// flag at all.
pub proof fn lemma_pause_blocks_lock_only(
    program_id: Seq<u8>,
    user_account: AccountView,
    user_token: TokenAccountView,
    record_key: Seq<u8>,
    relayer_account: AccountView,
    user_key: Seq<u8>,
    vault_pda_key: Seq<u8>,
    record_account_owner: Seq<u8>,
    config_account: AccountView,
    config: BridgeConfig,
    record: UserBridgeState,
    token_mint_key: Seq<u8>,
    amount: u64,
    destination_chain: u8,
    nonce: u64,
    signatures: Seq<SignatureBytes>,
)
    requires
        config.is_paused,
        user_account.is_signer,
        config_account.owner@ == program_id,
    ensures
        lock_check(
            program_id,
            user_account,
            user_token,
            record_key,
            config_account,
            config,
            token_mint_key,
            amount,
            destination_chain,
        ) == Some(VaultError::Custom(BridgeError::BridgePaused)),
        unlock_check(
            program_id,
            relayer_account,
            user_key,
            vault_pda_key,
            record_account_owner,
            config_account,
            config,
            record,
            nonce,
            signatures,
        ) == unlock_check(
            program_id,
            relayer_account,
            user_key,
            vault_pda_key,
            record_account_owner,
            config_account,
            BridgeConfig { is_paused: false, ..config },
            record,
            nonce,
            signatures,
        ),
{
}

/// The modeled account set one custody instruction references: the signing
/// caller, the config storage and its decoded value, the derived addresses
/// handed in, the caller's token balance, the targeted lock record, and the
/// clock reading.
pub struct VaultAccounts {
    pub signer: AccountView,
    pub config_account: AccountView,
    pub config: Option<BridgeConfig>,
    pub vault_pda_key: Pubkey,
    pub user_key: Pubkey,
    pub user_token: TokenAccountView,
    pub token_mint_key: Pubkey,
    pub record_key: Pubkey,
    pub record_account_owner: Pubkey,
    pub record: Option<UserBridgeState>,
    pub now: i64,
}

/// What a successful instruction did.
pub enum VaultEffect {
    Initialized,
    Locked(LockOutcome),
    Unlocked(u64),
    ConfigUpdated,
    Paused,
    Unpaused,
}

/// The dispatcher's whole contract: what running `instruction` against the
/// account set `a` must leave behind in `a1` and return in `r`. Each arm is
/// exactly the matching operation's contract, any failure leaves every
/// modeled account unchanged, and only the config and record cells may move.
pub open spec fn process_post(
    program_id: Seq<u8>,
    a: VaultAccounts,
    a1: VaultAccounts,
    instruction: crate::instruction::BridgeInstruction,
    r: Result<VaultEffect, VaultError>,
) -> bool {
    &&& a1.signer == a.signer
    &&& a1.config_account == a.config_account
    &&& a1.vault_pda_key == a.vault_pda_key
    &&& a1.user_key == a.user_key
    &&& a1.user_token == a.user_token
    &&& a1.token_mint_key == a.token_mint_key
    &&& a1.record_key == a.record_key
    &&& a1.record_account_owner == a.record_account_owner
    &&& a1.now == a.now
    &&& (r is Err ==> a1 == a)
    &&& (match instruction {
                crate::instruction::BridgeInstruction::Initialize {
                    admin,
                    relayer_authority,
                    fee_basis_points,
                    validators,
                    validator_threshold,
                } => {
                    let check = initialize_check(
                        program_id,
                        a.signer,
                        a.config_account,
                        a.vault_pda_key@,
                        admin,
                        fee_basis_points,
                        validators@,
                        validator_threshold,
                    );
                    match r {
                        Ok(eff) => {
                            &&& check is None
                            &&& eff is Initialized
                            &&& (a1.config matches Some(c) && c.admin == admin
                                && c.relayer_authority == relayer_authority
                                && c.fee_basis_points == fee_basis_points && !c.is_paused
                                && c.total_locked == 0 && c.nonce == 0 && c.validators
                                == validators && c.validator_threshold == validator_threshold
                                && config_wf(&c))
                            &&& a1.record == a.record
                        },
                        Err(e) => check == Some(e),
                    }
                },
                crate::instruction::BridgeInstruction::LockTokens {
                    amount,
                    destination_chain,
                    destination_address,
                } => {
                    match r {
                        Ok(eff) => {
                            &&& a.config matches Some(c0)
                            &&& lock_check(
                                program_id,
                                a.signer,
                                a.user_token,
                                a.record_key@,
                                a.config_account,
                                c0,
                                a.token_mint_key@,
                                amount,
                                destination_chain,
                            ) is None
                            &&& (eff matches VaultEffect::Locked(o) && {
                                &&& o.fee == spec_fee(amount, c0.fee_basis_points)
                                &&& o.net_amount == amount - o.fee
                                &&& o.record.nonce == c0.nonce
                                &&& o.record.locked_amount == o.net_amount
                                &&& o.record.status is Pending
                                &&& !o.record.unlocked
                                &&& a1.record == Some(o.record)
                                &&& a1.config == Some(
                                    BridgeConfig {
                                        nonce: (c0.nonce + 1) as u64,
                                        total_locked: (c0.total_locked + o.net_amount) as u64,
                                        ..c0
                                    },
                                )
                            })
                        },
                        Err(e) => {
                            if a.config is None {
                                e == VaultError::InvalidAccountData
                            } else {
                                lock_check(
                                    program_id,
                                    a.signer,
                                    a.user_token,
                                    a.record_key@,
                                    a.config_account,
                                    a.config->0,
                                    a.token_mint_key@,
                                    amount,
                                    destination_chain,
                                ) == Some(e)
                            }
                        },
                    }
                },
                crate::instruction::BridgeInstruction::UnlockTokens { nonce, signatures } => {
                    match r {
                        Ok(eff) => {
                            &&& a.config matches Some(c0)
                            &&& a.record matches Some(rec0)
                            &&& unlock_check(
                                program_id,
                                a.signer,
                                a.user_key@,
                                a.vault_pda_key@,
                                a.record_account_owner@,
                                a.config_account,
                                c0,
                                rec0,
                                nonce,
                                signatures@,
                            ) is None
                            &&& eff == VaultEffect::Unlocked(rec0.locked_amount)
                            &&& a1.record == Some(
                                UserBridgeState {
                                    status: BridgeStatus::Completed,
                                    unlocked: true,
                                    ..rec0
                                },
                            )
                            &&& a1.config == Some(
                                BridgeConfig {
                                    total_locked: (c0.total_locked - rec0.locked_amount) as u64,
                                    ..c0
                                },
                            )
                        },
                        Err(e) => {
                            if a.config is None || a.record is None {
                                e == VaultError::InvalidAccountData
                            } else {
                                unlock_check(
                                    program_id,
                                    a.signer,
                                    a.user_key@,
                                    a.vault_pda_key@,
                                    a.record_account_owner@,
                                    a.config_account,
                                    a.config->0,
                                    a.record->0,
                                    nonce,
                                    signatures@,
                                ) == Some(e)
                            }
                        },
                    }
                },
                crate::instruction::BridgeInstruction::UpdateConfig {
                    new_admin,
                    new_relayer,
                    new_fee,
                } => {
                    match r {
                        Ok(eff) => {
                            &&& a.config matches Some(c0)
                            &&& admin_check(program_id, a.signer, a.config_account, c0) is None
                            &&& (new_fee matches Some(f) ==> f <= 10000)
                            &&& eff is ConfigUpdated
                            &&& a1.config == Some(
                                BridgeConfig {
                                    admin: if new_admin is Some {
                                        new_admin->0
                                    } else {
                                        c0.admin
                                    },
                                    relayer_authority: if new_relayer is Some {
                                        new_relayer->0
                                    } else {
                                        c0.relayer_authority
                                    },
                                    fee_basis_points: if new_fee is Some {
                                        new_fee->0
                                    } else {
                                        c0.fee_basis_points
                                    },
                                    ..c0
                                },
                            )
                            &&& a1.record == a.record
                        },
                        Err(e) => {
                            if a.config is None {
                                e == VaultError::InvalidAccountData
                            } else {
                                let check = admin_check(
                                    program_id,
                                    a.signer,
                                    a.config_account,
                                    a.config->0,
                                );
                                if check is Some {
                                    check == Some(e)
                                } else {
                                    new_fee matches Some(f) && f > 10000 && e
                                        == VaultError::Custom(BridgeError::InvalidFee)
                                }
                            }
                        },
                    }
                },
                crate::instruction::BridgeInstruction::Pause => {
                    match r {
                        Ok(eff) => {
                            &&& a.config matches Some(c0)
                            &&& admin_check(program_id, a.signer, a.config_account, c0) is None
                            &&& eff is Paused
                            &&& a1.config == Some(
                                BridgeConfig { is_paused: true, ..c0 },
                            )
                            &&& a1.record == a.record
                        },
                        Err(e) => {
                            if a.config is None {
                                e == VaultError::InvalidAccountData
                            } else {
                                admin_check(program_id, a.signer, a.config_account, a.config->0)
                                    == Some(e)
                            }
                        },
                    }
                },
                crate::instruction::BridgeInstruction::Unpause => {
                    match r {
                        Ok(eff) => {
                            &&& a.config matches Some(c0)
                            &&& admin_check(program_id, a.signer, a.config_account, c0) is None
                            &&& eff is Unpaused
                            &&& a1.config == Some(
                                BridgeConfig { is_paused: false, ..c0 },
                            )
                            &&& a1.record == a.record
                        },
                        Err(e) => {
                            if a.config is None {
                                e == VaultError::InvalidAccountData
                            } else {
                                admin_check(program_id, a.signer, a.config_account, a.config->0)
                                    == Some(e)
                            }
                        },
                    }
                },
            })
}

/// Run one decoded instruction against the modeled account set: the
/// dispatcher behind the packed entry point.
pub fn process_decoded(
    program_id: &Pubkey,
    accounts: &mut VaultAccounts,
    instruction: crate::instruction::BridgeInstruction,
) -> (r: Result<VaultEffect, VaultError>)
    requires
        old(accounts).config matches Some(c) ==> config_wf(&c),
    ensures
        process_post(program_id@, *old(accounts), *final(accounts), instruction, r),
{
    match instruction {
        crate::instruction::BridgeInstruction::Initialize {
            admin,
            relayer_authority,
            fee_basis_points,
            validators,
            validator_threshold,
        } => {
            let signer = accounts.signer;
            let config_account = accounts.config_account;
            let vault_pda_key = accounts.vault_pda_key;
            match initialize(
                program_id,
                &signer,
                &config_account,
                &vault_pda_key,
                admin,
                relayer_authority,
                fee_basis_points,
                validators,
                validator_threshold,
            ) {
                Ok(c) => {
                    accounts.config = Some(c);
                    Ok(VaultEffect::Initialized)
                },
                Err(e) => Err(e),
            }
        },
        crate::instruction::BridgeInstruction::LockTokens {
            amount,
            destination_chain,
            destination_address,
        } => {
            let mut c = match accounts.config.take() {
                Some(c) => c,
                None => {
                    return Err(VaultError::InvalidAccountData);
                },
            };
            let signer = accounts.signer;
            let user_token = accounts.user_token;
            let record_key = accounts.record_key;
            let config_account = accounts.config_account;
            let token_mint_key = accounts.token_mint_key;
            let now = accounts.now;
            let result = lock_tokens(
                program_id,
                &signer,
                &user_token,
                &record_key,
                &config_account,
                &mut c,
                &token_mint_key,
                amount,
                destination_chain,
                destination_address,
                now,
            );
            accounts.config = Some(c);
            match result {
                Ok(outcome) => {
                    accounts.record = Some(outcome.record);
                    Ok(VaultEffect::Locked(outcome))
                },
                Err(e) => Err(e),
            }
        },
        crate::instruction::BridgeInstruction::UnlockTokens { nonce, signatures } => {
            let mut c = match accounts.config.take() {
                Some(c) => c,
                None => {
                    return Err(VaultError::InvalidAccountData);
                },
            };
            let mut rec = match accounts.record.take() {
                Some(rec) => rec,
                None => {
                    accounts.config = Some(c);
                    return Err(VaultError::InvalidAccountData);
                },
            };
            let signer = accounts.signer;
            let user_key = accounts.user_key;
            let vault_pda_key = accounts.vault_pda_key;
            let record_account_owner = accounts.record_account_owner;
            let config_account = accounts.config_account;
            let result = unlock_tokens(
                program_id,
                &signer,
                &user_key,
                &vault_pda_key,
                &record_account_owner,
                &config_account,
                &mut c,
                &mut rec,
                nonce,
                &signatures,
            );
            accounts.config = Some(c);
            accounts.record = Some(rec);
            match result {
                Ok(amount) => Ok(VaultEffect::Unlocked(amount)),
                Err(e) => Err(e),
            }
        },
        crate::instruction::BridgeInstruction::UpdateConfig { new_admin, new_relayer, new_fee } => {
            let mut c = match accounts.config.take() {
                Some(c) => c,
                None => {
                    return Err(VaultError::InvalidAccountData);
                },
            };
            let signer = accounts.signer;
            let config_account = accounts.config_account;
            let result = update_config(
                program_id,
                &signer,
                &config_account,
                &mut c,
                new_admin,
                new_relayer,
                new_fee,
            );
            accounts.config = Some(c);
            match result {
                Ok(()) => Ok(VaultEffect::ConfigUpdated),
                Err(e) => Err(e),
            }
        },
        crate::instruction::BridgeInstruction::Pause => {
            let mut c = match accounts.config.take() {
                Some(c) => c,
                None => {
                    return Err(VaultError::InvalidAccountData);
                },
            };
            let signer = accounts.signer;
            let config_account = accounts.config_account;
            let result = pause(program_id, &signer, &config_account, &mut c);
            accounts.config = Some(c);
            match result {
                Ok(()) => Ok(VaultEffect::Paused),
                Err(e) => Err(e),
            }
        },
        crate::instruction::BridgeInstruction::Unpause => {
            let mut c = match accounts.config.take() {
                Some(c) => c,
                None => {
                    return Err(VaultError::InvalidAccountData);
                },
            };
            let signer = accounts.signer;
            let config_account = accounts.config_account;
            let result = unpause(program_id, &signer, &config_account, &mut c);
            accounts.config = Some(c);
            match result {
                Ok(()) => Ok(VaultEffect::Unpaused),
                Err(e) => Err(e),
            }
        },
    }
}

/// Decode and run one packed instruction. A payload that is not the wire
/// form of an instruction fails with `InvalidInstructionData` and changes
/// nothing; otherwise the call behaves as the dispatcher for an instruction
/// whose wire form the payload is: that instruction's whole per-variant
/// contract holds of the result and the account set.
pub fn process_instruction(
    program_id: &Pubkey,
    accounts: &mut VaultAccounts,
    instruction_data: &[u8],
) -> (r: Result<VaultEffect, VaultError>)
    requires
        old(accounts).config matches Some(c) ==> config_wf(&c),
    ensures
        !crate::instruction::well_formed_encoding(instruction_data@) ==> r == Err::<
            VaultEffect,
            VaultError,
        >(VaultError::InvalidInstructionData) && *final(accounts) == *old(accounts),
        r is Err ==> *final(accounts) == *old(accounts),
        crate::instruction::well_formed_encoding(instruction_data@) ==> exists|
            ix: crate::instruction::BridgeInstruction,
        |
            #[trigger] crate::instruction::spec_pack(ix) == instruction_data@ && process_post(
                program_id@,
                *old(accounts),
                *final(accounts),
                ix,
                r,
            ),
{
    match crate::instruction::BridgeInstruction::unpack(instruction_data) {
        Ok(instruction) => {
            let ghost ix0 = instruction;
            let result = process_decoded(program_id, accounts, instruction);
            proof {
                assert(crate::instruction::spec_pack(ix0) == instruction_data@ && process_post(
                    program_id@,
                    *old(accounts),
                    *accounts,
                    ix0,
                    result,
                ));
            }
            result
        },
        Err(_) => Err(VaultError::InvalidInstructionData),
    }
}

} // verus!
