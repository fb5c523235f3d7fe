use vstd::prelude::*;

use crate::crypto::{push_bytes, read_key};
use crate::error::VaultError;
use vstd::bytes::{
    lemma_auto_spec_u16_to_from_le_bytes, lemma_auto_spec_u32_to_from_le_bytes,
    lemma_auto_spec_u64_to_from_le_bytes, spec_u16_to_le_bytes, spec_u32_from_le_bytes,
    spec_u32_to_le_bytes, spec_u64_to_le_bytes, u16_from_le_bytes, u16_to_le_bytes,
    u32_from_le_bytes, u32_to_le_bytes, u64_from_le_bytes, u64_to_le_bytes,
};
use vstd::slice::slice_subrange;

verus! {

/// A 32-byte account identity, the canonical key form of the custody chain.
pub type Pubkey = [u8; 32];

/// Raw bytes of one validator signature.
pub type SignatureBytes = [u8; 64];

/// Largest allowed validator roster.
pub const MAX_VALIDATORS: usize = 5;

/// The identity that owns storage not yet claimed by any module.
pub open spec fn zero_key() -> Seq<u8> {
    Seq::new(32, |i: int| 0u8)
}

/// True exactly when `k` is the all-zero identity.
pub fn is_zero_key(k: &Pubkey) -> (r: bool)
    ensures
        r == (k@ == zero_key()),
{
    let mut i: usize = 0;
    while i < 32
        invariant
            i <= 32,
            forall|j: int| 0 <= j < i ==> k@[j] == 0u8,
        decreases 32 - i,
    {
        if k[i] != 0 {
            assert(k@ != zero_key()) by {
                assert(k@[i as int] != zero_key()[i as int]);
            }
            return false;
        }
        i += 1;
    }
    assert(k@ =~= zero_key());
    true
}

/// True exactly when the two identities hold the same bytes.
pub fn pubkey_eq(a: &Pubkey, b: &Pubkey) -> (r: bool)
    ensures
        r == (a@ == b@),
{
    let mut i: usize = 0;
    while i < 32
        invariant
            i <= 32,
            forall|j: int| 0 <= j < i ==> a@[j] == b@[j],
        decreases 32 - i,
    {
        if a[i] != b[i] {
            assert(a@ != b@) by {
                assert(a@[i as int] != b@[i as int]);
            }
            return false;
        }
        i += 1;
    }
    assert(a@ =~= b@);
    true
}

/// Lifecycle of one lock record.
#[derive(Clone, Copy, Debug, PartialEq, Eq, Structural)]
pub enum BridgeStatus {
    Pending,
    Completed,
    Cancelled,
}

/// The per-vault configuration record.
#[derive(Debug, Clone)]
pub struct BridgeConfig {
    pub admin: Pubkey,
    pub vault_pda_bump: u8,
    pub relayer_authority: Pubkey,
    pub fee_basis_points: u16,
    pub is_paused: bool,
    pub total_locked: u64,
    pub nonce: u64,
    pub validators: Vec<Pubkey>,
    pub validator_threshold: u8,
}

/// The invariant every persisted configuration obeys.
pub open spec fn config_wf(c: &BridgeConfig) -> bool {
    &&& c.fee_basis_points <= 10000
    &&& 1 <= c.validators@.len() <= MAX_VALIDATORS
    &&& 1 <= c.validator_threshold <= c.validators@.len()
}

/// One lock operation's permanent record.
#[derive(Debug, Clone, Copy)]
pub struct UserBridgeState {
    pub user: Pubkey,
    pub locked_amount: u64,
    pub token_mint: Pubkey,
    pub destination_chain: u8,
    pub destination_address: [u8; 32],
    pub status: BridgeStatus,
    pub nonce: u64,
    pub timestamp: i64,
    pub unlocked: bool,
}

/// The status's storage byte.
pub open spec fn spec_status_byte(s: BridgeStatus) -> u8 {
    match s {
        BridgeStatus::Pending => 0,
        BridgeStatus::Completed => 1,
        BridgeStatus::Cancelled => 2,
    }
}

/// A flag's storage byte.
pub open spec fn spec_bool_byte(b: bool) -> u8 {
    if b {
        1
    } else {
        0
    }
}

/// The config record's storage form: every field in declaration order,
/// integers little endian, the validator list behind a 32-bit length prefix.
pub open spec fn spec_serialize_config(c: BridgeConfig) -> Seq<u8> {
    c.admin@ + seq![c.vault_pda_bump] + c.relayer_authority@ + spec_u16_to_le_bytes(
        c.fee_basis_points,
    ) + seq![spec_bool_byte(c.is_paused)] + spec_u64_to_le_bytes(c.total_locked)
        + spec_u64_to_le_bytes(c.nonce) + spec_u32_to_le_bytes(c.validators@.len() as u32)
        + crate::instruction::keys_bytes(c.validators@) + seq![c.validator_threshold]
}

/// Whether `data` is exactly the storage form of some config record.
pub open spec fn config_encoding_wf(data: Seq<u8>) -> bool {
    &&& data.len() >= 89
    &&& data[67] <= 1
    &&& data.len() == 89 + 32 * spec_u32_from_le_bytes(data.subrange(84, 88))
}

/// The lock record's storage form: every field in declaration order,
/// integers little endian, 123 bytes in all.
pub open spec fn spec_serialize_user_state(u: UserBridgeState) -> Seq<u8> {
    u.user@ + spec_u64_to_le_bytes(u.locked_amount) + u.token_mint@ + seq![u.destination_chain]
        + u.destination_address@ + seq![spec_status_byte(u.status)] + spec_u64_to_le_bytes(u.nonce)
        + spec_u64_to_le_bytes(u.timestamp as u64) + seq![spec_bool_byte(u.unlocked)]
}

/// Whether `data` is exactly the storage form of some lock record.
pub open spec fn user_state_encoding_wf(data: Seq<u8>) -> bool {
    data.len() == 123 && data[105] <= 2 && data[122] <= 1
}

/// Every config's storage form decodes: serialization always produces a
/// well formed encoding, so a round trip through `serialize` and
/// `try_from_slice` succeeds.
pub proof fn lemma_serialize_config_well_formed(c: BridgeConfig)
    requires
        c.validators@.len() <= u32::MAX,
    ensures
        config_encoding_wf(spec_serialize_config(c)),
{
    lemma_auto_spec_u16_to_from_le_bytes();
    lemma_auto_spec_u32_to_from_le_bytes();
    lemma_auto_spec_u64_to_from_le_bytes();
    crate::instruction::lemma_keys_bytes_len(c.validators@);
    let data = spec_serialize_config(c);
    let n = c.validators@.len();
    assert(data.len() == 89 + 32 * n);
    assert(data[67] == spec_bool_byte(c.is_paused));
    assert(data.subrange(84, 88) =~= spec_u32_to_le_bytes(n as u32));
    assert(spec_u32_from_le_bytes(data.subrange(84, 88)) == n);
}

/// Every lock record's storage form decodes: serialization always produces a
/// well formed encoding, so a round trip through `serialize` and
/// `try_from_slice` succeeds.
pub proof fn lemma_serialize_user_state_well_formed(u: UserBridgeState)
    ensures
        user_state_encoding_wf(spec_serialize_user_state(u)),
{
    lemma_auto_spec_u64_to_from_le_bytes();
    let data = spec_serialize_user_state(u);
    assert(data.len() == 123);
    assert(data[105] == spec_status_byte(u.status));
    assert(data[122] == spec_bool_byte(u.unlocked));
}

/// Read the status stored as one byte.
fn status_from_u8(b: u8) -> (r: Option<BridgeStatus>)
    ensures
        match r {
            Some(s) => spec_status_byte(s) == b,
            None => b > 2,
        },
{
    if b == 0 {
        Some(BridgeStatus::Pending)
    } else if b == 1 {
        Some(BridgeStatus::Completed)
    } else if b == 2 {
        Some(BridgeStatus::Cancelled)
    } else {
        None
    }
}

impl BridgeConfig {
    /// Encode the config for its storage account.
    pub fn serialize(&self) -> (r: Vec<u8>)
        requires
            self.validators@.len() <= u32::MAX,
        ensures
            r@ == spec_serialize_config(*self),
    {
        proof {
            lemma_auto_spec_u16_to_from_le_bytes();
            lemma_auto_spec_u32_to_from_le_bytes();
            lemma_auto_spec_u64_to_from_le_bytes();
        }
        let mut out: Vec<u8> = Vec::new();
        push_bytes(&mut out, self.admin.as_slice());
        out.push(self.vault_pda_bump);
        push_bytes(&mut out, self.relayer_authority.as_slice());
        let fee = u16_to_le_bytes(self.fee_basis_points);
        push_bytes(&mut out, fee.as_slice());
        out.push(if self.is_paused { 1 } else { 0 });
        let total = u64_to_le_bytes(self.total_locked);
        push_bytes(&mut out, total.as_slice());
        let nonce = u64_to_le_bytes(self.nonce);
        push_bytes(&mut out, nonce.as_slice());
        let count = u32_to_le_bytes(self.validators.len() as u32);
        push_bytes(&mut out, count.as_slice());
        let ghost prefix = out@;
        let mut i: usize = 0;
        while i < self.validators.len()
            invariant
                i <= self.validators@.len(),
                out@ == prefix + crate::instruction::keys_bytes(
                    self.validators@.subrange(0, i as int),
                ),
            decreases self.validators@.len() - i,
        {
            proof {
                assert(self.validators@.subrange(0, i + 1).drop_last()
                    =~= self.validators@.subrange(0, i as int));
                assert(self.validators@.subrange(0, i + 1).last() == self.validators@[i as int]);
            }
            push_bytes(&mut out, self.validators[i].as_slice());
            i += 1;
        }
        proof {
            assert(self.validators@.subrange(0, self.validators@.len() as int)
                =~= self.validators@);
        }
        out.push(self.validator_threshold);
        assert(out@ =~= spec_serialize_config(*self));
        out
    }

    /// Decode a config record from its storage form. Succeeds exactly on the
    /// byte strings that are the storage form of some record, and then
    /// returns that record.
    #[verifier::loop_isolation(false)]
    pub fn try_from_slice(data: &[u8]) -> (r: Result<BridgeConfig, VaultError>)
        ensures
            config_encoding_wf(data@) == (r is Ok),
            r matches Ok(c) ==> data@ == spec_serialize_config(c),
    {
        proof {
            lemma_auto_spec_u16_to_from_le_bytes();
            lemma_auto_spec_u32_to_from_le_bytes();
            lemma_auto_spec_u64_to_from_le_bytes();
        }
        if data.len() < 89 {
            return Err(VaultError::InvalidAccountData);
        }
        let admin = read_key(data, 0);
        let vault_pda_bump = data[32];
        let relayer_authority = read_key(data, 33);
        let fee_basis_points = u16_from_le_bytes(slice_subrange(data, 65, 67));
        if data[67] > 1 {
            return Err(VaultError::InvalidAccountData);
        }
        let is_paused = data[67] == 1;
        let total_locked = u64_from_le_bytes(slice_subrange(data, 68, 76));
        let nonce = u64_from_le_bytes(slice_subrange(data, 76, 84));
        let count = u32_from_le_bytes(slice_subrange(data, 84, 88));
        let body = data.len() - 89;
        if body % 32 != 0 || body / 32 != count as usize {
            return Err(VaultError::InvalidAccountData);
        }
        let mut validators: Vec<Pubkey> = Vec::new();
        let mut i: usize = 0;
        while i < count as usize
            invariant
                i <= count,
                data@.len() == 89 + 32 * count,
                validators@.len() == i,
                crate::instruction::keys_bytes(validators@) == data@.subrange(88, 88 + 32 * i),
            decreases count - i,
        {
            let k = read_key(data, 88 + 32 * i);
            let ghost vals0 = validators@;
            validators.push(k);
            proof {
                assert(validators@.drop_last() =~= vals0);
                assert(data@.subrange(88, 88 + 32 * (i + 1)) =~= data@.subrange(88, 88 + 32 * i)
                    + data@.subrange(88 + 32 * i, 88 + 32 * (i + 1)));
            }
            i += 1;
        }
        let validator_threshold = data[data.len() - 1];
        let result = BridgeConfig {
            admin,
            vault_pda_bump,
            relayer_authority,
            fee_basis_points,
            is_paused,
            total_locked,
            nonce,
            validators,
            validator_threshold,
        };
        proof {
            assert(data@ =~= spec_serialize_config(result));
        }
        Ok(result)
    }
}

impl UserBridgeState {
    /// Encode the lock record for its storage account.
    pub fn serialize(&self) -> (r: Vec<u8>)
        ensures
            r@ == spec_serialize_user_state(*self),
    {
        proof {
            lemma_auto_spec_u64_to_from_le_bytes();
        }
        let mut out: Vec<u8> = Vec::new();
        push_bytes(&mut out, self.user.as_slice());
        let locked = u64_to_le_bytes(self.locked_amount);
        push_bytes(&mut out, locked.as_slice());
        push_bytes(&mut out, self.token_mint.as_slice());
        out.push(self.destination_chain);
        push_bytes(&mut out, self.destination_address.as_slice());
        out.push(
            match self.status {
                BridgeStatus::Pending => 0,
                BridgeStatus::Completed => 1,
                BridgeStatus::Cancelled => 2,
            },
        );
        let nonce = u64_to_le_bytes(self.nonce);
        push_bytes(&mut out, nonce.as_slice());
        let ts = u64_to_le_bytes(self.timestamp as u64);
        push_bytes(&mut out, ts.as_slice());
        out.push(if self.unlocked { 1 } else { 0 });
        assert(out@ =~= spec_serialize_user_state(*self));
        out
    }

    /// Decode a lock record from its storage form. Succeeds exactly on the
    /// byte strings that are the storage form of some record, and then
    /// returns that record.
    pub fn try_from_slice(data: &[u8]) -> (r: Result<UserBridgeState, VaultError>)
        ensures
            user_state_encoding_wf(data@) == (r is Ok),
            r matches Ok(u) ==> data@ == spec_serialize_user_state(u),
    {
        proof {
            lemma_auto_spec_u64_to_from_le_bytes();
        }
        if data.len() != 123 {
            return Err(VaultError::InvalidAccountData);
        }
        let user = read_key(data, 0);
        let locked_amount = u64_from_le_bytes(slice_subrange(data, 32, 40));
        let token_mint = read_key(data, 40);
        let destination_chain = data[72];
        let destination_address = read_key(data, 73);
        let status = match status_from_u8(data[105]) {
            Some(s) => s,
            None => {
                return Err(VaultError::InvalidAccountData);
            },
        };
        let nonce = u64_from_le_bytes(slice_subrange(data, 106, 114));
        let ts_bits = u64_from_le_bytes(slice_subrange(data, 114, 122));
        let timestamp = ts_bits as i64;
        if data[122] > 1 {
            return Err(VaultError::InvalidAccountData);
        }
        let unlocked = data[122] == 1;
        let result = UserBridgeState {
            user,
            locked_amount,
            token_mint,
            destination_chain,
            destination_address,
            status,
            nonce,
            timestamp,
            unlocked,
        };
        proof {
            assert((ts_bits as i64) as u64 == ts_bits) by (bit_vector);
            assert(data@ =~= spec_serialize_user_state(result));
        }
        Ok(result)
    }
}

/// Widen a 20-byte account identity to the canonical 32-byte form,
/// zero-padded on the left.
pub fn eth_address_to_bytes32(eth_address: &[u8; 20]) -> (r: [u8; 32])
    ensures
        r@ == zero_key().subrange(0, 12) + eth_address@,
{
    let mut bytes32 = [0u8; 32];
    let mut i: usize = 0;
    while i < 20
        invariant
            i <= 20,
            bytes32@.len() == 32,
            forall|j: int| 0 <= j < 12 ==> bytes32@[j] == 0u8,
            forall|j: int| 0 <= j < i ==> bytes32@[12 + j] == eth_address@[j],
            forall|j: int| 12 + i <= j < 32 ==> bytes32@[j] == 0u8,
        decreases 20 - i,
    {
        bytes32[12 + i] = eth_address[i];
        i += 1;
    }
    assert(bytes32@ =~= zero_key().subrange(0, 12) + eth_address@);
    bytes32
}

/// Recover the 20-byte identity from its zero-padded 32-byte form.
pub fn bytes32_to_eth_address(bytes32: &[u8; 32]) -> (r: [u8; 20])
    ensures
        r@ == bytes32@.subrange(12, 32),
{
    let mut eth_address = [0u8; 20];
    let mut i: usize = 0;
    while i < 20
        invariant
            i <= 20,
            eth_address@.len() == 20,
            forall|j: int| 0 <= j < i ==> eth_address@[j] == bytes32@[12 + j],
        decreases 20 - i,
    {
        eth_address[i] = bytes32[12 + i];
        i += 1;
    }
    assert(eth_address@ =~= bytes32@.subrange(12, 32));
    eth_address
}

} // verus!
