use vstd::prelude::*;

use crate::error::VaultError;
use crate::state::{Pubkey, SignatureBytes};
use vstd::bytes::{
    spec_u16_to_le_bytes, spec_u32_to_le_bytes, spec_u32_from_le_bytes,
    spec_u64_to_le_bytes, u16_from_le_bytes, u16_to_le_bytes,
    u32_from_le_bytes, u32_to_le_bytes, u64_from_le_bytes, u64_to_le_bytes,
    lemma_auto_spec_u16_to_from_le_bytes, lemma_auto_spec_u32_to_from_le_bytes,
    lemma_auto_spec_u64_to_from_le_bytes,
};
use vstd::slice::slice_subrange;
use crate::crypto::{read_key, read_sig};

verus! {

/// One instruction of the custody module, as its callers submit it.
#[derive(Debug)]
pub enum BridgeInstruction {
    Initialize {
        admin: Pubkey,
        relayer_authority: Pubkey,
        fee_basis_points: u16,
        validators: Vec<Pubkey>,
        validator_threshold: u8,
    },
    LockTokens { amount: u64, destination_chain: u8, destination_address: [u8; 32] },
    UnlockTokens { nonce: u64, signatures: Vec<SignatureBytes> },
    UpdateConfig { new_admin: Option<Pubkey>, new_relayer: Option<Pubkey>, new_fee: Option<u16> },
    Pause,
    Unpause,
}

/// The concatenated bytes of a key list.
pub open spec fn keys_bytes(v: Seq<Pubkey>) -> Seq<u8>
    decreases v.len(),
{
    if v.len() == 0 {
        Seq::empty()
    } else {
        keys_bytes(v.drop_last()) + v.last()@
    }
}

/// The concatenated bytes of a signature list.
pub open spec fn sigs_bytes(v: Seq<SignatureBytes>) -> Seq<u8>
    decreases v.len(),
{
    if v.len() == 0 {
        Seq::empty()
    } else {
        sigs_bytes(v.drop_last()) + v.last()@
    }
}

/// An optional key: a presence byte, then the key when present.
pub open spec fn opt_key_bytes(o: Option<Pubkey>) -> Seq<u8> {
    match o {
        None => seq![0u8],
        Some(k) => seq![1u8] + k@,
    }
}

/// An optional fee: a presence byte, then the little-endian value when
/// present.
pub open spec fn opt_u16_bytes(o: Option<u16>) -> Seq<u8> {
    match o {
        None => seq![0u8],
        Some(x) => seq![1u8] + spec_u16_to_le_bytes(x),
    }
}

/// An instruction whose lists fit their length prefixes.
pub open spec fn instruction_wf(i: BridgeInstruction) -> bool {
    match i {
        BridgeInstruction::Initialize { validators, .. } => validators@.len() <= u32::MAX,
        BridgeInstruction::UnlockTokens { signatures, .. } => signatures@.len() <= u32::MAX,
        _ => true,
    }
}

/// The instruction's wire form: a tag byte, then its fields as little-endian
/// fixed-width values, lists carrying a 32-bit length prefix.
pub open spec fn spec_pack(i: BridgeInstruction) -> Seq<u8> {
    match i {
        BridgeInstruction::Initialize {
            admin,
            relayer_authority,
            fee_basis_points,
            validators,
            validator_threshold,
        } => seq![0u8] + admin@ + relayer_authority@ + spec_u16_to_le_bytes(fee_basis_points)
            + spec_u32_to_le_bytes(validators@.len() as u32) + keys_bytes(validators@) + seq![
            validator_threshold,
        ],
        BridgeInstruction::LockTokens { amount, destination_chain, destination_address } => seq![
            1u8,
        ] + spec_u64_to_le_bytes(amount) + seq![destination_chain] + destination_address@,
        BridgeInstruction::UnlockTokens { nonce, signatures } => seq![2u8] + spec_u64_to_le_bytes(
            nonce,
        ) + spec_u32_to_le_bytes(signatures@.len() as u32) + sigs_bytes(signatures@),
        BridgeInstruction::UpdateConfig { new_admin, new_relayer, new_fee } => seq![3u8]
            + opt_key_bytes(new_admin) + opt_key_bytes(new_relayer) + opt_u16_bytes(new_fee),
        BridgeInstruction::Pause => seq![4u8],
        BridgeInstruction::Unpause => seq![5u8],
    }
}

/// How many bytes an optional field occupies at `off`, when it is well
/// formed there: one for the presence byte, plus `payload` when present.
pub open spec fn opt_len_at(data: Seq<u8>, off: int, payload: int) -> Option<int> {
    if !(0 <= off < data.len()) {
        None
    } else if data[off] == 0 {
        Some(1)
    } else if data[off] == 1 && off + 1 + payload <= data.len() {
        Some(1 + payload)
    } else {
        None
    }
}

/// Whether `data` is exactly the wire form of some instruction.
pub open spec fn well_formed_encoding(data: Seq<u8>) -> bool {
    if data.len() == 0 {
        false
    } else if data[0] == 0 {
        data.len() >= 72 && data.len() == 72 + 32 * spec_u32_from_le_bytes(
            data.subrange(67, 71),
        )
    } else if data[0] == 1 {
        data.len() == 42
    } else if data[0] == 2 {
        data.len() >= 13 && data.len() == 13 + 64 * spec_u32_from_le_bytes(data.subrange(9, 13))
    } else if data[0] == 3 {
        match opt_len_at(data, 1, 32) {
            Some(l1) => match opt_len_at(data, 1 + l1, 32) {
                Some(l2) => match opt_len_at(data, 1 + l1 + l2, 2) {
                    Some(l3) => data.len() == 1 + l1 + l2 + l3,
                    None => false,
                },
                None => false,
            },
            None => false,
        }
    } else if data[0] == 4 || data[0] == 5 {
        data.len() == 1
    } else {
        false
    }
}

/// A key list's bytes take 32 bytes per key.
pub proof fn lemma_keys_bytes_len(v: Seq<Pubkey>)
    ensures
        keys_bytes(v).len() == 32 * v.len(),
    decreases v.len(),
{
    if v.len() > 0 {
        lemma_keys_bytes_len(v.drop_last());
    }
}

/// A signature list's bytes take 64 bytes per signature.
pub proof fn lemma_sigs_bytes_len(v: Seq<SignatureBytes>)
    ensures
        sigs_bytes(v).len() == 64 * v.len(),
    decreases v.len(),
{
    if v.len() > 0 {
        lemma_sigs_bytes_len(v.drop_last());
    }
}

/// Every instruction's wire form decodes: packing always produces a well
/// formed encoding, so a round trip through `pack` and `unpack` succeeds.
pub proof fn lemma_pack_well_formed(i: BridgeInstruction)
    requires
        instruction_wf(i),
    ensures
        well_formed_encoding(spec_pack(i)),
{
    lemma_auto_spec_u16_to_from_le_bytes();
    lemma_auto_spec_u32_to_from_le_bytes();
    lemma_auto_spec_u64_to_from_le_bytes();
    let data = spec_pack(i);
    match i {
        BridgeInstruction::Initialize { fee_basis_points, validators, .. } => {
            lemma_keys_bytes_len(validators@);
            let n = validators@.len();
            assert(data.len() == 72 + 32 * n);
            assert(data[0] == 0);
            assert(data.subrange(67, 71) =~= spec_u32_to_le_bytes(n as u32));
            assert(spec_u32_from_le_bytes(data.subrange(67, 71)) == n);
        },
        BridgeInstruction::LockTokens { .. } => {
            assert(data.len() == 42);
            assert(data[0] == 1);
        },
        BridgeInstruction::UnlockTokens { signatures, .. } => {
            lemma_sigs_bytes_len(signatures@);
            let n = signatures@.len();
            assert(data.len() == 13 + 64 * n);
            assert(data[0] == 2);
            assert(data.subrange(9, 13) =~= spec_u32_to_le_bytes(n as u32));
            assert(spec_u32_from_le_bytes(data.subrange(9, 13)) == n);
        },
        BridgeInstruction::UpdateConfig { new_admin, new_relayer, new_fee } => {
            assert(data[0] == 3);
            let l1 = opt_key_bytes(new_admin).len() as int;
            let l2 = opt_key_bytes(new_relayer).len() as int;
            let l3 = opt_u16_bytes(new_fee).len() as int;
            assert(data.len() == 1 + l1 + l2 + l3);
            assert(data[1] == if new_admin is Some { 1u8 } else { 0u8 });
            assert(opt_len_at(data, 1, 32) == Some(l1));
            assert(data[1 + l1] == if new_relayer is Some { 1u8 } else { 0u8 });
            assert(opt_len_at(data, 1 + l1, 32) == Some(l2));
            assert(data[1 + l1 + l2] == if new_fee is Some { 1u8 } else { 0u8 });
            assert(opt_len_at(data, 1 + l1 + l2, 2) == Some(l3));
        },
        BridgeInstruction::Pause => {
            assert(data[0] == 4);
        },
        BridgeInstruction::Unpause => {
            assert(data[0] == 5);
        },
    }
}

impl BridgeInstruction {
    /// Encode the instruction into its wire form.
    pub fn pack(&self) -> (r: Vec<u8>)
        requires
            instruction_wf(*self),
        ensures
            r@ == spec_pack(*self),
    {
        proof {
            lemma_auto_spec_u16_to_from_le_bytes();
            lemma_auto_spec_u32_to_from_le_bytes();
            lemma_auto_spec_u64_to_from_le_bytes();
        }
        let mut out: Vec<u8> = Vec::new();
        match self {
            BridgeInstruction::Initialize {
                admin,
                relayer_authority,
                fee_basis_points,
                validators,
                validator_threshold,
            } => {
                out.push(0u8);
                crate::crypto::push_bytes(&mut out, admin.as_slice());
                crate::crypto::push_bytes(&mut out, relayer_authority.as_slice());
                let fee = u16_to_le_bytes(*fee_basis_points);
                crate::crypto::push_bytes(&mut out, fee.as_slice());
                let count = u32_to_le_bytes(validators.len() as u32);
                crate::crypto::push_bytes(&mut out, count.as_slice());
                let ghost prefix = out@;
                let mut i: usize = 0;
                while i < validators.len()
                    invariant
                        i <= validators@.len(),
                        out@ == prefix + keys_bytes(validators@.subrange(0, i as int)),
                    decreases validators@.len() - i,
                {
                    proof {
                        assert(validators@.subrange(0, i + 1).drop_last() =~= validators@.subrange(
                            0,
                            i as int,
                        ));
                        assert(validators@.subrange(0, i + 1).last() == validators@[i as int]);
                    }
                    crate::crypto::push_bytes(&mut out, validators[i].as_slice());
                    i += 1;
                }
                proof {
                    assert(validators@.subrange(0, validators@.len() as int) =~= validators@);
                }
                out.push(*validator_threshold);
                assert(out@ =~= spec_pack(*self));
            },
            BridgeInstruction::LockTokens { amount, destination_chain, destination_address } => {
                out.push(1u8);
                let a = u64_to_le_bytes(*amount);
                crate::crypto::push_bytes(&mut out, a.as_slice());
                out.push(*destination_chain);
                crate::crypto::push_bytes(&mut out, destination_address.as_slice());
                assert(out@ =~= spec_pack(*self));
            },
            BridgeInstruction::UnlockTokens { nonce, signatures } => {
                out.push(2u8);
                let n = u64_to_le_bytes(*nonce);
                crate::crypto::push_bytes(&mut out, n.as_slice());
                let count = u32_to_le_bytes(signatures.len() as u32);
                crate::crypto::push_bytes(&mut out, count.as_slice());
                let ghost prefix = out@;
                let mut i: usize = 0;
                while i < signatures.len()
                    invariant
                        i <= signatures@.len(),
                        out@ == prefix + sigs_bytes(signatures@.subrange(0, i as int)),
                    decreases signatures@.len() - i,
                {
                    proof {
                        assert(signatures@.subrange(0, i + 1).drop_last() =~= signatures@.subrange(
                            0,
                            i as int,
                        ));
                        assert(signatures@.subrange(0, i + 1).last() == signatures@[i as int]);
                    }
                    crate::crypto::push_bytes(&mut out, signatures[i].as_slice());
                    i += 1;
                }
                proof {
                    assert(signatures@.subrange(0, signatures@.len() as int) =~= signatures@);
                }
                assert(out@ =~= spec_pack(*self));
            },
            BridgeInstruction::UpdateConfig { new_admin, new_relayer, new_fee } => {
                out.push(3u8);
                match new_admin {
                    Some(k) => {
                        out.push(1u8);
                        crate::crypto::push_bytes(&mut out, k.as_slice());
                    },
                    None => {
                        out.push(0u8);
                    },
                }
                match new_relayer {
                    Some(k) => {
                        out.push(1u8);
                        crate::crypto::push_bytes(&mut out, k.as_slice());
                    },
                    None => {
                        out.push(0u8);
                    },
                }
                match new_fee {
                    Some(f) => {
                        out.push(1u8);
                        let fb = u16_to_le_bytes(*f);
                        crate::crypto::push_bytes(&mut out, fb.as_slice());
                    },
                    None => {
                        out.push(0u8);
                    },
                }
                assert(out@ =~= spec_pack(*self));
            },
            BridgeInstruction::Pause => {
                out.push(4u8);
                assert(out@ =~= spec_pack(*self));
            },
            BridgeInstruction::Unpause => {
                out.push(5u8);
                assert(out@ =~= spec_pack(*self));
            },
        }
        out
    }

    /// Decode an instruction from its wire form. Succeeds exactly on the
    /// byte strings that are the wire form of some instruction, and then
    /// returns that instruction.
    #[verifier::loop_isolation(false)]
    pub fn unpack(input: &[u8]) -> (r: Result<BridgeInstruction, VaultError>)
        ensures
            well_formed_encoding(input@) == (r is Ok),
            r matches Ok(i) ==> input@ == spec_pack(i) && instruction_wf(i),
    {
        proof {
            lemma_auto_spec_u16_to_from_le_bytes();
            lemma_auto_spec_u32_to_from_le_bytes();
            lemma_auto_spec_u64_to_from_le_bytes();
        }
        if input.len() == 0 {
            return Err(VaultError::InvalidInstructionData);
        }
        let tag = input[0];
        if tag == 0 {
            if input.len() < 72 {
                return Err(VaultError::InvalidInstructionData);
            }
            let admin = read_key(input, 1);
            let relayer_authority = read_key(input, 33);
            let fee_basis_points = u16_from_le_bytes(slice_subrange(input, 65, 67));
            let count = u32_from_le_bytes(slice_subrange(input, 67, 71));
            let body = input.len() - 72;
            if body % 32 != 0 || body / 32 != count as usize {
                return Err(VaultError::InvalidInstructionData);
            }
            let mut validators: Vec<Pubkey> = Vec::new();
            let mut i: usize = 0;
            while i < count as usize
                invariant
                    i <= count,
                    input@.len() == 72 + 32 * count,
                    validators@.len() == i,
                    keys_bytes(validators@) == input@.subrange(71, 71 + 32 * i),
                decreases count - i,
            {
                let k = read_key(input, 71 + 32 * i);
                let ghost vals0 = validators@;
                validators.push(k);
                proof {
                    assert(validators@.drop_last() =~= vals0);
                    assert(input@.subrange(71, 71 + 32 * (i + 1)) =~= input@.subrange(
                        71,
                        71 + 32 * i,
                    ) + input@.subrange(71 + 32 * i, 71 + 32 * (i + 1)));
                }
                i += 1;
            }
            let validator_threshold = input[input.len() - 1];
            let result = BridgeInstruction::Initialize {
                admin,
                relayer_authority,
                fee_basis_points,
                validators,
                validator_threshold,
            };
            proof {
                assert(input@ =~= spec_pack(result));
            }
            Ok(result)
        } else if tag == 1 {
            if input.len() != 42 {
                return Err(VaultError::InvalidInstructionData);
            }
            let amount = u64_from_le_bytes(slice_subrange(input, 1, 9));
            let destination_chain = input[9];
            let destination_address = read_key(input, 10);
            let result = BridgeInstruction::LockTokens {
                amount,
                destination_chain,
                destination_address,
            };
            proof {
                assert(input@ =~= spec_pack(result));
            }
            Ok(result)
        } else if tag == 2 {
            if input.len() < 13 {
                return Err(VaultError::InvalidInstructionData);
            }
            let nonce = u64_from_le_bytes(slice_subrange(input, 1, 9));
            let count = u32_from_le_bytes(slice_subrange(input, 9, 13));
            let body = input.len() - 13;
            if body % 64 != 0 || body / 64 != count as usize {
                return Err(VaultError::InvalidInstructionData);
            }
            let mut signatures: Vec<SignatureBytes> = Vec::new();
            let mut i: usize = 0;
            while i < count as usize
                invariant
                    i <= count,
                    input@.len() == 13 + 64 * count,
                    signatures@.len() == i,
                    sigs_bytes(signatures@) == input@.subrange(13, 13 + 64 * i),
                decreases count - i,
            {
                let s = read_sig(input, 13 + 64 * i);
                let ghost sigs0 = signatures@;
                signatures.push(s);
                proof {
                    assert(signatures@.drop_last() =~= sigs0);
                    assert(input@.subrange(13, 13 + 64 * (i + 1)) =~= input@.subrange(
                        13,
                        13 + 64 * i,
                    ) + input@.subrange(13 + 64 * i, 13 + 64 * (i + 1)));
                }
                i += 1;
            }
            let result = BridgeInstruction::UnlockTokens { nonce, signatures };
            proof {
                assert(input@ =~= spec_pack(result));
            }
            Ok(result)
        } else if tag == 3 {
            let mut off: usize = 1;
            let new_admin: Option<Pubkey>;
            if off >= input.len() {
                return Err(VaultError::InvalidInstructionData);
            }
            if input[off] == 0 {
                new_admin = None;
                off += 1;
            } else if input[off] == 1 && off + 33 <= input.len() {
                new_admin = Some(read_key(input, off + 1));
                off += 33;
            } else {
                return Err(VaultError::InvalidInstructionData);
            }
            let new_relayer: Option<Pubkey>;
            if off >= input.len() {
                return Err(VaultError::InvalidInstructionData);
            }
            if input[off] == 0 {
                new_relayer = None;
                off += 1;
            } else if input[off] == 1 && off + 33 <= input.len() {
                new_relayer = Some(read_key(input, off + 1));
                off += 33;
            } else {
                return Err(VaultError::InvalidInstructionData);
            }
            let new_fee: Option<u16>;
            if off >= input.len() {
                return Err(VaultError::InvalidInstructionData);
            }
            if input[off] == 0 {
                new_fee = None;
                off += 1;
            } else if input[off] == 1 && off + 3 <= input.len() {
                new_fee = Some(u16_from_le_bytes(slice_subrange(input, off + 1, off + 3)));
                off += 3;
            } else {
                return Err(VaultError::InvalidInstructionData);
            }
            if off != input.len() {
                return Err(VaultError::InvalidInstructionData);
            }
            let result = BridgeInstruction::UpdateConfig { new_admin, new_relayer, new_fee };
            proof {
                assert(input@ =~= spec_pack(result));
            }
            Ok(result)
        } else if tag == 4 {
            if input.len() != 1 {
                return Err(VaultError::InvalidInstructionData);
            }
            let result = BridgeInstruction::Pause;
            proof {
                assert(input@ =~= spec_pack(result));
            }
            Ok(result)
        } else if tag == 5 {
            if input.len() != 1 {
                return Err(VaultError::InvalidInstructionData);
            }
            let result = BridgeInstruction::Unpause;
            proof {
                assert(input@ =~= spec_pack(result));
            }
            Ok(result)
        } else {
            Err(VaultError::InvalidInstructionData)
        }
    }
}

} // verus!
