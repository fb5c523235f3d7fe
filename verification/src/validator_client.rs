use vstd::prelude::*;

use crate::config::ValidatorConfig;
use crate::crypto::{hex_encode, hex_encode_spec, keccak256, keccak256_spec, push_bytes, sha256};
use crate::error::RelayerError;
use crate::processor::{unlock_preimage, unlock_tag};
use crate::types::ValidatorSignature;
use vstd::bytes::u64_to_le_bytes;
use vstd::string::StrSliceExecFns;
use vstd::string::StringExecFns;
use vstd::utf8::encode_utf8;

verus! {

/// The eight big-endian bytes of `x`.
pub open spec fn be_bytes_of_u64(x: u64) -> Seq<u8> {
    seq![
        (x >> 56) as u8,
        (x >> 48) as u8,
        (x >> 40) as u8,
        (x >> 32) as u8,
        (x >> 24) as u8,
        (x >> 16) as u8,
        (x >> 8) as u8,
        x as u8,
    ]
}

/// `x` as a 32-byte big-endian word, as an EVM `uint256` is packed.
pub open spec fn be_word_of_u64(x: u64) -> Seq<u8> {
    Seq::new(24, |i: int| 0u8) + be_bytes_of_u64(x)
}

/// Render `x` as eight big-endian bytes.
pub fn u64_to_be_bytes(x: u64) -> (r: [u8; 8])
    ensures
        r@ == be_bytes_of_u64(x),
{
    let r: [u8; 8] = [
        (x >> 56) as u8,
        (x >> 48) as u8,
        (x >> 40) as u8,
        (x >> 32) as u8,
        (x >> 24) as u8,
        (x >> 16) as u8,
        (x >> 8) as u8,
        x as u8,
    ];
    assert(r@ =~= be_bytes_of_u64(x));
    r
}

/// The packed bytes an EVM-style mint verifies: the 20-byte recipient, the
/// amount as a 32-byte word, the nonce as 8 big-endian bytes, then the origin
/// sender identity in UTF-8.
pub open spec fn eth_mint_preimage(
    recipient: Seq<u8>,
    amount: u64,
    nonce: u64,
    solana_sender: Seq<char>,
) -> Seq<u8> {
    recipient + be_word_of_u64(amount) + be_bytes_of_u64(nonce) + encode_utf8(solana_sender)
}

/// The validators each validator with a signing endpoint configured.
pub open spec fn active_validators(vs: Seq<ValidatorConfig>) -> Seq<ValidatorConfig> {
    vs.filter(|v: ValidatorConfig| v.endpoint is Some)
}

/// Collects validator endorsements of the canonical release message for a
/// transfer, one per validator that exposes a signing endpoint.
pub struct ValidatorClient {
    validators: Vec<ValidatorConfig>,
}

impl View for ValidatorClient {
    type V = Seq<ValidatorConfig>;

    closed spec fn view(&self) -> Seq<ValidatorConfig> {
        self.validators@
    }
}

impl ValidatorClient {
    /// A client over the given validator roster.
    pub fn new(validators: Vec<ValidatorConfig>) -> (r: ValidatorClient)
        ensures
            r@ == validators@,
    {
        ValidatorClient { validators }
    }

    /// The Keccak-256 message hash an EVM-style mint contract re-derives:
    /// signer and verifier must agree on these bytes exactly.
    pub fn create_ethereum_message_hash(
        &self,
        recipient: &[u8; 20],
        amount: u64,
        nonce: u64,
        solana_sender: &str,
    ) -> (r: [u8; 32])
        ensures
            r@ == keccak256_spec(eth_mint_preimage(recipient@, amount, nonce, solana_sender@)),
    {
        let mut data: Vec<u8> = Vec::new();
        push_bytes(&mut data, recipient.as_slice());
        let zeros = [0u8; 24];
        push_bytes(&mut data, zeros.as_slice());
        let amount_be = u64_to_be_bytes(amount);
        push_bytes(&mut data, amount_be.as_slice());
        let nonce_be = u64_to_be_bytes(nonce);
        push_bytes(&mut data, nonce_be.as_slice());
        push_bytes(&mut data, solana_sender.as_bytes());
        proof {
            assert(zeros@ =~= Seq::new(24, |i: int| 0u8));
            assert(data@ =~= eth_mint_preimage(recipient@, amount, nonce, solana_sender@));
        }
        keccak256(data.as_slice())
    }

    /// The SHA-256 message hash the source-chain custody module re-derives:
    /// the canonical release message over the nonce, the recipient bytes and
    /// the amount alone.
    pub fn create_solana_message_hash(
        &self,
        recipient: &str,
        amount: u64,
        nonce: u64,
        _ethereum_sender: &str,
    ) -> (r: [u8; 32])
        ensures
            r@ == crate::crypto::sha256_spec(
                unlock_preimage(nonce, encode_utf8(recipient@), amount),
            ),
    {
        let mut data: Vec<u8> = Vec::new();
        let tag: [u8; 7] = [117, 110, 108, 111, 99, 107, 58];
        assert(tag@ =~= unlock_tag());
        push_bytes(&mut data, tag.as_slice());
        let nonce_bytes = u64_to_le_bytes(nonce);
        push_bytes(&mut data, nonce_bytes.as_slice());
        push_bytes(&mut data, recipient.as_bytes());
        let amount_bytes = u64_to_le_bytes(amount);
        push_bytes(&mut data, amount_bytes.as_slice());
        assert(data@ =~= unlock_preimage(nonce, encode_utf8(recipient@), amount));
        sha256(data.as_slice())
    }

    /// Ask every validator with a signing endpoint to endorse an EVM-style
    /// mint, and fail with `InsufficientSignatures` when none is reachable.
    /// Each endorsement names the validator's EVM address and carries the
    /// message hash it signed, hex encoded, dated `now`.
    #[verifier::loop_isolation(false)]
    pub fn collect_signatures_for_ethereum_mint(
        &self,
        recipient: &[u8; 20],
        amount: u64,
        nonce: u64,
        solana_sender: &str,
        now: i64,
    ) -> (r: Result<Vec<ValidatorSignature>, RelayerError>)
        ensures
            ({
                let active = active_validators(self@);
                let payload = seq!['0', 'x'] + hex_encode_spec(
                    keccak256_spec(
                        eth_mint_preimage(recipient@, amount, nonce, solana_sender@),
                    ),
                );
                match r {
                    Ok(sigs) => {
                        &&& active.len() > 0
                        &&& sigs@.len() == active.len()
                        &&& forall|i: int|
                            0 <= i < active.len() ==> {
                                let s = #[trigger] sigs@[i];
                                s.validator_address@ == active[i].eth_address@ && s.signature@
                                    == payload && s.signed_at == now
                            }
                    },
                    Err(e) => active.len() == 0 && (e matches
                        RelayerError::InsufficientSignatures { expected, got } && expected
                        == self@.len() && got == 0),
                }
            }),
    {
        let message_hash = self.create_ethereum_message_hash(
            recipient,
            amount,
            nonce,
            solana_sender,
        );
        let mut payload = String::from_str("0x");
        let hex = hex_encode(message_hash.as_slice());
        payload.append(hex.as_str());
        proof {
            reveal_strlit("0x");
            assert(payload@ =~= seq!['0', 'x'] + hex_encode_spec(message_hash@));
        }
        let mut signatures: Vec<ValidatorSignature> = Vec::new();
        let mut i: usize = 0;
        proof {
            reveal(Seq::filter);
            assert(self@.subrange(0, 0) =~= Seq::<ValidatorConfig>::empty());
        }
        while i < self.validators.len()
            invariant
                i <= self@.len(),
                payload@ == seq!['0', 'x'] + hex_encode_spec(
                    keccak256_spec(
                        eth_mint_preimage(recipient@, amount, nonce, solana_sender@),
                    ),
                ),
                ({
                    let active = active_validators(self@.subrange(0, i as int));
                    &&& signatures@.len() == active.len()
                    &&& forall|k: int|
                        0 <= k < active.len() ==> {
                            let s = #[trigger] signatures@[k];
                            s.validator_address@ == active[k].eth_address@ && s.signature@
                                == payload@ && s.signed_at == now
                        }
                }),
            decreases self@.len() - i,
        {
            proof {
                reveal(Seq::filter);
                assert(self@.subrange(0, i + 1).drop_last() =~= self@.subrange(0, i as int));
                assert(self@.subrange(0, i + 1).last() == self@[i as int]);
            }
            let validator = &self.validators[i];
            if validator.endpoint.is_some() {
                signatures.push(
                    ValidatorSignature {
                        validator_address: validator.eth_address.clone(),
                        signature: payload.clone(),
                        signed_at: now,
                    },
                );
            }
            i += 1;
        }
        proof {
            assert(self@.subrange(0, self@.len() as int) =~= self@);
        }
        if signatures.len() == 0 {
            return Err(
                RelayerError::InsufficientSignatures { expected: self.validators.len(), got: 0 },
            );
        }
        Ok(signatures)
    }

    /// Ask every validator with a signing endpoint to endorse a source-chain
    /// unlock, and fail with `InsufficientSignatures` when none is reachable.
    /// Each endorsement names the validator's source-chain key and carries the
    /// message hash it signed, hex encoded, dated `now`.
    #[verifier::loop_isolation(false)]
    pub fn collect_signatures_for_solana_unlock(
        &self,
        recipient: &str,
        amount: u64,
        nonce: u64,
        ethereum_sender: &str,
        now: i64,
    ) -> (r: Result<Vec<ValidatorSignature>, RelayerError>)
        ensures
            ({
                let active = active_validators(self@);
                let payload = seq!['0', 'x'] + hex_encode_spec(
                    crate::crypto::sha256_spec(
                        unlock_preimage(nonce, encode_utf8(recipient@), amount),
                    ),
                );
                match r {
                    Ok(sigs) => {
                        &&& active.len() > 0
                        &&& sigs@.len() == active.len()
                        &&& forall|i: int|
                            0 <= i < active.len() ==> {
                                let s = #[trigger] sigs@[i];
                                s.validator_address@ == active[i].sol_public_key@ && s.signature@
                                    == payload && s.signed_at == now
                            }
                    },
                    Err(e) => active.len() == 0 && (e matches
                        RelayerError::InsufficientSignatures { expected, got } && expected
                        == self@.len() && got == 0),
                }
            }),
    {
        let message_hash = self.create_solana_message_hash(
            recipient,
            amount,
            nonce,
            ethereum_sender,
        );
        let mut payload = String::from_str("0x");
        let hex = hex_encode(message_hash.as_slice());
        payload.append(hex.as_str());
        proof {
            reveal_strlit("0x");
            assert(payload@ =~= seq!['0', 'x'] + hex_encode_spec(message_hash@));
        }
        let mut signatures: Vec<ValidatorSignature> = Vec::new();
        let mut i: usize = 0;
        proof {
            reveal(Seq::filter);
            assert(self@.subrange(0, 0) =~= Seq::<ValidatorConfig>::empty());
        }
        while i < self.validators.len()
            invariant
                i <= self@.len(),
                payload@ == seq!['0', 'x'] + hex_encode_spec(
                    crate::crypto::sha256_spec(
                        unlock_preimage(nonce, encode_utf8(recipient@), amount),
                    ),
                ),
                ({
                    let active = active_validators(self@.subrange(0, i as int));
                    &&& signatures@.len() == active.len()
                    &&& forall|k: int|
                        0 <= k < active.len() ==> {
                            let s = #[trigger] signatures@[k];
                            s.validator_address@ == active[k].sol_public_key@ && s.signature@
                                == payload@ && s.signed_at == now
                        }
                }),
            decreases self@.len() - i,
        {
            proof {
                reveal(Seq::filter);
                assert(self@.subrange(0, i + 1).drop_last() =~= self@.subrange(0, i as int));
                assert(self@.subrange(0, i + 1).last() == self@[i as int]);
            }
            let validator = &self.validators[i];
            if validator.endpoint.is_some() {
                signatures.push(
                    ValidatorSignature {
                        validator_address: validator.sol_public_key.clone(),
                        signature: payload.clone(),
                        signed_at: now,
                    },
                );
            }
            i += 1;
        }
        proof {
            assert(self@.subrange(0, self@.len() as int) =~= self@);
        }
        if signatures.len() == 0 {
            return Err(
                RelayerError::InsufficientSignatures { expected: self.validators.len(), got: 0 },
            );
        }
        Ok(signatures)
    }
}

/// One validator node's signing side: it endorses a message hash after
/// checking the source transaction it covers.
pub struct ValidatorService {
    eth_private_key: String,
    sol_private_key: String,
}

impl ValidatorService {
    /// A service holding this validator's signing keys.
    pub fn new(eth_private_key: String, sol_private_key: String) -> ValidatorService {
        ValidatorService { eth_private_key, sol_private_key }
    }

    /// Endorse a message hash for the EVM chain: the endorsement carries the
    /// hash itself, hex encoded.
    pub fn sign_for_ethereum(&self, message_hash: [u8; 32]) -> (r: Result<String, RelayerError>)
        ensures
            r matches Ok(s) && s@ == seq!['0', 'x'] + hex_encode_spec(message_hash@),
    {
        let mut s = String::from_str("0x");
        let hex = hex_encode(message_hash.as_slice());
        s.append(hex.as_str());
        proof {
            reveal_strlit("0x");
            assert(s@ =~= seq!['0', 'x'] + hex_encode_spec(message_hash@));
        }
        Ok(s)
    }

    /// Endorse a message hash for the source chain: the endorsement carries
    /// the hash itself, hex encoded.
    pub fn sign_for_solana(&self, message_hash: [u8; 32]) -> (r: Result<String, RelayerError>)
        ensures
            r matches Ok(s) && s@ == seq!['0', 'x'] + hex_encode_spec(message_hash@),
    {
        let mut s = String::from_str("0x");
        let hex = hex_encode(message_hash.as_slice());
        s.append(hex.as_str());
        proof {
            reveal_strlit("0x");
            assert(s@ =~= seq!['0', 'x'] + hex_encode_spec(message_hash@));
        }
        Ok(s)
    }

    /// Accept an EVM-side source transaction before signing.
    pub fn verify_ethereum_transaction(&self, _tx_hash: &str, _nonce: u64) -> (r: Result<
        bool,
        RelayerError,
    >)
        ensures
            r matches Ok(b) && b,
    {
        Ok(true)
    }

    /// Accept a source-chain transaction before signing.
    pub fn verify_solana_transaction(&self, _tx_hash: &str, _nonce: u64) -> (r: Result<
        bool,
        RelayerError,
    >)
        ensures
            r matches Ok(b) && b,
    {
        Ok(true)
    }
}

} // verus!
