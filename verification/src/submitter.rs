use vstd::prelude::*;

use crate::config::ValidatorConfig;
use crate::crypto::{
    hex_decode, hex_decode_ok, hex_decode_spec, hex_encode, hex_encode_spec,
};
use crate::error::RelayerError;
use crate::ledger::Database;
use crate::text::{spec_dec_digits, u64_to_string};
use crate::types::{Chain, RelayerTransaction, TransactionStatus, ValidatorSignature};
use crate::validator_client::{active_validators, ValidatorClient};
use vstd::bytes::{spec_u64_to_le_bytes, u64_to_le_bytes};
use vstd::string::StrSliceExecFns;
use vstd::string::StringExecFns;
use vstd::utf8::encode_utf8;

verus! {

/// What the submitter does with a row, decided by its status alone.
#[derive(Debug, Clone, Copy, PartialEq, Eq, Structural)]
pub enum SubmitterStep {
    CollectSignatures,
    Submit,
    CheckConfirmation,
    NoOp,
}

/// The dispatch rule: Pending rows collect signatures, SignaturesCollected
/// rows submit, Submitted rows poll for finality, terminal rows rest.
pub open spec fn spec_plan(status: TransactionStatus) -> SubmitterStep {
    match status {
        TransactionStatus::Pending => SubmitterStep::CollectSignatures,
        TransactionStatus::SignaturesCollected => SubmitterStep::Submit,
        TransactionStatus::Submitted => SubmitterStep::CheckConfirmation,
        TransactionStatus::Confirmed => SubmitterStep::NoOp,
        TransactionStatus::Failed => SubmitterStep::NoOp,
    }
}

/// Decide the submitter's next step for a row.
pub fn plan_transaction(status: TransactionStatus) -> (r: SubmitterStep)
    ensures
        r == spec_plan(status),
{
    match status {
        TransactionStatus::Pending => SubmitterStep::CollectSignatures,
        TransactionStatus::SignaturesCollected => SubmitterStep::Submit,
        TransactionStatus::Submitted => SubmitterStep::CheckConfirmation,
        TransactionStatus::Confirmed => SubmitterStep::NoOp,
        TransactionStatus::Failed => SubmitterStep::NoOp,
    }
}

/// What a 20-byte `0x`-prefixed hex account string stands for.
pub open spec fn spec_parse_eth_address(s: Seq<char>) -> Option<Seq<u8>> {
    if s.len() == 42 && s[0] == '0' && s[1] == 'x' && hex_decode_ok(s.subrange(2, 42)) {
        Some(hex_decode_spec(s.subrange(2, 42)))
    } else {
        None
    }
}

/// Parse a `0x`-prefixed 40-digit hex account string.
pub fn parse_eth_address(s: &str) -> (r: Option<[u8; 20]>)
    ensures
        match r {
            Some(a) => spec_parse_eth_address(s@) == Some(a@),
            None => spec_parse_eth_address(s@) is None,
        },
{
    let len = s.unicode_len();
    if len != 42 {
        return None;
    }
    if s.get_char(0) != '0' || s.get_char(1) != 'x' {
        return None;
    }
    let digits = s.substring_char(2, 42);
    match hex_decode(digits) {
        Some(bytes) => {
            if bytes.len() != 20 {
                return None;
            }
            let mut a = [0u8; 20];
            let mut i: usize = 0;
            while i < 20
                invariant
                    i <= 20,
                    bytes@.len() == 20,
                    a@.len() == 20,
                    forall|j: int| 0 <= j < i ==> a@[j] == bytes@[j],
                decreases 20 - i,
            {
                a[i] = bytes[i];
                i += 1;
            }
            assert(a@ =~= bytes@);
            Some(a)
        },
        None => None,
    }
}

/// The payload string every collected signature carries for this row, by
/// destination chain: the hex of the canonical release message hash.
pub open spec fn spec_signature_payload(tx: RelayerTransaction) -> Seq<char> {
    if tx.to_chain is Ethereum {
        seq!['0', 'x'] + hex_encode_spec(
            crate::crypto::keccak256_spec(
                crate::validator_client::eth_mint_preimage(
                    spec_parse_eth_address(tx.recipient@)->0,
                    tx.amount as u64,
                    tx.nonce as u64,
                    tx.sender@,
                ),
            ),
        )
    } else {
        seq!['0', 'x'] + hex_encode_spec(
            crate::crypto::sha256_spec(
                crate::processor::unlock_preimage(
                    tx.nonce as u64,
                    encode_utf8(tx.recipient@),
                    tx.amount as u64,
                ),
            ),
        )
    }
}

/// The address each collected signature names, by destination chain.
pub open spec fn spec_signer_address(v: ValidatorConfig, to_chain: Chain) -> Seq<char> {
    if to_chain is Ethereum {
        v.eth_address@
    } else {
        v.sol_public_key@
    }
}

/// Drive a `Pending` row: build the canonical release message for its
/// destination, collect one endorsement per reachable validator, store them,
/// and advance the row to `SignaturesCollected`.
///
/// Fails, leaving the ledger unchanged, on a `Sui` destination (no submitter
/// yet), an EVM destination whose recipient is not a `0x`-prefixed 40-digit
/// hex account, or a roster with no reachable validator.
pub fn collect_signatures(
    db: &mut Database,
    client: &ValidatorClient,
    tx: &RelayerTransaction,
    now: i64,
) -> (r: Result<(), RelayerError>)
    requires
        old(db).wf(),
        tx.nonce >= 0,
        tx.amount >= 0,
        forall|i: int|
            0 <= i < old(db)@.len() && old(db)@[i].id == tx.id ==> #[trigger] old(
                db,
            )@[i].status is Pending,
    ensures
        final(db).wf(),
        final(db)@.len() == old(db)@.len(),
        (r is Ok) == ((tx.to_chain is Solana || (tx.to_chain is Ethereum
            && spec_parse_eth_address(tx.recipient@) is Some)) && active_validators(
            client@,
        ).len() > 0),
        ({
            let active = active_validators(client@);
            match r {
                Ok(()) => {
                    &&& (tx.to_chain is Ethereum || tx.to_chain is Solana)
                    &&& (tx.to_chain is Ethereum ==> spec_parse_eth_address(
                        tx.recipient@,
                    ) is Some)
                    &&& active.len() > 0
                    &&& forall|i: int|
                        0 <= i < old(db)@.len() && old(db)@[i].id != tx.id
                            ==> #[trigger] final(db)@[i] == old(db)@[i]
                    &&& forall|i: int|
                        0 <= i < old(db)@.len() && old(db)@[i].id == tx.id ==> {
                            let t = #[trigger] final(db)@[i];
                            &&& t.status is SignaturesCollected
                            &&& t.updated_at == now
                            &&& (t.signatures matches Some(sigs) && sigs@.len() == active.len()
                                && (forall|k: int|
                                0 <= k < active.len() ==> {
                                    let s = #[trigger] sigs@[k];
                                    s.validator_address@ == spec_signer_address(
                                        active[k],
                                        tx.to_chain,
                                    ) && s.signature@ == spec_signature_payload(*tx)
                                        && s.signed_at == now
                                }))
                        }
                },
                Err(e) => {
                    &&& final(db)@ == old(db)@
                    &&& (tx.to_chain is Sui ==> e is InvalidChain)
                    &&& (tx.to_chain is Ethereum && spec_parse_eth_address(tx.recipient@) is None
                        ==> e is ParseError)
                    &&& ((tx.to_chain is Solana || (tx.to_chain is Ethereum
                        && spec_parse_eth_address(tx.recipient@) is Some)) && active.len() == 0
                        ==> e is InsufficientSignatures)
                },
            }
        }),
{
    let signatures = match tx.to_chain {
        Chain::Ethereum => {
            let recipient = match parse_eth_address(tx.recipient.as_str()) {
                Some(a) => a,
                None => {
                    return Err(
                        RelayerError::ParseError(
                            String::from_str("invalid recipient address"),
                        ),
                    );
                },
            };
            match client.collect_signatures_for_ethereum_mint(
                &recipient,
                tx.amount as u64,
                tx.nonce as u64,
                tx.sender.as_str(),
                now,
            ) {
                Ok(sigs) => sigs,
                Err(e) => {
                    return Err(e);
                },
            }
        },
        Chain::Solana => {
            match client.collect_signatures_for_solana_unlock(
                tx.recipient.as_str(),
                tx.amount as u64,
                tx.nonce as u64,
                tx.sender.as_str(),
                now,
            ) {
                Ok(sigs) => sigs,
                Err(e) => {
                    return Err(e);
                },
            }
        },
        Chain::Sui => {
            return Err(RelayerError::InvalidChain(String::from_str("Sui not implemented")));
        },
    };
    match db.update_signatures(tx.id, signatures, now) {
        Ok(()) => Ok(()),
        Err(e) => Err(e),
    }
}

/// The destination hash an EVM submission reports: the nonce's
/// little-endian bytes, hex encoded under a `0x` prefix.
pub open spec fn spec_eth_submission_hash(nonce: u64) -> Seq<char> {
    seq!['0', 'x'] + hex_encode_spec(spec_u64_to_le_bytes(nonce))
}

/// Build and send the EVM-style mint call for a row.
///
/// The relayer's EVM signer must be configured and the recipient must be a
/// `0x`-prefixed 40-digit hex account; the stored endorsements travel with
/// the call as raw bytes, an undecodable one as empty bytes. The returned
/// destination hash is a deterministic function of the nonce.
pub fn submit_to_ethereum(
    tx: &RelayerTransaction,
    signatures: &Vec<ValidatorSignature>,
    signer_configured: bool,
) -> (r: Result<String, RelayerError>)
    requires
        tx.nonce >= 0,
    ensures
        match r {
            Ok(h) => signer_configured && spec_parse_eth_address(tx.recipient@) is Some && h@
                == spec_eth_submission_hash(tx.nonce as u64),
            Err(e) => {
                &&& (!signer_configured ==> e is ConfigError)
                &&& (signer_configured ==> !(spec_parse_eth_address(tx.recipient@) is Some)
                    && e is ParseError)
            },
        },
{
    if !signer_configured {
        return Err(RelayerError::ConfigError(String::from_str("Ethereum signer not configured")));
    }
    let _recipient = match parse_eth_address(tx.recipient.as_str()) {
        Some(a) => a,
        None => {
            return Err(RelayerError::ParseError(String::from_str("invalid recipient address")));
        },
    };
    let mut signature_bytes: Vec<Vec<u8>> = Vec::new();
    let mut i: usize = 0;
    while i < signatures.len()
        invariant
            i <= signatures@.len(),
        decreases signatures@.len() - i,
    {
        let raw = strip_hex_prefix(signatures[i].signature.as_str());
        match hex_decode(raw) {
            Some(bytes) => signature_bytes.push(bytes),
            None => signature_bytes.push(Vec::new()),
        }
        i += 1;
    }
    let nonce_bytes = u64_to_le_bytes(tx.nonce as u64);
    let mut h = String::from_str("0x");
    let hex = hex_encode(nonce_bytes.as_slice());
    h.append(hex.as_str());
    proof {
        reveal_strlit("0x");
        assert(h@ =~= spec_eth_submission_hash(tx.nonce as u64));
    }
    Ok(h)
}

/// `s` without every leading `0x`.
pub open spec fn spec_strip_hex_prefix(s: Seq<char>) -> Seq<char>
    decreases s.len(),
{
    if s.len() >= 2 && s[0] == '0' && s[1] == 'x' {
        spec_strip_hex_prefix(s.subrange(2, s.len() as int))
    } else {
        s
    }
}

/// Strip every leading `0x` marker from a hex string.
pub fn strip_hex_prefix(s: &str) -> (r: &str)
    ensures
        r@ == spec_strip_hex_prefix(s@),
{
    let mut start: usize = 0;
    let len = s.unicode_len();
    proof {
        assert(s@.subrange(0, s@.len() as int) =~= s@);
    }
    while len - start >= 2 && s.get_char(start) == '0' && s.get_char(start + 1) == 'x'
        invariant
            start <= len,
            len == s@.len(),
            spec_strip_hex_prefix(s@) == spec_strip_hex_prefix(
                s@.subrange(start as int, len as int),
            ),
        decreases len - start,
    {
        proof {
            let cur = s@.subrange(start as int, len as int);
            let next = s@.subrange(start + 2, len as int);
            assert(cur.subrange(2, cur.len() as int) =~= next);
        }
        start += 2;
    }
    s.substring_char(start, len)
}

/// The destination hash a source-chain submission reports:
/// `solana_tx_` and the nonce in decimal.
pub open spec fn spec_sol_submission_hash(nonce: u64) -> Seq<char> {
    "solana_tx_"@ + spec_dec_digits(nonce as int)
}

/// Build and send the source-chain unlock call for a row.
///
/// The relayer's source-chain keypair must be configured and the recipient
/// must be the 64-digit hex form of a 32-byte account. The instruction
/// payload opens with the unlock tag byte and the nonce; the returned
/// destination hash is a deterministic function of the nonce.
pub fn submit_to_solana(
    tx: &RelayerTransaction,
    signatures: &Vec<ValidatorSignature>,
    keypair_configured: bool,
) -> (r: Result<String, RelayerError>)
    requires
        tx.nonce >= 0,
    ensures
        match r {
            Ok(h) => keypair_configured && hex_decode_ok(tx.recipient@) && hex_decode_spec(
                tx.recipient@,
            ).len() == 32 && h@ == spec_sol_submission_hash(tx.nonce as u64),
            Err(e) => {
                &&& (!keypair_configured ==> e is ConfigError)
                &&& (keypair_configured ==> !(hex_decode_ok(tx.recipient@) && hex_decode_spec(
                    tx.recipient@,
                ).len() == 32) && e is ParseError)
            },
        },
{
    if !keypair_configured {
        return Err(RelayerError::ConfigError(String::from_str("Solana keypair not configured")));
    }
    let recipient_ok = match hex_decode(tx.recipient.as_str()) {
        Some(bytes) => bytes.len() == 32,
        None => false,
    };
    if !recipient_ok {
        return Err(RelayerError::ParseError(String::from_str("invalid recipient account")));
    }
    let mut sig_bytes: Vec<u8> = Vec::new();
    let mut i: usize = 0;
    while i < signatures.len()
        invariant
            i <= signatures@.len(),
        decreases signatures@.len() - i,
    {
        let raw = strip_hex_prefix(signatures[i].signature.as_str());
        match hex_decode(raw) {
            Some(bytes) => {
                let mut b = bytes;
                sig_bytes.append(&mut b);
            },
            None => {},
        }
        i += 1;
    }
    let mut instruction_data: Vec<u8> = Vec::new();
    instruction_data.push(2u8);
    let mut nonce_bytes = u64_to_le_bytes(tx.nonce as u64);
    instruction_data.append(&mut nonce_bytes);
    let mut h = String::from_str("solana_tx_");
    let dec = u64_to_string(tx.nonce as u64);
    h.append(dec.as_str());
    Ok(h)
}

/// Drive a `SignaturesCollected` row: submit the release call to its
/// destination chain, record the returned destination hash, and advance the
/// row to `Submitted`.
///
/// Fails, leaving the ledger unchanged, when the row holds no signatures,
/// when the destination is `Sui`, or when the destination submission itself
/// fails.
pub fn submit_to_destination(
    db: &mut Database,
    tx: &RelayerTransaction,
    eth_signer_configured: bool,
    sol_keypair_configured: bool,
    now: i64,
) -> (r: Result<String, RelayerError>)
    requires
        old(db).wf(),
        tx.nonce >= 0,
        forall|i: int|
            0 <= i < old(db)@.len() && old(db)@[i].id == tx.id ==> #[trigger] old(
                db,
            )@[i].status is SignaturesCollected,
    ensures
        final(db).wf(),
        final(db)@.len() == old(db)@.len(),
        (r is Ok) == (tx.signatures is Some && ((tx.to_chain is Ethereum && eth_signer_configured
            && spec_parse_eth_address(tx.recipient@) is Some) || (tx.to_chain is Solana
            && sol_keypair_configured && hex_decode_ok(tx.recipient@) && hex_decode_spec(
            tx.recipient@,
        ).len() == 32))),
        ({
            match r {
                Ok(h) => {
                    &&& tx.signatures is Some
                    &&& (tx.to_chain is Ethereum ==> h@ == spec_eth_submission_hash(
                        tx.nonce as u64,
                    ))
                    &&& (tx.to_chain is Solana ==> h@ == spec_sol_submission_hash(
                        tx.nonce as u64,
                    ))
                    &&& !(tx.to_chain is Sui)
                    &&& forall|i: int|
                        0 <= i < old(db)@.len() && old(db)@[i].id != tx.id
                            ==> #[trigger] final(db)@[i] == old(db)@[i]
                    &&& forall|i: int|
                        0 <= i < old(db)@.len() && old(db)@[i].id == tx.id ==> {
                            let t = #[trigger] final(db)@[i];
                            &&& t.status is Submitted
                            &&& (t.to_tx_hash matches Some(s) && s@ == h@)
                            &&& t.updated_at == now
                        }
                },
                Err(e) => {
                    &&& final(db)@ == old(db)@
                    &&& (tx.signatures is None ==> e is InvalidSignature)
                    &&& (tx.signatures is Some && tx.to_chain is Sui ==> e is InvalidChain)
                },
            }
        }),
{
    let signatures = match &tx.signatures {
        Some(s) => s,
        None => {
            return Err(RelayerError::InvalidSignature(String::from_str("No signatures found")));
        },
    };
    let tx_hash = match tx.to_chain {
        Chain::Ethereum => {
            match submit_to_ethereum(tx, signatures, eth_signer_configured) {
                Ok(h) => h,
                Err(e) => {
                    return Err(e);
                },
            }
        },
        Chain::Solana => {
            match submit_to_solana(tx, signatures, sol_keypair_configured) {
                Ok(h) => h,
                Err(e) => {
                    return Err(e);
                },
            }
        },
        Chain::Sui => {
            return Err(RelayerError::InvalidChain(String::from_str("Sui not implemented")));
        },
    };
    match db.update_transaction_status(
        tx.id,
        TransactionStatus::Submitted,
        Some(tx_hash.as_str()),
        None,
        now,
    ) {
        Ok(()) => Ok(tx_hash),
        Err(e) => Err(e),
    }
}

/// What polling the destination chain for a submitted call reported.
#[derive(Debug)]
pub enum ConfirmationPoll {
    /// The call is final and succeeded.
    FinalizedOk,
    /// The call is final and failed, with the chain's error text.
    FinalizedFailed(String),
    /// The call is not final yet, or could not be found.
    NotFinal,
}

/// Whether a reported signature status means a finalized, successful call:
/// only a found status that carries no error does.
pub fn classify_signature_status(status: &Option<Result<(), String>>) -> (r: bool)
    ensures
        r == (status matches Some(Ok(()))),
{
    match status {
        Some(Ok(())) => true,
        Some(Err(_)) => false,
        None => false,
    }
}

/// Validate a destination hash while polling an EVM chain: the transport
/// only checks that the hash decodes as hex, and reports not-yet-final.
pub fn check_ethereum_confirmation(tx_hash: &str) -> (r: Result<bool, RelayerError>)
    ensures
        match r {
            Ok(b) => hex_decode_ok(spec_strip_hex_prefix(tx_hash@)) && !b,
            Err(e) => !hex_decode_ok(spec_strip_hex_prefix(tx_hash@)) && e is ParseError,
        },
{
    let raw = strip_hex_prefix(tx_hash);
    match hex_decode(raw) {
        Some(_) => Ok(false),
        None => Err(RelayerError::ParseError(String::from_str("invalid destination hash"))),
    }
}

/// Drive a `Submitted` row with what the destination chain reported: a
/// finalized success confirms the row, a finalized failure fails it with the
/// chain's error text, and anything else leaves it untouched. The row keeps
/// the destination hash the caller's snapshot carries, and its stored
/// signatures; a row that never recorded a destination hash is left
/// untouched too.
pub fn check_confirmation(
    db: &mut Database,
    tx: &RelayerTransaction,
    poll: &ConfirmationPoll,
    now: i64,
) -> (r: Result<(), RelayerError>)
    requires
        old(db).wf(),
        forall|i: int|
            0 <= i < old(db)@.len() && old(db)@[i].id == tx.id ==> #[trigger] old(
                db,
            )@[i].status is Submitted,
    ensures
        final(db).wf(),
        r is Ok,
        final(db)@.len() == old(db)@.len(),
        tx.to_tx_hash is None ==> final(db)@ == old(db)@,
        poll is NotFinal ==> final(db)@ == old(db)@,
        forall|i: int|
            0 <= i < old(db)@.len() && old(db)@[i].id != tx.id ==> #[trigger] final(db)@[i] == old(
                db,
            )@[i],
        tx.to_tx_hash matches Some(h0) ==> forall|i: int|
            0 <= i < old(db)@.len() && old(db)@[i].id == tx.id ==> {
                let t = #[trigger] final(db)@[i];
                &&& (poll is FinalizedOk ==> t.status is Confirmed && t.updated_at == now
                    && t.error_message is None)
                &&& (poll matches ConfirmationPoll::FinalizedFailed(msg) ==> t.status is Failed
                    && (t.error_message matches Some(m) && m@ == msg@) && t.updated_at == now)
                &&& (!(poll is NotFinal) ==> (t.to_tx_hash matches Some(h) && h@ == h0@)
                    && t.signatures == old(db)@[i].signatures)
            },
{
    let stored_hash = match &tx.to_tx_hash {
        Some(h) => h.as_str(),
        None => {
            return Ok(());
        },
    };
    match poll {
        ConfirmationPoll::FinalizedOk => {
            db.update_transaction_status(
                tx.id,
                TransactionStatus::Confirmed,
                Some(stored_hash),
                None,
                now,
            )
        },
        ConfirmationPoll::FinalizedFailed(msg) => {
            db.update_transaction_status(
                tx.id,
                TransactionStatus::Failed,
                Some(stored_hash),
                Some(msg.as_str()),
                now,
            )
        },
        ConfirmationPoll::NotFinal => Ok(()),
    }
}

} // verus!
