use vstd::prelude::*;

use crate::crypto::{hex_encode, hex_encode_spec};
use crate::error::RelayerError;
use crate::ledger::{has_hash, has_nonce, row_matches_event, Database, IngestOutcome};
use crate::types::{
    spec_event_amount, spec_event_nonce, spec_event_tx_hash, BridgeEvent, Chain,
};
use vstd::string::StringExecFns;

verus! {

/// The block range one polling tick may scan: it opens only when the chain
/// tip stands more than `confirmations` blocks past the checkpoint, and it
/// ends at the newest block that already has the required depth.
pub open spec fn spec_scan_range(last_block: u64, current_block: u64, confirmations: u64) -> Option<
    (u64, u64),
> {
    if current_block > last_block + confirmations {
        Some(((last_block + 1) as u64, (current_block - confirmations) as u64))
    } else {
        None
    }
}

/// Decide the next block range to scan, so the checkpoint only ever advances
/// past blocks that are final.
pub fn next_scan_range(last_block: u64, current_block: u64, confirmations: u64) -> (r: Option<
    (u64, u64),
>)
    ensures
        r == spec_scan_range(last_block, current_block, confirmations),
{
    if current_block >= confirmations && current_block - confirmations > last_block {
        Some((last_block + 1, current_block - confirmations))
    } else {
        None
    }
}

/// The big-endian value of a byte string.
pub open spec fn be_val(s: Seq<u8>) -> int
    decreases s.len(),
{
    if s.len() == 0 {
        0
    } else {
        be_val(s.drop_last()) * 256 + s.last()
    }
}

/// Read the big-endian `u64` in the last eight bytes of a 32-byte word whose
/// first 24 bytes are zero.
pub open spec fn word_fits_u64(w: Seq<u8>) -> bool {
    w.len() == 32 && (forall|i: int| 0 <= i < 24 ==> #[trigger] w[i] == 0u8)
}

proof fn lemma_pow256_le(a: nat, b: nat)
    requires
        a <= b,
    ensures
        pow256(a) <= pow256(b),
    decreases b,
{
    if a < b {
        lemma_pow256_le(a, (b - 1) as nat);
        assert(pow256(b) == 256 * pow256((b - 1) as nat));
        assert(pow256(a) >= 1) by {
            lemma_pow256_pos(a);
        }
        lemma_pow256_pos((b - 1) as nat);
    }
}

proof fn lemma_pow256_pos(n: nat)
    ensures
        pow256(n) >= 1,
    decreases n,
{
    if n > 0 {
        lemma_pow256_pos((n - 1) as nat);
    }
}

proof fn lemma_be_val_bound(s: Seq<u8>)
    ensures
        0 <= be_val(s) < pow256(s.len() as nat),
    decreases s.len(),
{
    if s.len() == 0 {
    } else {
        lemma_be_val_bound(s.drop_last());
        assert(be_val(s.drop_last()) <= pow256(s.drop_last().len() as nat) - 1);
        assert(pow256((s.len()) as nat) == pow256((s.len() - 1) as nat) * 256);
        assert(be_val(s.drop_last()) * 256 <= (pow256((s.len() - 1) as nat) - 1) * 256)
            by (nonlinear_arith)
            requires
                be_val(s.drop_last()) <= pow256((s.len() - 1) as nat) - 1,
        ;
    }
}

/// 256 to the `n`.
pub open spec fn pow256(n: nat) -> int
    decreases n,
{
    if n == 0 {
        1
    } else {
        256 * pow256((n - 1) as nat)
    }
}

/// Read the trailing eight bytes of `w` as a big-endian `u64`.
fn read_word_u64(w: &[u8]) -> (r: Option<u64>)
    requires
        w@.len() == 32,
    ensures
        match r {
            Some(v) => word_fits_u64(w@) && v == be_val(w@.subrange(24, 32)),
            None => !word_fits_u64(w@),
        },
{
    let mut i: usize = 0;
    while i < 24
        invariant
            i <= 24,
            w@.len() == 32,
            forall|j: int| 0 <= j < i ==> #[trigger] w@[j] == 0u8,
        decreases 24 - i,
    {
        if w[i] != 0 {
            return None;
        }
        i += 1;
    }
    let mut v: u64 = 0;
    let mut k: usize = 24;
    proof {
        assert(w@.subrange(24, 24) =~= Seq::<u8>::empty());
    }
    while k < 32
        invariant
            24 <= k <= 32,
            w@.len() == 32,
            v == be_val(w@.subrange(24, k as int)),
            v < pow256((k - 24) as nat),
        decreases 32 - k,
    {
        proof {
            assert(w@.subrange(24, k + 1).drop_last() =~= w@.subrange(24, k as int));
            assert(w@.subrange(24, k + 1).last() == w@[k as int]);
            assert(pow256(7) == 0x100000000000000) by {
                reveal_with_fuel(pow256, 8);
            }
            lemma_pow256_le((k - 24) as nat, 7);
            assert(v <= 0xffffffffffffff);
            assert(pow256(((k + 1) - 24) as nat) == pow256((k - 24) as nat) * 256);
            assert(v * 256 + 255 < pow256(((k + 1) - 24) as nat)) by (nonlinear_arith)
                requires
                    v < pow256((k - 24) as nat),
                    pow256(((k + 1) - 24) as nat) == pow256((k - 24) as nat) * 256,
                    v >= 0,
            ;
        }
        v = v * 256 + (w[k] as u64);
        k += 1;
    }
    Some(v)
}

/// One decoded `TokensBurned` event log.
pub struct BurnLogModel {
    pub sender: Seq<u8>,
    pub amount: u64,
    pub solana_address: Seq<char>,
    pub nonce: u64,
}

/// The characters ASCII bytes stand for.
pub open spec fn ascii_chars_of(bytes: Seq<u8>) -> Seq<char> {
    bytes.map_values(|b: u8| b as char)
}

/// What decoding a `TokensBurned(address indexed sender, uint256 amount,
/// string solanaAddress, uint64 nonce)` log yields: the indexed sender sits in
/// the second topic, the data carries the amount word, the string offset word,
/// the nonce word, then the length-prefixed address string; an amount or
/// nonce beyond `u64` does not decode. The address string must be ASCII: a
/// source-chain account identity is base58, whose alphabet is ASCII, so a
/// wider string can never name an account and is rejected as malformed.
pub open spec fn spec_decode_tokens_burned(topics: Seq<Seq<u8>>, data: Seq<u8>) -> Option<
    BurnLogModel,
> {
    if topics.len() == 2 && topics[1].len() == 32 && data.len() >= 128 && word_fits_u64(
        data.subrange(0, 32),
    ) && data.subrange(32, 64) =~= offset_word_96() && word_fits_u64(data.subrange(64, 96))
        && word_fits_u64(data.subrange(96, 128)) && 128 + be_val(data.subrange(120, 128))
        <= data.len() && (forall|i: int|
        128 <= i < 128 + be_val(data.subrange(120, 128)) ==> #[trigger] data[i] < 128) {
        Some(
            BurnLogModel {
                sender: topics[1].subrange(12, 32),
                amount: be_val(data.subrange(24, 32)) as u64,
                solana_address: ascii_chars_of(
                    data.subrange(128, 128 + be_val(data.subrange(120, 128))),
                ),
                nonce: be_val(data.subrange(88, 96)) as u64,
            },
        )
    } else {
        None
    }
}

/// The ABI word that points at a string payload 96 bytes into the data.
pub open spec fn offset_word_96() -> Seq<u8> {
    Seq::new(32, |i: int| if i == 31 { 96u8 } else { 0u8 })
}

/// Decode a `TokensBurned` event log into a canonical burn event carrying the
/// source transaction hash, with the sender rendered as `0x`-prefixed hex.
pub fn decode_tokens_burned(topics: &Vec<Vec<u8>>, data: &Vec<u8>, tx_hash: &[u8; 32]) -> (r:
    Result<BridgeEvent, RelayerError>)
    ensures
        ({
            let m = spec_decode_tokens_burned(
                topics@.map_values(|t: Vec<u8>| t@),
                data@,
            );
            match r {
                Ok(e) => m matches Some(b) && (e matches BridgeEvent::TokensBurned {
                    from_chain,
                    to_chain,
                    sender,
                    recipient,
                    amount,
                    nonce,
                    tx_hash: th,
                } && from_chain is Ethereum && to_chain is Solana && sender@ == seq!['0', 'x']
                    + hex_encode_spec(b.sender) && recipient@ == b.solana_address && amount
                    == b.amount && nonce == b.nonce && th@ == seq!['0', 'x'] + hex_encode_spec(
                    tx_hash@,
                )),
                Err(e) => m is None && e is ParseError,
            }
        }),
{
    let ghost tviews = topics@.map_values(|t: Vec<u8>| t@);
    if topics.len() != 2 {
        return Err(RelayerError::ParseError(String::from_str("malformed TokensBurned log")));
    }
    let sender_topic = &topics[1];
    if sender_topic.len() != 32 {
        return Err(RelayerError::ParseError(String::from_str("malformed TokensBurned log")));
    }
    if data.len() < 128 {
        return Err(RelayerError::ParseError(String::from_str("malformed TokensBurned log")));
    }
    let amount = match read_word_u64(vstd::slice::slice_subrange(data.as_slice(), 0, 32)) {
        Some(v) => v,
        None => {
            return Err(RelayerError::ParseError(String::from_str("malformed TokensBurned log")));
        },
    };
    let mut i: usize = 32;
    while i < 64
        invariant
            32 <= i <= 64,
            data@.len() >= 128,
            forall|j: int|
                32 <= j < i ==> #[trigger] data@[j] == offset_word_96()[j - 32],
        decreases 64 - i,
    {
        let expected: u8 = if i == 63 {
            96
        } else {
            0
        };
        if data[i] != expected {
            assert(!(data@.subrange(32, 64) =~= offset_word_96())) by {
                assert(data@.subrange(32, 64)[i - 32] != offset_word_96()[i - 32]);
            }
            return Err(RelayerError::ParseError(String::from_str("malformed TokensBurned log")));
        }
        i += 1;
    }
    assert(data@.subrange(32, 64) =~= offset_word_96());
    let nonce = match read_word_u64(vstd::slice::slice_subrange(data.as_slice(), 64, 96)) {
        Some(v) => v,
        None => {
            return Err(RelayerError::ParseError(String::from_str("malformed TokensBurned log")));
        },
    };
    let strlen = match read_word_u64(vstd::slice::slice_subrange(data.as_slice(), 96, 128)) {
        Some(v) => v,
        None => {
            return Err(RelayerError::ParseError(String::from_str("malformed TokensBurned log")));
        },
    };
    proof {
        assert(data@.subrange(96, 128).subrange(24, 32) =~= data@.subrange(120, 128));
        assert(data@.subrange(0, 32).subrange(24, 32) =~= data@.subrange(24, 32));
        assert(data@.subrange(64, 96).subrange(24, 32) =~= data@.subrange(88, 96));
        lemma_be_val_bound(data@.subrange(120, 128));
    }
    if strlen > (usize::MAX as u64) {
        return Err(RelayerError::ParseError(String::from_str("malformed TokensBurned log")));
    }
    let strlen_us = strlen as usize;
    if strlen_us > data.len() - 128 {
        return Err(RelayerError::ParseError(String::from_str("malformed TokensBurned log")));
    }
    let dlen = data.len();
    let mut address = String::new();
    let mut k: usize = 0;
    while k < strlen_us
        invariant
            k <= strlen_us,
            dlen == data@.len(),
            128 + strlen_us <= dlen,
            strlen_us == be_val(data@.subrange(120, 128)),
            forall|j: int| 128 <= j < 128 + k ==> #[trigger] data@[j] < 128,
            address@ =~= ascii_chars_of(data@.subrange(128, 128 + k as int)),
        decreases strlen_us - k,
    {
        let b = data[128 + k];
        if b >= 128 {
            return Err(RelayerError::ParseError(String::from_str("malformed TokensBurned log")));
        }
        crate::text::push_char(&mut address, b as char);
        proof {
            assert(data@.subrange(128, 128 + (k + 1)).drop_last() =~= data@.subrange(
                128,
                128 + k as int,
            ));
            assert(ascii_chars_of(data@.subrange(128, 128 + (k + 1))) =~= ascii_chars_of(
                data@.subrange(128, 128 + k as int),
            ).push(data@[128 + k] as char));
        }
        k += 1;
    }
    let mut sender20 = [0u8; 20];
    let mut si: usize = 0;
    while si < 20
        invariant
            si <= 20,
            sender_topic@.len() == 32,
            sender20@.len() == 20,
            forall|j: int| 0 <= j < si ==> #[trigger] sender20@[j] == sender_topic@[12 + j],
        decreases 20 - si,
    {
        sender20[si] = sender_topic[12 + si];
        si += 1;
    }
    assert(sender20@ =~= sender_topic@.subrange(12, 32));
    let mut sender_str = String::from_str("0x");
    let sender_hex = hex_encode(sender20.as_slice());
    sender_str.append(sender_hex.as_str());
    let mut hash_str = String::from_str("0x");
    let hash_hex = hex_encode(tx_hash.as_slice());
    hash_str.append(hash_hex.as_str());
    proof {
        reveal_strlit("0x");
        assert(sender_str@ =~= seq!['0', 'x'] + hex_encode_spec(sender_topic@.subrange(12, 32)));
        assert(hash_str@ =~= seq!['0', 'x'] + hex_encode_spec(tx_hash@));
        assert(tviews[1] == sender_topic@);
        assert(address@ =~= ascii_chars_of(data@.subrange(128, 128 + strlen_us as int)));
    }
    Ok(
        BridgeEvent::TokensBurned {
            from_chain: Chain::Ethereum,
            to_chain: Chain::Solana,
            sender: sender_str,
            recipient: address,
            amount,
            nonce,
            tx_hash: hash_str,
        },
    )
}

/// Record a `TokensBurned` event observed on the destination chain as a
/// `Pending` ledger row, once: an already-recorded nonce is skipped, and a
/// `TokensLocked` event is not this monitor's to record.
pub fn handle_ethereum_event(db: &mut Database, event: &BridgeEvent, now: i64) -> (r: Result<
    IngestOutcome,
    RelayerError,
>)
    requires
        old(db).wf(),
        spec_event_nonce(*event) <= i64::MAX,
        spec_event_amount(*event) <= i64::MAX,
        forall|i: int| 0 <= i < old(db)@.len() ==> #[trigger] old(db)@[i].created_at <= now,
    ensures
        final(db).wf(),
        ({
            let nonce = spec_event_nonce(*event) as i64;
            match r {
                Ok(IngestOutcome::Ignored) => event is TokensLocked && final(db)@ == old(db)@,
                Ok(IngestOutcome::DuplicateNonce) => event is TokensBurned && has_nonce(
                    old(db)@,
                    nonce,
                ) && final(db)@ == old(db)@,
                Ok(IngestOutcome::Created(id)) => {
                    &&& event is TokensBurned
                    &&& !has_nonce(old(db)@, nonce)
                    &&& !has_hash(old(db)@, spec_event_tx_hash(*event))
                    &&& id == old(db)@.len() + 1
                    &&& final(db)@.len() == old(db)@.len() + 1
                    &&& forall|i: int|
                        0 <= i < old(db)@.len() ==> #[trigger] final(db)@[i] == old(db)@[i]
                    &&& row_matches_event(final(db)@.last(), *event, id as int, now)
                },
                Err(e) => {
                    &&& event is TokensBurned
                    &&& !has_nonce(old(db)@, nonce)
                    &&& (has_hash(old(db)@, spec_event_tx_hash(*event)) || old(db)@.len()
                        == i64::MAX)
                    &&& final(db)@ == old(db)@
                    &&& e is DatabaseError
                },
            }
        }),
{
    match event {
        BridgeEvent::TokensBurned {
            from_chain,
            to_chain,
            sender,
            recipient,
            amount,
            nonce,
            tx_hash,
        } => {
            if db.is_nonce_processed(*nonce) {
                return Ok(IngestOutcome::DuplicateNonce);
            }
            match db.create_transaction(
                *nonce,
                *from_chain,
                *to_chain,
                tx_hash.as_str(),
                sender.as_str(),
                recipient.as_str(),
                *amount,
                now,
            ) {
                Ok(id) => Ok(IngestOutcome::Created(id)),
                Err(e) => Err(e),
            }
        },
        BridgeEvent::TokensLocked { .. } => Ok(IngestOutcome::Ignored),
    }
}

} // verus!
