use vstd::prelude::*;

use crate::crypto::{hex_encode, hex_encode_spec};
use crate::error::RelayerError;
use crate::ledger::{has_hash, has_nonce, row_matches_event, Database, IngestOutcome};
use crate::text::{
    find, parse_u64, parse_u8, spec_find, spec_parse_u64, spec_parse_u8, spec_split,
    spec_strip_leading, spec_strip_trailing, spec_trim, split_at_char, string_views,
    strip_leading, strip_trailing, trim,
};
use crate::types::{
    spec_event_amount, spec_event_nonce, spec_event_tx_hash, BridgeEvent, Chain,
};
use vstd::string::StrSliceExecFns;
use vstd::string::StringExecFns;

verus! {

/// Parse each segment, trimmed, as one byte; all must parse.
pub open spec fn spec_parse_parts(parts: Seq<Seq<char>>) -> Option<Seq<u8>>
    decreases parts.len(),
{
    if parts.len() == 0 {
        Some(Seq::empty())
    } else {
        match (spec_parse_parts(parts.drop_last()), spec_parse_u8(spec_trim(parts.last()))) {
            (Some(bs), Some(b)) => Some(bs.push(b)),
            _ => None,
        }
    }
}

proof fn lemma_parse_parts_prefix_none(parts: Seq<Seq<char>>, i: int)
    requires
        0 <= i < parts.len(),
        spec_parse_u8(spec_trim(parts[i])) is None,
    ensures
        spec_parse_parts(parts) is None,
    decreases parts.len(),
{
    if parts.len() > 0 {
        if i == parts.len() - 1 {
        } else {
            lemma_parse_parts_prefix_none(parts.drop_last(), i);
        }
    }
}

/// What parsing a debug-formatted byte list such as `[1, 2, 3]` yields: the
/// bytes between the brackets, when every comma-separated segment is one
/// decimal byte and there is at least one.
pub open spec fn spec_parse_address_bytes(s: Seq<char>) -> Option<Seq<u8>> {
    let inner = spec_strip_trailing(spec_strip_leading(spec_trim(s), '['), ']');
    match spec_parse_parts(spec_split(inner, ',')) {
        Some(bs) => if bs.len() == 0 {
            None
        } else {
            Some(bs)
        },
        None => None,
    }
}

/// Parse a debug-formatted byte list such as `[255, 0, 128]`.
#[verifier::loop_isolation(false)]
pub fn parse_address_bytes(s: &str) -> (r: Option<Vec<u8>>)
    ensures
        match r {
            Some(v) => spec_parse_address_bytes(s@) == Some(v@),
            None => spec_parse_address_bytes(s@) is None,
        },
{
    let t = trim(s);
    let t = strip_leading(t, '[');
    let t = strip_trailing(t, ']');
    let parts = split_at_char(t, ',');
    let ghost part_views = spec_split(t@, ',');
    let mut bytes: Vec<u8> = Vec::new();
    let mut i: usize = 0;
    while i < parts.len()
        invariant
            i <= parts@.len(),
            string_views(parts@) =~~= part_views,
            spec_parse_parts(part_views.subrange(0, i as int)) == Some(bytes@),
        decreases parts@.len() - i,
    {
        proof {
            assert(part_views.subrange(0, i + 1).drop_last() =~= part_views.subrange(0, i as int));
            assert(part_views.subrange(0, i + 1).last() == part_views[i as int]);
            assert(part_views[i as int] == parts@[i as int]@);
        }
        let part = trim(parts[i].as_str());
        match parse_u8(part) {
            Some(b) => {
                bytes.push(b);
            },
            None => {
                proof {
                    lemma_parse_parts_prefix_none(part_views, i as int);
                }
                return None;
            },
        }
        i += 1;
    }
    proof {
        assert(part_views.subrange(0, parts@.len() as int) =~= part_views);
    }
    if bytes.len() == 0 {
        None
    } else {
        Some(bytes)
    }
}

/// The value after the first occurrence of `key` in `log`, trimmed; nothing
/// when the key does not occur.
pub open spec fn spec_extract_value(log: Seq<char>, key: Seq<char>) -> Option<Seq<char>> {
    match spec_find(log, key) {
        Some(pos) => Some(spec_trim(log.subrange(pos + key.len(), log.len() as int))),
        None => None,
    }
}

/// Extract the value that follows `key` on a `key: value` log line.
pub fn extract_value(log: &str, key: &str) -> (r: Option<String>)
    ensures
        match r {
            Some(v) => spec_extract_value(log@, key@) == Some(v@),
            None => spec_extract_value(log@, key@) is None,
        },
{
    match find(log, key) {
        Some(pos) => {
            proof {
                crate::text::lemma_spec_find(log@, key@);
            }
            let len = log.unicode_len();
            let after = log.substring_char(pos + key.unicode_len(), len);
            let trimmed = trim(after);
            Some(String::from_str(trimmed))
        },
        None => None,
    }
}

/// What a parsed, scanned `TokensLocked` log block stands for.
pub struct LockEventModel {
    pub to_chain: Chain,
    pub sender: Seq<char>,
    pub recipient: Seq<char>,
    pub amount: u64,
    pub nonce: u64,
}

/// The scanner's memory between log lines.
pub struct LogScan {
    pub in_event: bool,
    pub user: Option<Seq<char>>,
    pub amount: Option<u64>,
    pub dest_chain: Option<u8>,
    pub dest_addr: Option<Seq<u8>>,
    pub nonce: Option<u64>,
}

/// The spec-level contents of an optional owned string.
pub open spec fn opt_string_view(o: Option<String>) -> Option<Seq<char>> {
    match o {
        Some(u) => Some(u@),
        None => None,
    }
}

/// The spec-level contents of an optional byte vector.
pub open spec fn opt_bytes_view(o: Option<Vec<u8>>) -> Option<Seq<u8>> {
    match o {
        Some(a) => Some(a@),
        None => None,
    }
}

/// The scanner before any line: outside an event block, nothing collected.
pub open spec fn initial_scan() -> LogScan {
    LogScan { in_event: false, user: None, amount: None, dest_chain: None, dest_addr: None, nonce: None }
}

/// The canonical recipient rendering: hex digits of the address bytes, with a
/// `0x` prefix for an EVM destination.
pub open spec fn spec_recipient(to_chain: Chain, addr: Seq<u8>) -> Seq<char> {
    if to_chain is Ethereum {
        seq!['0', 'x'] + hex_encode_spec(addr)
    } else {
        hex_encode_spec(addr)
    }
}

/// Scan the log lines of one transaction for a `TokensLocked` block: a marker
/// line opens the block, labelled lines fill in the fields, and the nonce line
/// completes it once every field has been seen. An unknown destination chain
/// id is the one scan error.
pub open spec fn spec_parse_logs(lines: Seq<Seq<char>>, st: LogScan) -> Result<
    Option<LockEventModel>,
    u8,
>
    decreases lines.len(),
{
    if lines.len() == 0 {
        Ok(None)
    } else {
        let line = lines.first();
        let rest = lines.drop_first();
        if spec_find(line, "EVENT: TokensLocked"@) is Some {
            spec_parse_logs(rest, LogScan { in_event: true, ..st })
        } else if !st.in_event {
            spec_parse_logs(rest, st)
        } else if spec_find(line, "user:"@) is Some {
            spec_parse_logs(rest, LogScan { user: spec_extract_value(line, "user:"@), ..st })
        } else if spec_find(line, "amount:"@) is Some {
            spec_parse_logs(
                rest,
                LogScan { amount: spec_parse_u64(spec_extract_value(line, "amount:"@)->0), ..st },
            )
        } else if spec_find(line, "destination_chain:"@) is Some {
            spec_parse_logs(
                rest,
                LogScan {
                    dest_chain: spec_parse_u8(
                        spec_extract_value(line, "destination_chain:"@)->0,
                    ),
                    ..st
                },
            )
        } else if spec_find(line, "destination_address:"@) is Some {
            spec_parse_logs(
                rest,
                LogScan {
                    dest_addr: spec_parse_address_bytes(
                        spec_extract_value(line, "destination_address:"@)->0,
                    ),
                    ..st
                },
            )
        } else if spec_find(line, "nonce:"@) is Some {
            let st1 = LogScan { nonce: spec_parse_u64(spec_extract_value(line, "nonce:"@)->0), ..st };
            if st1.user is Some && st1.amount is Some && st1.dest_chain is Some
                && st1.dest_addr is Some && st1.nonce is Some {
                if st1.dest_chain->0 == 1 {
                    Ok(
                        Some(
                            LockEventModel {
                                to_chain: Chain::Ethereum,
                                sender: st1.user->0,
                                recipient: spec_recipient(Chain::Ethereum, st1.dest_addr->0),
                                amount: st1.amount->0,
                                nonce: st1.nonce->0,
                            },
                        ),
                    )
                } else if st1.dest_chain->0 == 2 {
                    Ok(
                        Some(
                            LockEventModel {
                                to_chain: Chain::Sui,
                                sender: st1.user->0,
                                recipient: spec_recipient(Chain::Sui, st1.dest_addr->0),
                                amount: st1.amount->0,
                                nonce: st1.nonce->0,
                            },
                        ),
                    )
                } else {
                    Err(st1.dest_chain->0)
                }
            } else {
                spec_parse_logs(rest, st1)
            }
        } else {
            spec_parse_logs(rest, st)
        }
    }
}

/// Decode one transaction's log lines into a canonical `TokensLocked` event,
/// if they carry a complete block.
pub fn parse_logs(logs: &Vec<String>, tx_hash: String) -> (r: Result<
    Option<BridgeEvent>,
    RelayerError,
>)
    ensures
        ({
            let m = spec_parse_logs(crate::text::string_views(logs@), initial_scan());
            match r {
                Ok(Some(e)) => m matches Ok(Some(ev)) && (e matches BridgeEvent::TokensLocked {
                    from_chain,
                    to_chain,
                    sender,
                    recipient,
                    amount,
                    nonce,
                    tx_hash: th,
                } && from_chain is Solana && to_chain == ev.to_chain && sender@ == ev.sender
                    && recipient@ == ev.recipient && amount == ev.amount && nonce == ev.nonce
                    && th@ == tx_hash@),
                Ok(None) => m == Ok::<Option<LockEventModel>, u8>(None),
                Err(e) => m is Err && e is ParseError,
            }
        }),
{
    let ghost all_lines = crate::text::string_views(logs@);
    let mut in_event = false;
    let mut user: Option<String> = None;
    let mut amount: Option<u64> = None;
    let mut dest_chain: Option<u8> = None;
    let mut dest_addr: Option<Vec<u8>> = None;
    let mut nonce: Option<u64> = None;
    let mut i: usize = 0;
    proof {
        assert(all_lines.subrange(0, all_lines.len() as int) =~= all_lines);
    }
    while i < logs.len()
        invariant
            i <= logs@.len(),
            all_lines == crate::text::string_views(logs@),
            all_lines.len() == logs@.len(),
            forall|j: int| 0 <= j < logs@.len() ==> all_lines[j] == logs@[j]@,
            ({
                let st = LogScan {
                    in_event,
                    user: opt_string_view(user),
                    amount,
                    dest_chain,
                    dest_addr: opt_bytes_view(dest_addr),
                    nonce,
                };
                spec_parse_logs(all_lines, initial_scan()) == spec_parse_logs(
                    all_lines.subrange(i as int, all_lines.len() as int),
                    st,
                )
            }),
        decreases logs@.len() - i,
    {
        let ghost st0 = LogScan {
            in_event,
            user: opt_string_view(user),
            amount,
            dest_chain,
            dest_addr: opt_bytes_view(dest_addr),
            nonce,
        };
        let ghost rest_lines = all_lines.subrange(i as int, all_lines.len() as int);
        proof {
            assert(rest_lines.first() == all_lines[i as int]);
            assert(rest_lines.drop_first() =~= all_lines.subrange(
                i + 1,
                all_lines.len() as int,
            ));
        }
        let log = &logs[i];
        if find(log.as_str(), "EVENT: TokensLocked").is_some() {
            in_event = true;
            i += 1;
            continue;
        }
        if !in_event {
            i += 1;
            continue;
        }
        match extract_value(log.as_str(), "user:") {
            Some(value) => {
                user = Some(value);
                i += 1;
                continue;
            },
            None => {},
        }
        match extract_value(log.as_str(), "amount:") {
            Some(value) => {
                amount = parse_u64(value.as_str());
                i += 1;
                continue;
            },
            None => {},
        }
        match extract_value(log.as_str(), "destination_chain:") {
            Some(value) => {
                dest_chain = parse_u8(value.as_str());
                i += 1;
                continue;
            },
            None => {},
        }
        match extract_value(log.as_str(), "destination_address:") {
            Some(value) => {
                dest_addr = parse_address_bytes(value.as_str());
                i += 1;
                continue;
            },
            None => {},
        }
        match extract_value(log.as_str(), "nonce:") {
            Some(value) => {
                nonce = parse_u64(value.as_str());
                if user.is_some() && amount.is_some() && dest_chain.is_some()
                    && dest_addr.is_some() && nonce.is_some() {
                    let user_val = user.unwrap();
                    let amount_val = amount.unwrap();
                    let dest_chain_val = dest_chain.unwrap();
                    let dest_addr_val = dest_addr.unwrap();
                    let nonce_val = nonce.unwrap();
                    let to_chain = if dest_chain_val == 1 {
                        Chain::Ethereum
                    } else if dest_chain_val == 2 {
                        Chain::Sui
                    } else {
                        return Err(
                            RelayerError::ParseError(
                                String::from_str("unknown destination chain id"),
                            ),
                        );
                    };
                    let hex_addr = hex_encode(dest_addr_val.as_slice());
                    let recipient = if dest_chain_val == 1 {
                        let mut p = String::from_str("0x");
                        p.append(hex_addr.as_str());
                        proof {
                            reveal_strlit("0x");
                            assert(p@ =~= seq!['0', 'x'] + hex_encode_spec(dest_addr_val@));
                        }
                        p
                    } else {
                        hex_addr
                    };
                    return Ok(
                        Some(
                            BridgeEvent::TokensLocked {
                                from_chain: Chain::Solana,
                                to_chain,
                                sender: user_val,
                                recipient,
                                amount: amount_val,
                                nonce: nonce_val,
                                tx_hash,
                            },
                        ),
                    );
                }
                i += 1;
                continue;
            },
            None => {},
        }
        i += 1;
    }
    proof {
        assert(all_lines.subrange(i as int, all_lines.len() as int).len() == 0);
    }
    Ok(None)
}

/// Record a `TokensLocked` event observed on the source chain as a `Pending`
/// ledger row, once: an already-recorded nonce is skipped, and a `TokensBurned`
/// event is not this monitor's to record.
pub fn handle_solana_event(db: &mut Database, event: &BridgeEvent, now: i64) -> (r: Result<
    IngestOutcome,
    RelayerError,
>)
    requires
        old(db).wf(),
        spec_event_nonce(*event) <= i64::MAX,
        spec_event_amount(*event) <= i64::MAX,
        forall|i: int| 0 <= i < old(db)@.len() ==> #[trigger] old(db)@[i].created_at <= now,
    ensures
        final(db).wf(),
        ({
            let nonce = spec_event_nonce(*event) as i64;
            match r {
                Ok(IngestOutcome::Ignored) => event is TokensBurned && final(db)@ == old(db)@,
                Ok(IngestOutcome::DuplicateNonce) => event is TokensLocked && has_nonce(
                    old(db)@,
                    nonce,
                ) && final(db)@ == old(db)@,
                Ok(IngestOutcome::Created(id)) => {
                    &&& event is TokensLocked
                    &&& !has_nonce(old(db)@, nonce)
                    &&& !has_hash(old(db)@, spec_event_tx_hash(*event))
                    &&& id == old(db)@.len() + 1
                    &&& final(db)@.len() == old(db)@.len() + 1
                    &&& forall|i: int|
                        0 <= i < old(db)@.len() ==> #[trigger] final(db)@[i] == old(db)@[i]
                    &&& row_matches_event(final(db)@.last(), *event, id as int, now)
                },
                Err(e) => {
                    &&& event is TokensLocked
                    &&& !has_nonce(old(db)@, nonce)
                    &&& (has_hash(old(db)@, spec_event_tx_hash(*event)) || old(db)@.len()
                        == i64::MAX)
                    &&& final(db)@ == old(db)@
                    &&& e is DatabaseError
                },
            }
        }),
{
    match event {
        BridgeEvent::TokensLocked {
            from_chain,
            to_chain,
            sender,
            recipient,
            amount,
            nonce,
            tx_hash,
        } => {
            if db.is_nonce_processed(*nonce) {
                return Ok(IngestOutcome::DuplicateNonce);
            }
            match db.create_transaction(
                *nonce,
                *from_chain,
                *to_chain,
                tx_hash.as_str(),
                sender.as_str(),
                recipient.as_str(),
                *amount,
                now,
            ) {
                Ok(id) => Ok(IngestOutcome::Created(id)),
                Err(e) => Err(e),
            }
        },
        BridgeEvent::TokensBurned { .. } => Ok(IngestOutcome::Ignored),
    }
}

} // verus!
