use bridge_core::config::ValidatorConfig;
use bridge_core::error::RelayerError;
use bridge_core::ethereum_monitor::{decode_tokens_burned, handle_ethereum_event, next_scan_range};
use bridge_core::ledger::{Database, IngestOutcome};
use bridge_core::solana_monitor::{
    extract_value, handle_solana_event, parse_address_bytes, parse_logs,
};
use bridge_core::submitter::{
    check_confirmation, check_ethereum_confirmation, classify_signature_status,
    collect_signatures, plan_transaction, submit_to_destination, ConfirmationPoll, SubmitterStep,
};
use bridge_core::types::{BridgeEvent, Chain, TransactionStatus};
use bridge_core::validator_client::ValidatorClient;

fn validator(name: &str, with_endpoint: bool) -> ValidatorConfig {
    ValidatorConfig {
        name: name.to_string(),
        eth_address: format!("0xaaaaaaaaaaaaaaaaaaaaaaaaaaaaaaaaaaaa{}", name),
        sol_public_key: format!("solkey{}", name),
        endpoint: if with_endpoint { Some(format!("http://validator-{}", name)) } else { None },
    }
}

#[test]
fn test_extract_value() {
    assert_eq!(extract_value("  user: 5XqZXqZXqZ", "user:"), Some("5XqZXqZXqZ".to_string()));
    assert_eq!(extract_value("  amount: 1000000", "amount:"), Some("1000000".to_string()));
}

#[test]
fn test_parse_address_bytes() {
    assert_eq!(parse_address_bytes("[1, 2, 3, 4]"), Some(vec![1, 2, 3, 4]));
    assert_eq!(parse_address_bytes("[255, 0, 128]"), Some(vec![255, 0, 128]));
    assert_eq!(parse_address_bytes("[]"), None);
    assert_eq!(parse_address_bytes("[1, x]"), None);
    assert_eq!(parse_address_bytes("[256]"), None);
}

#[test]
fn test_parse_logs_complete_block() {
    let logs = vec![
        "Program invoked".to_string(),
        "Program log: EVENT: TokensLocked".to_string(),
        "  user: sender111".to_string(),
        "  amount: 995000000".to_string(),
        "  destination_chain: 1".to_string(),
        "  destination_address: [17, 17]".to_string(),
        "  nonce: 1".to_string(),
    ];
    let event = parse_logs(&logs, "sourcehash1".to_string())
        .expect("scan should not fail")
        .expect("a complete block yields an event");
    match event {
        BridgeEvent::TokensLocked { from_chain, to_chain, sender, recipient, amount, nonce, tx_hash } => {
            assert!(matches!(from_chain, Chain::Solana));
            assert!(matches!(to_chain, Chain::Ethereum));
            assert_eq!(sender, "sender111");
            assert_eq!(recipient, "0x1111");
            assert_eq!(amount, 995000000);
            assert_eq!(nonce, 1);
            assert_eq!(tx_hash, "sourcehash1");
        }
        _ => panic!("wrong event kind"),
    }
}

#[test]
fn test_parse_logs_incomplete_and_unknown_chain() {
    // no marker line: nothing is collected
    let logs = vec!["  amount: 5".to_string(), "  nonce: 1".to_string()];
    assert!(parse_logs(&logs, "h".to_string()).unwrap().is_none());
    // marker but missing fields at the nonce line
    let logs = vec![
        "EVENT: TokensLocked".to_string(),
        "  amount: 5".to_string(),
        "  nonce: 1".to_string(),
    ];
    assert!(parse_logs(&logs, "h".to_string()).unwrap().is_none());
    // unknown destination chain id
    let logs = vec![
        "EVENT: TokensLocked".to_string(),
        "  user: u".to_string(),
        "  amount: 5".to_string(),
        "  destination_chain: 9".to_string(),
        "  destination_address: [1]".to_string(),
        "  nonce: 1".to_string(),
    ];
    let r = parse_logs(&logs, "h".to_string());
    assert!(matches!(r, Err(RelayerError::ParseError(_))));
}

#[test]
fn test_ledger_idempotent_create() {
    let mut db = Database::new();
    let id = db
        .create_transaction(1, Chain::Solana, Chain::Ethereum, "hash1", "s", "r", 100, 10)
        .expect("first create");
    assert_eq!(id, 1);
    assert_eq!(db.len(), 1);
    // same nonce again: refused, still one row
    let r = db.create_transaction(1, Chain::Solana, Chain::Ethereum, "hash2", "s", "r", 100, 11);
    assert!(matches!(r, Err(RelayerError::DatabaseError(_))));
    assert_eq!(db.len(), 1);
    // same source hash again: refused, still one row
    let r = db.create_transaction(2, Chain::Solana, Chain::Ethereum, "hash1", "s", "r", 100, 12);
    assert!(matches!(r, Err(RelayerError::DatabaseError(_))));
    assert_eq!(db.len(), 1);
    assert!(db.is_nonce_processed(1));
    assert!(!db.is_nonce_processed(2));
}

#[test]
fn test_ledger_queries() {
    let mut db = Database::new();
    db.create_transaction(1, Chain::Solana, Chain::Ethereum, "h1", "s1", "r1", 10, 1).unwrap();
    db.create_transaction(2, Chain::Ethereum, Chain::Solana, "h2", "s2", "r2", 20, 2).unwrap();
    db.create_transaction(3, Chain::Solana, Chain::Ethereum, "h3", "s3", "r3", 30, 3).unwrap();
    let t = db.get_transaction_by_nonce(2).expect("row exists");
    assert_eq!(t.id, 2);
    assert_eq!(t.from_tx_hash, "h2");
    assert!(db.get_transaction_by_nonce(9).is_none());
    let t = db.get_transaction_by_hash("h3").expect("row exists");
    assert_eq!(t.nonce, 3);
    assert!(db.get_transaction_by_hash("nope").is_none());
    // the queue is oldest first
    let pending = db.get_pending_transactions();
    assert_eq!(pending.len(), 3);
    assert_eq!(pending[0].id, 1);
    assert_eq!(pending[2].id, 3);
    // move row 1 forward; the by-status report is newest first
    db.update_transaction_status(1, TransactionStatus::SignaturesCollected, None, None, 4)
        .unwrap();
    let still_pending = db.get_transactions_by_status(TransactionStatus::Pending);
    assert_eq!(still_pending.len(), 2);
    assert_eq!(still_pending[0].id, 3);
    assert_eq!(still_pending[1].id, 2);
    let stats = db.get_stats();
    assert_eq!(stats.total, 3);
    assert_eq!(stats.pending, 2);
    assert_eq!(stats.signatures_collected, 1);
    assert_eq!(stats.submitted, 0);
    assert_eq!(stats.confirmed, 0);
    assert_eq!(stats.failed, 0);
}

#[test]
fn test_handle_solana_event_idempotent() {
    let mut db = Database::new();
    let event = BridgeEvent::TokensLocked {
        from_chain: Chain::Solana,
        to_chain: Chain::Ethereum,
        sender: "s".to_string(),
        recipient: "0x11".to_string(),
        amount: 5,
        nonce: 7,
        tx_hash: "h7".to_string(),
    };
    let r = handle_solana_event(&mut db, &event, 1).unwrap();
    assert!(matches!(r, IngestOutcome::Created(1)));
    assert_eq!(db.len(), 1);
    let r = handle_solana_event(&mut db, &event, 2).unwrap();
    assert!(matches!(r, IngestOutcome::DuplicateNonce));
    assert_eq!(db.len(), 1);
    // a burn event is not the source monitor's to record
    let burn = BridgeEvent::TokensBurned {
        from_chain: Chain::Ethereum,
        to_chain: Chain::Solana,
        sender: "e".to_string(),
        recipient: "r".to_string(),
        amount: 5,
        nonce: 8,
        tx_hash: "h8".to_string(),
    };
    let r = handle_solana_event(&mut db, &burn, 3).unwrap();
    assert!(matches!(r, IngestOutcome::Ignored));
    assert_eq!(db.len(), 1);
}

#[test]
fn test_next_scan_range() {
    // tip not deep enough past the checkpoint: no scan
    assert_eq!(next_scan_range(100, 112, 12), None);
    assert_eq!(next_scan_range(100, 100, 12), None);
    // one confirmed block available
    assert_eq!(next_scan_range(100, 113, 12), Some((101, 101)));
    assert_eq!(next_scan_range(0, 50, 12), Some((1, 38)));
}

fn abi_word_u64(x: u64) -> [u8; 32] {
    let mut w = [0u8; 32];
    w[24..].copy_from_slice(&x.to_be_bytes());
    w
}

#[test]
fn test_decode_tokens_burned() {
    let mut sender_topic = [0u8; 32];
    for i in 0..20 {
        sender_topic[12 + i] = 0xa0 + i as u8;
    }
    let topics = vec![vec![0u8; 32], sender_topic.to_vec()];
    let solana_address = b"9WzDXwBbmkg8ZTbNMqUxvQRAyrZzDsGYdLVL9zYtAWWM";
    let mut data = Vec::new();
    data.extend_from_slice(&abi_word_u64(995_000_000));
    data.extend_from_slice(&abi_word_u64(96));
    data.extend_from_slice(&abi_word_u64(4));
    data.extend_from_slice(&abi_word_u64(solana_address.len() as u64));
    data.extend_from_slice(solana_address);
    // ABI padding to a word boundary
    while data.len() % 32 != 0 {
        data.push(0);
    }
    let tx_hash = [0x55u8; 32];
    let event = decode_tokens_burned(&topics, &data, &tx_hash).expect("decode");
    match event {
        BridgeEvent::TokensBurned { from_chain, to_chain, sender, recipient, amount, nonce, tx_hash } => {
            assert!(matches!(from_chain, Chain::Ethereum));
            assert!(matches!(to_chain, Chain::Solana));
            assert_eq!(
                sender,
                "0xa0a1a2a3a4a5a6a7a8a9aaabacadaeafb0b1b2b3"
            );
            assert_eq!(recipient, String::from_utf8(solana_address.to_vec()).unwrap());
            assert_eq!(amount, 995_000_000);
            assert_eq!(nonce, 4);
            assert_eq!(tx_hash, format!("0x{}", "55".repeat(32)));
        }
        _ => panic!("wrong event kind"),
    }
    // an amount beyond u64 does not decode
    let mut big = data.clone();
    big[0] = 1;
    assert!(matches!(
        decode_tokens_burned(&topics, &big, &tx_hash),
        Err(RelayerError::ParseError(_))
    ));
    // a burn event lands in the ledger once
    let mut db = Database::new();
    let event = decode_tokens_burned(&topics, &data, &tx_hash).unwrap();
    let r = handle_ethereum_event(&mut db, &event, 1).unwrap();
    assert!(matches!(r, IngestOutcome::Created(1)));
    let r = handle_ethereum_event(&mut db, &event, 2).unwrap();
    assert!(matches!(r, IngestOutcome::DuplicateNonce));
}

#[test]
fn test_message_hash_creation() {
    let client = ValidatorClient::new(vec![]);

    let mut recipient = [0u8; 20];
    recipient.copy_from_slice(&[
        0x74, 0x2d, 0x35, 0xCc, 0x66, 0x34, 0xC0, 0x53, 0x29, 0x25, 0xa3, 0xb8, 0x44, 0xBc,
        0x9e, 0x75, 0x95, 0xf0, 0xbE, 0xb0,
    ]);
    let amount = 1000000u64;
    let nonce = 1;
    let sender = "SoLXxX123";

    let hash = client.create_ethereum_message_hash(&recipient, amount, nonce, sender);
    assert_eq!(hash.len(), 32);
}

#[test]
fn test_collect_signatures_needs_a_reachable_validator() {
    let client = ValidatorClient::new(vec![validator("1", false), validator("2", false)]);
    let r = client.collect_signatures_for_solana_unlock("recipient", 5, 1, "sender", 0);
    assert!(matches!(r, Err(RelayerError::InsufficientSignatures { expected: 2, got: 0 })));
    let client = ValidatorClient::new(vec![validator("1", true), validator("2", false)]);
    let sigs = client.collect_signatures_for_solana_unlock("recipient", 5, 1, "sender", 9).unwrap();
    assert_eq!(sigs.len(), 1);
    assert_eq!(sigs[0].validator_address, "solkey1");
    assert_eq!(sigs[0].signed_at, 9);
    assert!(sigs[0].signature.starts_with("0x"));
    assert_eq!(sigs[0].signature.len(), 66);
}

#[test]
fn test_plan_transaction() {
    assert_eq!(plan_transaction(TransactionStatus::Pending), SubmitterStep::CollectSignatures);
    assert_eq!(plan_transaction(TransactionStatus::SignaturesCollected), SubmitterStep::Submit);
    assert_eq!(plan_transaction(TransactionStatus::Submitted), SubmitterStep::CheckConfirmation);
    assert_eq!(plan_transaction(TransactionStatus::Confirmed), SubmitterStep::NoOp);
    assert_eq!(plan_transaction(TransactionStatus::Failed), SubmitterStep::NoOp);
}

#[test]
fn test_confirmation_helpers() {
    assert!(classify_signature_status(&Some(Ok(()))));
    assert!(!classify_signature_status(&Some(Err("busted".to_string()))));
    assert!(!classify_signature_status(&None));
    assert_eq!(check_ethereum_confirmation("0xdeadbeef").unwrap(), false);
    assert!(matches!(
        check_ethereum_confirmation("0xnothex"),
        Err(RelayerError::ParseError(_))
    ));
}

#[test]
fn test_end_to_end_lock_to_confirmed() {
    // a lock of 1_000_000_000 at 50 basis points leaves 995_000_000 net;
    // the destination is an EVM account, rendered as 20 bytes in the log
    let logs = vec![
        "Program log: EVENT: TokensLocked".to_string(),
        "  user: 9WzDXwBbmkg8ZTbNMqUxvQRAyrZzDsGYdLVL9zYtAWWM".to_string(),
        "  amount: 995000000".to_string(),
        "  destination_chain: 1".to_string(),
        format!("  destination_address: {:?}", [0x11u8; 20]),
        "  nonce: 1".to_string(),
    ];
    let event = parse_logs(&logs, "sourcehash".to_string()).unwrap().unwrap();

    // observed: the ledger row appears as Pending
    let mut db = Database::new();
    let r = handle_solana_event(&mut db, &event, 100).unwrap();
    assert!(matches!(r, IngestOutcome::Created(1)));
    let row = db.get_transaction_by_nonce(1).unwrap();
    assert!(matches!(row.status, TransactionStatus::Pending));
    assert_eq!(row.amount, 995_000_000);
    assert_eq!(row.recipient, format!("0x{}", "11".repeat(20)));

    // two of the three validators are reachable against a threshold of two
    let client = ValidatorClient::new(vec![
        validator("1", true),
        validator("2", false),
        validator("3", true),
    ]);
    assert_eq!(plan_transaction(row.status), SubmitterStep::CollectSignatures);
    collect_signatures(&mut db, &client, &row, 101).unwrap();
    let row = db.get_transaction_by_nonce(1).unwrap();
    assert!(matches!(row.status, TransactionStatus::SignaturesCollected));
    assert_eq!(row.signatures.as_ref().unwrap().len(), 2);

    // submitted: the destination hash is recorded
    assert_eq!(plan_transaction(row.status), SubmitterStep::Submit);
    let hash = submit_to_destination(&mut db, &row, true, true, 102).unwrap();
    assert_eq!(hash, format!("0x{}", hex::encode(1u64.to_le_bytes())));
    let row = db.get_transaction_by_nonce(1).unwrap();
    assert!(matches!(row.status, TransactionStatus::Submitted));
    assert_eq!(row.to_tx_hash.as_deref(), Some(hash.as_str()));

    // the confirmation poll reports final: the row becomes Confirmed
    assert_eq!(plan_transaction(row.status), SubmitterStep::CheckConfirmation);
    check_confirmation(&mut db, &row, &ConfirmationPoll::FinalizedOk, 103).unwrap();
    let row = db.get_transaction_by_nonce(1).unwrap();
    assert!(matches!(row.status, TransactionStatus::Confirmed));
    // the destination hash and the collected signatures stay on the row
    assert_eq!(row.to_tx_hash.as_deref(), Some(hash.as_str()));
    assert_eq!(row.signatures.as_ref().unwrap().len(), 2);
    let stats = db.get_stats();
    assert_eq!(stats.confirmed, 1);
    assert_eq!(stats.total, 1);
}

#[test]
fn test_submit_error_cases() {
    let mut db = Database::new();
    db.create_transaction(1, Chain::Solana, Chain::Ethereum, "h1", "s", "0xnothex", 10, 1)
        .unwrap();
    let row = db.get_transaction_by_nonce(1).unwrap();
    // no signatures stored yet
    let r = submit_to_destination(&mut db, &row, true, true, 2);
    assert!(matches!(r, Err(RelayerError::InvalidSignature(_))));
    // a Sui-bound row cannot be collected for
    let client = ValidatorClient::new(vec![validator("1", true)]);
    db.create_transaction(2, Chain::Solana, Chain::Sui, "h2", "s", "r", 10, 3).unwrap();
    let sui_row = db.get_transaction_by_nonce(2).unwrap();
    let r = collect_signatures(&mut db, &client, &sui_row, 4);
    assert!(matches!(r, Err(RelayerError::InvalidChain(_))));
    // an EVM recipient that is not an account string cannot be collected for
    let bad_row = db.get_transaction_by_nonce(1).unwrap();
    let r = collect_signatures(&mut db, &client, &bad_row, 5);
    assert!(matches!(r, Err(RelayerError::ParseError(_))));
}

#[test]
fn test_submit_to_solana_destination() {
    let mut db = Database::new();
    let recipient = "22".repeat(32);
    db.create_transaction(9, Chain::Ethereum, Chain::Solana, "h9", "0xsender", &recipient, 750, 1)
        .unwrap();
    let row = db.get_transaction_by_nonce(9).unwrap();
    let client = ValidatorClient::new(vec![validator("1", true), validator("2", true)]);
    collect_signatures(&mut db, &client, &row, 2).unwrap();
    let row = db.get_transaction_by_nonce(9).unwrap();
    let hash = submit_to_destination(&mut db, &row, false, true, 3).unwrap();
    assert_eq!(hash, "solana_tx_9");
    let row = db.get_transaction_by_nonce(9).unwrap();
    assert!(matches!(row.status, TransactionStatus::Submitted));
    // without the keypair the submission is refused
    let mut db2 = Database::new();
    db2.create_transaction(9, Chain::Ethereum, Chain::Solana, "h9", "s", &recipient, 750, 1)
        .unwrap();
    db2.update_signatures(1, row.signatures.clone().unwrap(), 2).unwrap();
    let row2 = db2.get_transaction_by_nonce(9).unwrap();
    let r = submit_to_destination(&mut db2, &row2, true, false, 3);
    assert!(matches!(r, Err(RelayerError::ConfigError(_))));
}

#[test]
fn test_failed_confirmation_marks_row_failed() {
    let mut db = Database::new();
    db.create_transaction(1, Chain::Ethereum, Chain::Solana, "h1", "s", "r", 10, 1).unwrap();
    db.update_transaction_status(1, TransactionStatus::SignaturesCollected, None, None, 2)
        .unwrap();
    db.update_transaction_status(1, TransactionStatus::Submitted, Some("desthash"), None, 3)
        .unwrap();
    let row = db.get_transaction_by_nonce(1).unwrap();
    check_confirmation(
        &mut db,
        &row,
        &ConfirmationPoll::FinalizedFailed("reverted".to_string()),
        4,
    )
    .unwrap();
    let row = db.get_transaction_by_nonce(1).unwrap();
    assert!(matches!(row.status, TransactionStatus::Failed));
    assert_eq!(row.error_message.as_deref(), Some("reverted"));
    assert_eq!(row.to_tx_hash.as_deref(), Some("desthash"));
    // a not-yet-final poll leaves a Submitted row untouched
    let mut db2 = Database::new();
    db2.create_transaction(1, Chain::Ethereum, Chain::Solana, "h1", "s", "r", 10, 1).unwrap();
    db2.update_transaction_status(1, TransactionStatus::SignaturesCollected, None, None, 2)
        .unwrap();
    db2.update_transaction_status(1, TransactionStatus::Submitted, Some("desthash"), None, 3)
        .unwrap();
    let row = db2.get_transaction_by_nonce(1).unwrap();
    check_confirmation(&mut db2, &row, &ConfirmationPoll::NotFinal, 4).unwrap();
    let row = db2.get_transaction_by_nonce(1).unwrap();
    assert!(matches!(row.status, TransactionStatus::Submitted));
}

#[test]
fn test_extract_value_edge_cases() {
    // the key must actually occur
    assert_eq!(extract_value("no such line", "user:"), None);
    // everything after the first occurrence is taken, trimmed on both sides
    assert_eq!(extract_value("user: a user: b", "user:"), Some("a user: b".to_string()));
    assert_eq!(extract_value("amount: \t 42 \t", "amount:"), Some("42".to_string()));
    // an empty value trims to the empty string
    assert_eq!(extract_value("nonce:   ", "nonce:"), Some(String::new()));
}

#[test]
fn test_parse_address_bytes_edge_cases() {
    // whitespace and repeated brackets are stripped
    assert_eq!(parse_address_bytes("  [[7]]  "), Some(vec![7]));
    // a value beyond one byte fails
    assert_eq!(parse_address_bytes("[1, 300]"), None);
    // an empty segment fails
    assert_eq!(parse_address_bytes("[1,,2]"), None);
}

#[test]
fn test_parse_logs_numeric_limits() {
    // an amount beyond u64 leaves the field unset, so the block stays open
    let logs = vec![
        "EVENT: TokensLocked".to_string(),
        "  user: u".to_string(),
        "  amount: 18446744073709551616".to_string(),
        "  destination_chain: 1".to_string(),
        "  destination_address: [1]".to_string(),
        "  nonce: 1".to_string(),
    ];
    assert!(parse_logs(&logs, "h".to_string()).unwrap().is_none());
    // u64::MAX itself parses
    let logs = vec![
        "EVENT: TokensLocked".to_string(),
        "  user: u".to_string(),
        "  amount: 18446744073709551615".to_string(),
        "  destination_chain: 2".to_string(),
        "  destination_address: [1]".to_string(),
        "  nonce: 1".to_string(),
    ];
    let event = parse_logs(&logs, "h".to_string()).unwrap().unwrap();
    match event {
        BridgeEvent::TokensLocked { amount, to_chain, recipient, .. } => {
            assert_eq!(amount, u64::MAX);
            assert!(matches!(to_chain, Chain::Sui));
            // no EVM prefix on a non-EVM destination
            assert_eq!(recipient, "01");
        }
        _ => panic!("wrong event kind"),
    }
}

#[test]
fn test_chain_and_status_names() {
    assert_eq!(Chain::Solana.name(), "Solana");
    assert_eq!(Chain::Ethereum.name(), "Ethereum");
    assert_eq!(Chain::Sui.name(), "Sui");
    assert_eq!(TransactionStatus::Pending.name(), "Pending");
    assert_eq!(TransactionStatus::SignaturesCollected.name(), "SignaturesCollected");
    assert_eq!(TransactionStatus::Confirmed.name(), "Confirmed");
}

#[test]
fn test_event_getters() {
    let event = BridgeEvent::TokensLocked {
        from_chain: Chain::Solana,
        to_chain: Chain::Ethereum,
        sender: "s".to_string(),
        recipient: "r".to_string(),
        amount: 5,
        nonce: 7,
        tx_hash: "h".to_string(),
    };
    assert_eq!(event.nonce(), 7);
    assert!(matches!(event.from_chain(), Chain::Solana));
    assert!(matches!(event.to_chain(), Chain::Ethereum));
    assert_eq!(event.tx_hash(), "h");
}
