use bridge_indexer::distribute::BridgeConfig;
use bridge_indexer::distribute::ConfigError;
use bridge_indexer::distribute::DeliveryOutcome;
use bridge_indexer::distribute::DistributorAction;
use bridge_indexer::distribute::MAX_SEND_ATTEMPTS;
use bridge_indexer::distribute::RETRY_DELAY_SECS;
use bridge_indexer::distribute::ReceiptEvent;
use bridge_indexer::distribute::RetryDecision;
use bridge_indexer::distribute::SkipReason;
use bridge_indexer::distribute::next_retry_action;
use bridge_indexer::distribute::on_processed_check;
use bridge_indexer::distribute::on_receipt;
use bridge_indexer::distribute::plan_distribution;
use bridge_indexer::ingest::DepositLog;
use bridge_indexer::ingest::IngestOutcome;
use bridge_indexer::ingest::SeenHashes;
use bridge_indexer::ingest::ingest_log;
use bridge_indexer::store::Store;
use bridge_indexer::sweep::CONFIRMATION_BLOCKS;
use bridge_indexer::sweep::TICK_SECS;
use bridge_indexer::sweep::finality_tick;

fn hexaddr(byte: &str) -> String {
    let mut s = String::from("0x");
    let mut i = 0;
    while i < 20 {
        s.push_str(byte);
        i += 1;
    }
    s
}

fn pair_config() -> BridgeConfig {
    BridgeConfig::new(
        String::from("A"),
        String::from("B"),
        &hexaddr("aa"),
        &hexaddr("bb"),
    )
    .expect("valid configuration")
}

fn deposit_log(tx: &str, block: i64, token: u8, nonce: &str, amount: &str) -> DepositLog {
    DepositLog {
        transaction_hash: Some(tx.to_string()),
        block_number: Some(block),
        token: vec![token; 20],
        from: vec![0xDD; 20],
        to: vec![0xCC; 20],
        amount: amount.to_string(),
        nonce: nonce.to_string(),
    }
}

#[test]
fn s1_happy_path() {
    let mut store = Store::init_db();
    let mut seen = SeenHashes::new();
    let cfg = pair_config();
    let chain_a = String::from("A");

    // Chain A emits Deposit(token=TA, from=U, to=R, amount=1000, nonce=7) at block 100.
    let log = deposit_log("0xtx1", 100, 0xAA, "7", "1000");
    assert_eq!(ingest_log(&mut store, &mut seen, &chain_a, &log, 10), IngestOutcome::Inserted);
    assert_eq!(store.rows.len(), 1);
    assert_eq!(store.get_last_processed_block(&chain_a), 100);

    // Head reaches 112 with K = 12: the row flips to finality-confirmed.
    assert_eq!(finality_tick(&mut store, &chain_a, Some(112), CONFIRMATION_BLOCKS, 20), Some(1));
    assert!(store.rows[0].finality_confirmed);

    // The distributor observes one deliverable record.
    let deliverable = store.get_unprocessed_deposits();
    assert_eq!(deliverable.len(), 1);
    let record = &deliverable[0];

    // It maps to a distribute(TB, R, 1000, 7) submission on chain B.
    let plan = plan_distribution(record, &cfg).expect("record is actionable");
    assert_eq!(plan.target_chain_id, "B");
    assert_eq!(plan.target_token, hexaddr("bb"));
    assert_eq!(plan.to_address, hexaddr("cc"));
    assert_eq!(plan.amount, "1000");
    assert_eq!(plan.nonce, "7");

    // processedDeposits(7) on chain B is false: submit.
    let action = on_processed_check(&mut store, &record.deposit_id, Some(false), 30);
    assert_eq!(action, DistributorAction::Submit);
    assert!(!store.rows[0].processed);

    // The submission succeeds first try; the receipt has status 1.
    assert_eq!(next_retry_action(1, true), RetryDecision::Done);
    let receipt = ReceiptEvent::Received { status: Some(1) };
    let outcome = on_receipt(&mut store, &record.deposit_id, &receipt, 40);
    assert_eq!(outcome, DeliveryOutcome::Delivered);
    assert!(store.rows[0].processed);
    assert!(store.rows[0].finality_confirmed);
    assert_eq!(store.get_unprocessed_deposits().len(), 0);
}

#[test]
fn s2_duplicate_log_replay() {
    let mut store = Store::init_db();
    let mut seen = SeenHashes::new();
    let chain_a = String::from("A");
    let log = deposit_log("0xtx1", 100, 0xAA, "7", "1000");

    assert_eq!(ingest_log(&mut store, &mut seen, &chain_a, &log, 10), IngestOutcome::Inserted);
    // The subscription replays the same log: the in-memory filter skips it.
    assert_eq!(
        ingest_log(&mut store, &mut seen, &chain_a, &log, 11),
        IngestOutcome::DuplicateInMemory
    );
    assert_eq!(store.rows.len(), 1);

    // After a restart the in-memory set is empty; the store constraint
    // still absorbs the replay. Row count for (A, 7) stays 1.
    let mut seen_after_restart = SeenHashes::new();
    let replog = deposit_log("0xtx1-replayed", 100, 0xAA, "7", "1000");
    assert_eq!(
        ingest_log(&mut store, &mut seen_after_restart, &chain_a, &replog, 12),
        IngestOutcome::DuplicateInStore
    );
    assert_eq!(store.rows.len(), 1);
}

#[test]
fn s3_already_processed_on_target() {
    let mut store = Store::init_db();
    let mut seen = SeenHashes::new();
    let chain_a = String::from("A");
    let log = deposit_log("0xtx1", 100, 0xAA, "7", "1000");
    ingest_log(&mut store, &mut seen, &chain_a, &log, 10);
    finality_tick(&mut store, &chain_a, Some(112), CONFIRMATION_BLOCKS, 20);

    let record = &store.get_unprocessed_deposits()[0];
    // processedDeposits(7) on chain B reports true: mark delivered, no submission.
    let action = on_processed_check(&mut store, &record.deposit_id, Some(true), 30);
    assert_eq!(action, DistributorAction::MarkedDelivered);
    assert!(store.rows[0].processed);
    assert_eq!(store.get_unprocessed_deposits().len(), 0);
}

#[test]
fn read_failure_biases_to_delivered() {
    let mut store = Store::init_db();
    let mut seen = SeenHashes::new();
    let chain_a = String::from("A");
    let log = deposit_log("0xtx1", 100, 0xAA, "7", "1000");
    ingest_log(&mut store, &mut seen, &chain_a, &log, 10);
    finality_tick(&mut store, &chain_a, Some(112), CONFIRMATION_BLOCKS, 20);

    let record = &store.get_unprocessed_deposits()[0];
    // The processedDeposits read itself failed: bias against double-send.
    let action = on_processed_check(&mut store, &record.deposit_id, None, 30);
    assert_eq!(action, DistributorAction::MarkedDelivered);
    assert!(store.rows[0].processed);
}

#[test]
fn s4_malformed_nonce_rejected_and_loop_continues() {
    let mut store = Store::init_db();
    let mut seen = SeenHashes::new();
    let chain_a = String::from("A");

    let bad = deposit_log("0xtx1", 100, 0xAA, "abc", "1000");
    assert_eq!(ingest_log(&mut store, &mut seen, &chain_a, &bad, 10), IngestOutcome::InvalidNonce);
    assert_eq!(store.rows.len(), 0);
    assert_eq!(store.get_last_processed_block(&chain_a), 0);

    // The ingestor goes on with subsequent logs.
    let good = deposit_log("0xtx2", 101, 0xAA, "8", "500");
    assert_eq!(ingest_log(&mut store, &mut seen, &chain_a, &good, 11), IngestOutcome::Inserted);
    assert_eq!(store.rows.len(), 1);
}

#[test]
fn malformed_amount_rejected_at_ingest() {
    let mut store = Store::init_db();
    let mut seen = SeenHashes::new();
    let chain_a = String::from("A");

    let bad = deposit_log("0xtx1", 100, 0xAA, "7", "lots");
    assert_eq!(
        ingest_log(&mut store, &mut seen, &chain_a, &bad, 10),
        IngestOutcome::InvalidAmount
    );
    assert_eq!(store.rows.len(), 0);
    assert_eq!(store.get_last_processed_block(&chain_a), 0);
    assert_eq!(seen.hashes.len(), 0);

    let good = deposit_log("0xtx2", 101, 0xAA, "7", "1000");
    assert_eq!(ingest_log(&mut store, &mut seen, &chain_a, &good, 11), IngestOutcome::Inserted);
    assert_eq!(store.rows.len(), 1);
}

#[test]
fn s5_submit_retry_schedule() {
    // First attempt fails on transport: retry after the 5 s delay.
    assert_eq!(next_retry_action(1, false), RetryDecision::RetryAfterDelay);
    // Second attempt succeeds: done, exactly one distribution results.
    assert_eq!(next_retry_action(2, true), RetryDecision::Done);
    // Three failures exhaust the attempts.
    assert_eq!(next_retry_action(MAX_SEND_ATTEMPTS, false), RetryDecision::GiveUp);
    assert_eq!(RETRY_DELAY_SECS, 5);
    assert_eq!(MAX_SEND_ATTEMPTS, 3);
}

#[test]
fn s6_pre_finality_row_waits() {
    let mut store = Store::init_db();
    let mut seen = SeenHashes::new();
    let chain_a = String::from("A");
    let log = deposit_log("0xtx1", 100, 0xAA, "7", "1000");
    ingest_log(&mut store, &mut seen, &chain_a, &log, 10);

    // Head 105, K = 12: horizon 93 < 100, nothing flips, nothing deliverable.
    assert_eq!(finality_tick(&mut store, &chain_a, Some(105), CONFIRMATION_BLOCKS, 20), Some(0));
    assert!(!store.rows[0].finality_confirmed);
    assert_eq!(store.get_unprocessed_deposits().len(), 0);

    // At head 112 the row flips and proceeds as in the happy path.
    assert_eq!(finality_tick(&mut store, &chain_a, Some(112), CONFIRMATION_BLOCKS, 21), Some(1));
    assert_eq!(store.get_unprocessed_deposits().len(), 1);
}

#[test]
fn idempotent_restart_submits_nothing() {
    let mut store = Store::init_db();
    let mut seen = SeenHashes::new();
    let chain_a = String::from("A");
    let log = deposit_log("0xtx1", 100, 0xAA, "7", "1000");
    ingest_log(&mut store, &mut seen, &chain_a, &log, 10);
    finality_tick(&mut store, &chain_a, Some(112), CONFIRMATION_BLOCKS, 20);
    let record = &store.get_unprocessed_deposits()[0];
    on_processed_check(&mut store, &record.deposit_id, Some(false), 30);
    let receipt = ReceiptEvent::Received { status: Some(1) };
    on_receipt(&mut store, &record.deposit_id, &receipt, 40);

    // A second process generation over the same store and a quiescent
    // chain: nothing is deliverable, so nothing is submitted.
    assert_eq!(store.get_unprocessed_deposits().len(), 0);
    let mut seen_second_run = SeenHashes::new();
    let replay = deposit_log("0xtx1-replayed", 100, 0xAA, "7", "1000");
    assert_eq!(
        ingest_log(&mut store, &mut seen_second_run, &chain_a, &replay, 50),
        IngestOutcome::DuplicateInStore
    );
    assert_eq!(finality_tick(&mut store, &chain_a, Some(130), CONFIRMATION_BLOCKS, 51), Some(0));
    assert_eq!(store.get_unprocessed_deposits().len(), 0);
}

#[test]
fn revert_and_missing_receipts_leave_record() {
    let mut store = Store::init_db();
    let mut seen = SeenHashes::new();
    let chain_a = String::from("A");
    let log = deposit_log("0xtx1", 100, 0xAA, "7", "1000");
    ingest_log(&mut store, &mut seen, &chain_a, &log, 10);
    finality_tick(&mut store, &chain_a, Some(112), CONFIRMATION_BLOCKS, 20);
    let id = store.rows[0].deposit_id.clone();

    let reverted = ReceiptEvent::Received { status: Some(0) };
    assert_eq!(on_receipt(&mut store, &id, &reverted, 30), DeliveryOutcome::LeftPending);
    let unknown = ReceiptEvent::Received { status: None };
    assert_eq!(on_receipt(&mut store, &id, &unknown, 31), DeliveryOutcome::LeftPending);
    assert_eq!(on_receipt(&mut store, &id, &ReceiptEvent::NotFound, 32), DeliveryOutcome::LeftPending);
    assert_eq!(on_receipt(&mut store, &id, &ReceiptEvent::AwaitFailed, 33), DeliveryOutcome::LeftPending);
    assert_eq!(on_receipt(&mut store, &id, &ReceiptEvent::SendFailed, 34), DeliveryOutcome::LeftPending);
    assert!(!store.rows[0].processed);
    assert_eq!(store.get_unprocessed_deposits().len(), 1);
}

#[test]
fn ingest_drops_logs_without_hash() {
    let mut store = Store::init_db();
    let mut seen = SeenHashes::new();
    let mut log = deposit_log("0xtx1", 100, 0xAA, "7", "1000");
    log.transaction_hash = None;
    assert_eq!(
        ingest_log(&mut store, &mut seen, &String::from("A"), &log, 10),
        IngestOutcome::NoTransactionHash
    );
    assert_eq!(store.rows.len(), 0);
    assert_eq!(seen.hashes.len(), 0);
}

#[test]
fn ingest_defaults_missing_block_to_zero() {
    let mut store = Store::init_db();
    let mut seen = SeenHashes::new();
    let mut log = deposit_log("0xtx1", 100, 0xAA, "7", "1000");
    log.block_number = None;
    assert_eq!(
        ingest_log(&mut store, &mut seen, &String::from("A"), &log, 10),
        IngestOutcome::Inserted
    );
    assert_eq!(store.rows[0].block_number, 0);
    assert_eq!(store.get_last_processed_block(&String::from("A")), 0);
}

#[test]
fn ingest_formats_addresses() {
    let mut store = Store::init_db();
    let mut seen = SeenHashes::new();
    let log = deposit_log("0xtx1", 100, 0xAA, "7", "1000");
    ingest_log(&mut store, &mut seen, &String::from("A"), &log, 10);
    assert_eq!(store.rows[0].token_address, hexaddr("aa"));
    assert_eq!(store.rows[0].from_address, hexaddr("dd"));
    assert_eq!(store.rows[0].to_address, hexaddr("cc"));
    assert_eq!(store.rows[0].transaction_hash, "0xtx1");
    assert_eq!(store.rows[0].deposit_id.len(), 36);
}

#[test]
fn plan_errors_in_check_order() {
    let cfg = pair_config();
    let mut store = Store::init_db();
    let mut seen = SeenHashes::new();
    ingest_log(
        &mut store,
        &mut seen,
        &String::from("A"),
        &deposit_log("0xtx1", 100, 0xAA, "7", "1000"),
        10,
    );
    let good = store.rows[0].duplicate();

    let mut bad_token = good.duplicate();
    bad_token.token_address = String::from("not-an-address");
    assert_eq!(plan_distribution(&bad_token, &cfg), Err(SkipReason::InvalidTokenAddress));

    let mut unknown_chain = good.duplicate();
    unknown_chain.chain_id = String::from("C");
    assert_eq!(plan_distribution(&unknown_chain, &cfg), Err(SkipReason::UnknownChain));

    let mut mismatched = good.duplicate();
    mismatched.token_address = hexaddr("bb");
    assert_eq!(plan_distribution(&mismatched, &cfg), Err(SkipReason::TokenMismatch));

    let mut bad_to = good.duplicate();
    bad_to.to_address = String::from("0x123");
    assert_eq!(plan_distribution(&bad_to, &cfg), Err(SkipReason::InvalidToAddress));

    let mut bad_amount = good.duplicate();
    bad_amount.amount = String::from("1e18");
    assert_eq!(plan_distribution(&bad_amount, &cfg), Err(SkipReason::InvalidAmount));

    let mut bad_nonce = good.duplicate();
    bad_nonce.nonce = String::from("seven");
    assert_eq!(plan_distribution(&bad_nonce, &cfg), Err(SkipReason::InvalidNonce));
}

#[test]
fn plan_maps_chain_b_to_chain_a() {
    let cfg = pair_config();
    let mut store = Store::init_db();
    let mut seen = SeenHashes::new();
    ingest_log(
        &mut store,
        &mut seen,
        &String::from("B"),
        &deposit_log("0xtx9", 55, 0xBB, "9", "250"),
        10,
    );
    let record = store.rows[0].duplicate();
    let plan = plan_distribution(&record, &cfg).expect("record is actionable");
    assert_eq!(plan.target_chain_id, "A");
    assert_eq!(plan.target_token, hexaddr("aa"));
    assert_eq!(plan.amount, "250");
    assert_eq!(plan.nonce, "9");
}

#[test]
fn config_rejects_malformed_addresses_and_duplicate_ids() {
    let bad = String::from("0x123");
    let ok_a = hexaddr("aa");
    let ok_b = hexaddr("bb");
    assert_eq!(
        BridgeConfig::new(String::from("A"), String::from("B"), &bad, &ok_b).err(),
        Some(ConfigError::InvalidChainAToken)
    );
    assert_eq!(
        BridgeConfig::new(String::from("A"), String::from("B"), &ok_a, &bad).err(),
        Some(ConfigError::InvalidChainBToken)
    );
    assert_eq!(
        BridgeConfig::new(String::from("A"), String::from("A"), &ok_a, &ok_b).err(),
        Some(ConfigError::DuplicateChainIds)
    );
    let cfg = BridgeConfig::new(String::from("A"), String::from("B"), &ok_a, &ok_b).unwrap();
    assert_eq!(cfg.token_a, vec![0xAA; 20]);
    assert_eq!(cfg.token_b, vec![0xBB; 20]);
}

#[test]
fn sweeper_skips_tick_on_head_read_failure() {
    let mut store = Store::init_db();
    let mut seen = SeenHashes::new();
    let chain_a = String::from("A");
    ingest_log(&mut store, &mut seen, &chain_a, &deposit_log("0xtx1", 100, 0xAA, "7", "1000"), 10);
    assert_eq!(finality_tick(&mut store, &chain_a, None, CONFIRMATION_BLOCKS, 20), None);
    assert!(!store.rows[0].finality_confirmed);
}

#[test]
fn deposit_ids_are_assigned_fresh() {
    let mut store = Store::init_db();
    let mut seen = SeenHashes::new();
    let chain_a = String::from("A");
    ingest_log(&mut store, &mut seen, &chain_a, &deposit_log("0xtx1", 100, 0xAA, "7", "1"), 10);
    ingest_log(&mut store, &mut seen, &chain_a, &deposit_log("0xtx2", 101, 0xAA, "8", "1"), 11);
    assert_eq!(store.rows.len(), 2);
    assert_eq!(store.rows[0].deposit_id.len(), 36);
    assert_eq!(store.rows[1].deposit_id.len(), 36);
    assert_ne!(store.rows[0].deposit_id, store.rows[1].deposit_id);
}

#[test]
fn worker_periods_match_design() {
    assert_eq!(CONFIRMATION_BLOCKS, 12);
    assert_eq!(TICK_SECS, 60);
}
