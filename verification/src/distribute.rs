//! Cross-chain distribution: decide, for each deliverable deposit, what to
//! submit on the opposite chain and how to record the outcome.
//!
//! The chain calls themselves — the `processedDeposits` read, the
//! `distribute` submission, awaiting the receipt — happen at the process
//! edge; their results come back here as plain values. The functions in
//! this module are the decisions of one distributor tick: validate a
//! record and map it to the target chain (`plan_distribution`), act on the
//! target chain's answer (`on_processed_check`), pace the bounded retry
//! (`next_retry_action`), and record the receipt (`on_receipt`).

use vstd::prelude::*;
use crate::codec::addr_bytes_of;
use crate::codec::addr_str_ok;
use crate::codec::bytes_eq;
use crate::codec::dec_u256_ok;
use crate::codec::format_address;
use crate::codec::hex_of;
use crate::codec::is_dec_u256;
use crate::codec::parse_address;
use crate::store::Deposit;
use crate::store::Store;
use crate::store::has_id;
use crate::store::monotonic_update;
use crate::store::status_updated_row;

verus! {

/// Submission attempts per record and tick, including the first.
pub const MAX_SEND_ATTEMPTS: usize = 3;

/// Spacing between submission attempts.
pub const RETRY_DELAY_SECS: u64 = 5;

/// The two bridged chains: each one's id, and the raw bytes of its
/// configured token address.
pub struct BridgeConfig {
    pub chain_a_id: String,
    pub chain_b_id: String,
    pub token_a: Vec<u8>,
    pub token_b: Vec<u8>,
}

#[derive(Debug, PartialEq, Eq, Clone, Copy, Structural)]
pub enum ConfigError {
    /// Chain A's token is not a 20-byte hex address.
    InvalidChainAToken,
    /// Chain B's token is not a 20-byte hex address.
    InvalidChainBToken,
    /// The two chain ids must differ.
    DuplicateChainIds,
}

impl BridgeConfig {
    /// Tokens are 20 bytes and the chain ids are distinct.
    pub open spec fn wf(self) -> bool {
        &&& self.token_a@.len() == 20
        &&& self.token_b@.len() == 20
        &&& self.chain_a_id@ != self.chain_b_id@
    }

    /// Validate the configured addresses at startup; a malformed address
    /// aborts the process before any worker starts.
    pub fn new(
        chain_a_id: String,
        chain_b_id: String,
        token_a_hex: &String,
        token_b_hex: &String,
    ) -> (r: Result<BridgeConfig, ConfigError>)
        ensures
            r == Err::<BridgeConfig, ConfigError>(ConfigError::InvalidChainAToken) <==> !addr_str_ok(
                token_a_hex@,
            ),
            r == Err::<BridgeConfig, ConfigError>(ConfigError::InvalidChainBToken) <==> (
            addr_str_ok(token_a_hex@) && !addr_str_ok(token_b_hex@)),
            r == Err::<BridgeConfig, ConfigError>(ConfigError::DuplicateChainIds) <==> (addr_str_ok(
                token_a_hex@,
            ) && addr_str_ok(token_b_hex@) && chain_a_id@ == chain_b_id@),
            r matches Ok(c) ==> c.wf() && c.chain_a_id@ == chain_a_id@ && c.chain_b_id@
                == chain_b_id@ && c.token_a@ == addr_bytes_of(token_a_hex@) && c.token_b@
                == addr_bytes_of(token_b_hex@),
            r is Ok <==> (addr_str_ok(token_a_hex@) && addr_str_ok(token_b_hex@) && chain_a_id@
                != chain_b_id@),
    {
        let token_a = match parse_address(token_a_hex) {
            None => { return Err(ConfigError::InvalidChainAToken); },
            Some(b) => b,
        };
        let token_b = match parse_address(token_b_hex) {
            None => { return Err(ConfigError::InvalidChainBToken); },
            Some(b) => b,
        };
        if chain_a_id == chain_b_id {
            return Err(ConfigError::DuplicateChainIds);
        }
        Ok(BridgeConfig { chain_a_id, chain_b_id, token_a, token_b })
    }
}

/// Everything the process edge needs to submit one `distribute` call on
/// the target chain.
#[derive(Debug, PartialEq, Eq)]
pub struct DistributionPlan {
    pub target_chain_id: String,
    /// `0x`-prefixed hex of the token to distribute on the target chain.
    pub target_token: String,
    pub to_address: String,
    pub amount: String,
    pub nonce: String,
}

/// Why a record was skipped this tick. A skipped record stays undelivered
/// and is retried on later ticks.
#[derive(Debug, PartialEq, Eq, Clone, Copy, Structural)]
pub enum SkipReason {
    InvalidTokenAddress,
    UnknownChain,
    TokenMismatch,
    InvalidToAddress,
    InvalidAmount,
    InvalidNonce,
}

/// The record's source chain is one of the configured pair.
pub open spec fn known_chain(cfg: BridgeConfig, chain: Seq<char>) -> bool {
    chain == cfg.chain_a_id@ || chain == cfg.chain_b_id@
}

/// The token the source chain is configured to bridge.
pub open spec fn expected_source_token(cfg: BridgeConfig, chain: Seq<char>) -> Seq<u8> {
    if chain == cfg.chain_a_id@ {
        cfg.token_a@
    } else {
        cfg.token_b@
    }
}

/// The opposite chain, where the release happens.
pub open spec fn target_chain_of(cfg: BridgeConfig, chain: Seq<char>) -> Seq<char> {
    if chain == cfg.chain_a_id@ {
        cfg.chain_b_id@
    } else {
        cfg.chain_a_id@
    }
}

/// The token released on the opposite chain.
pub open spec fn target_token_of(cfg: BridgeConfig, chain: Seq<char>) -> Seq<u8> {
    if chain == cfg.chain_a_id@ {
        cfg.token_b@
    } else {
        cfg.token_a@
    }
}

/// A record the distributor can act on: parseable addresses and integers,
/// a known source chain, and the source chain's configured token.
pub open spec fn record_actionable(cfg: BridgeConfig, d: Deposit) -> bool {
    &&& addr_str_ok(d.token_address@)
    &&& known_chain(cfg, d.chain_id@)
    &&& addr_bytes_of(d.token_address@) == expected_source_token(cfg, d.chain_id@)
    &&& addr_str_ok(d.to_address@)
    &&& dec_u256_ok(d.amount@)
    &&& dec_u256_ok(d.nonce@)
}

/// Validate one deliverable record and map it to the submission on the
/// opposite chain. Checks run in a fixed order and the first failure is
/// reported; the record itself is never modified here.
pub fn plan_distribution(deposit: &Deposit, cfg: &BridgeConfig) -> (r: Result<
    DistributionPlan,
    SkipReason,
>)
    ensures
        r == Err::<DistributionPlan, SkipReason>(SkipReason::InvalidTokenAddress) <==> !addr_str_ok(
            deposit.token_address@,
        ),
        r == Err::<DistributionPlan, SkipReason>(SkipReason::UnknownChain) <==> (addr_str_ok(
            deposit.token_address@,
        ) && !known_chain(*cfg, deposit.chain_id@)),
        r == Err::<DistributionPlan, SkipReason>(SkipReason::TokenMismatch) <==> (addr_str_ok(
            deposit.token_address@,
        ) && known_chain(*cfg, deposit.chain_id@) && addr_bytes_of(deposit.token_address@)
            != expected_source_token(*cfg, deposit.chain_id@)),
        r == Err::<DistributionPlan, SkipReason>(SkipReason::InvalidToAddress) <==> (addr_str_ok(
            deposit.token_address@,
        ) && known_chain(*cfg, deposit.chain_id@) && addr_bytes_of(deposit.token_address@)
            == expected_source_token(*cfg, deposit.chain_id@) && !addr_str_ok(deposit.to_address@)),
        r == Err::<DistributionPlan, SkipReason>(SkipReason::InvalidAmount) <==> (addr_str_ok(
            deposit.token_address@,
        ) && known_chain(*cfg, deposit.chain_id@) && addr_bytes_of(deposit.token_address@)
            == expected_source_token(*cfg, deposit.chain_id@) && addr_str_ok(deposit.to_address@)
            && !dec_u256_ok(deposit.amount@)),
        r == Err::<DistributionPlan, SkipReason>(SkipReason::InvalidNonce) <==> (addr_str_ok(
            deposit.token_address@,
        ) && known_chain(*cfg, deposit.chain_id@) && addr_bytes_of(deposit.token_address@)
            == expected_source_token(*cfg, deposit.chain_id@) && addr_str_ok(deposit.to_address@)
            && dec_u256_ok(deposit.amount@) && !dec_u256_ok(deposit.nonce@)),
        r is Ok <==> record_actionable(*cfg, *deposit),
        r matches Ok(p) ==> p.target_chain_id@ == target_chain_of(*cfg, deposit.chain_id@)
            && p.target_token@ == seq!['0', 'x'] + hex_of(target_token_of(*cfg, deposit.chain_id@))
            && p.to_address@ == deposit.to_address@ && p.amount@ == deposit.amount@ && p.nonce@
            == deposit.nonce@,
{
    let token_bytes = match parse_address(&deposit.token_address) {
        None => { return Err(SkipReason::InvalidTokenAddress); },
        Some(b) => b,
    };
    let on_chain_a = deposit.chain_id == cfg.chain_a_id;
    let on_chain_b = !on_chain_a && deposit.chain_id == cfg.chain_b_id;
    if !on_chain_a && !on_chain_b {
        return Err(SkipReason::UnknownChain);
    }
    let expected = if on_chain_a {
        &cfg.token_a
    } else {
        &cfg.token_b
    };
    if !bytes_eq(&token_bytes, expected) {
        return Err(SkipReason::TokenMismatch);
    }
    match parse_address(&deposit.to_address) {
        None => { return Err(SkipReason::InvalidToAddress); },
        Some(_) => {},
    }
    if !is_dec_u256(&deposit.amount) {
        return Err(SkipReason::InvalidAmount);
    }
    if !is_dec_u256(&deposit.nonce) {
        return Err(SkipReason::InvalidNonce);
    }
    let target_chain_id = if on_chain_a {
        cfg.chain_b_id.clone()
    } else {
        cfg.chain_a_id.clone()
    };
    let target_token = if on_chain_a {
        format_address(&cfg.token_b)
    } else {
        format_address(&cfg.token_a)
    };
    Ok(
        DistributionPlan {
            target_chain_id,
            target_token,
            to_address: deposit.to_address.clone(),
            amount: deposit.amount.clone(),
            nonce: deposit.nonce.clone(),
        },
    )
}

/// What to do with a record after the target chain was asked whether its
/// nonce is already distributed.
#[derive(Debug, PartialEq, Eq, Clone, Copy, Structural)]
pub enum DistributorAction {
    /// Nothing to submit: the record was marked delivered.
    MarkedDelivered,
    /// The nonce is not yet distributed on the target chain; submit.
    Submit,
}

/// Act on the target chain's `processedDeposits` answer for one record.
/// `already_processed` is `None` when the read itself failed: the record
/// is then marked delivered as well — a deliberate bias against double
/// sending over a read that may be failing permanently.
pub fn on_processed_check(
    store: &mut Store,
    deposit_id: &String,
    already_processed: Option<bool>,
    now: i64,
) -> (a: DistributorAction)
    requires
        old(store).wf(),
    ensures
        final(store).wf(),
        final(store).checkpoints == old(store).checkpoints,
        final(store).rows@.len() == old(store).rows@.len(),
        monotonic_update(old(store).rows@, final(store).rows@),
        (a == DistributorAction::Submit) <==> (already_processed == Some(false)),
        a == DistributorAction::Submit ==> *final(store) == *old(store),
        a == DistributorAction::MarkedDelivered ==> forall|i: int|
            0 <= i < old(store).rows@.len() ==> final(store).rows@[i] == (if (
            #[trigger] old(store).rows@[i]).deposit_id@ == deposit_id@ {
                status_updated_row(old(store).rows@[i], true, true, now)
            } else {
                old(store).rows@[i]
            }),
{
    match already_processed {
        Some(false) => DistributorAction::Submit,
        _ => {
            store.update_deposit_status(deposit_id, true, true, now);
            DistributorAction::MarkedDelivered
        },
    }
}

/// What the retry pacing decides after one submission attempt.
#[derive(Debug, PartialEq, Eq, Clone, Copy, Structural)]
pub enum RetryDecision {
    /// The attempt succeeded; await the receipt.
    Done,
    /// Try again after `RETRY_DELAY_SECS`.
    RetryAfterDelay,
    /// Attempts are exhausted; leave the record for the next tick.
    GiveUp,
}

/// Bounded submission retry: after `attempts_made` attempts (counting the
/// one that just finished), either stop on success, retry while attempts
/// remain, or give up.
pub fn next_retry_action(attempts_made: usize, succeeded: bool) -> (d: RetryDecision)
    ensures
        (d == RetryDecision::Done) <==> succeeded,
        (d == RetryDecision::RetryAfterDelay) <==> (!succeeded && attempts_made
            < MAX_SEND_ATTEMPTS),
        (d == RetryDecision::GiveUp) <==> (!succeeded && attempts_made >= MAX_SEND_ATTEMPTS),
{
    if succeeded {
        RetryDecision::Done
    } else if attempts_made < MAX_SEND_ATTEMPTS {
        RetryDecision::RetryAfterDelay
    } else {
        RetryDecision::GiveUp
    }
}

/// How awaiting the submitted transaction ended, as the process edge
/// reports it.
pub enum ReceiptEvent {
    /// A receipt arrived with this status, if the node reported one.
    Received { status: Option<u64> },
    /// The await returned no receipt.
    NotFound,
    /// The await itself failed.
    AwaitFailed,
    /// The submission never went through (retries exhausted).
    SendFailed,
}

/// Only a receipt with status 1 proves the release happened.
pub open spec fn receipt_success(e: ReceiptEvent) -> bool {
    e matches ReceiptEvent::Received { status } && status == Some(1u64)
}

#[derive(Debug, PartialEq, Eq, Clone, Copy, Structural)]
pub enum DeliveryOutcome {
    /// The release is on chain; the record is marked delivered.
    Delivered,
    /// Revert, missing receipt or failure: the record is left for the
    /// next tick.
    LeftPending,
}

/// Record the outcome of one submission: only a status-1 receipt marks the
/// record delivered; anything else leaves the store untouched so a later
/// tick retries.
pub fn on_receipt(store: &mut Store, deposit_id: &String, receipt: &ReceiptEvent, now: i64) -> (r:
    DeliveryOutcome)
    requires
        old(store).wf(),
    ensures
        final(store).wf(),
        final(store).checkpoints == old(store).checkpoints,
        final(store).rows@.len() == old(store).rows@.len(),
        monotonic_update(old(store).rows@, final(store).rows@),
        (r == DeliveryOutcome::Delivered) <==> receipt_success(*receipt),
        r == DeliveryOutcome::LeftPending ==> *final(store) == *old(store),
        r == DeliveryOutcome::Delivered ==> forall|i: int|
            0 <= i < old(store).rows@.len() ==> final(store).rows@[i] == (if (
            #[trigger] old(store).rows@[i]).deposit_id@ == deposit_id@ {
                status_updated_row(old(store).rows@[i], true, true, now)
            } else {
                old(store).rows@[i]
            }),
        (r == DeliveryOutcome::Delivered && has_id(old(store).rows@, deposit_id@)) ==> has_id(
            final(store).rows@,
            deposit_id@,
        ),
{
    let success = match receipt {
        ReceiptEvent::Received { status: Some(s) } => *s == 1,
        _ => false,
    };
    if success {
        store.update_deposit_status(deposit_id, true, true, now);
        proof {
            if has_id(old(store).rows@, deposit_id@) {
                let i = choose|i: int|
                    0 <= i < old(store).rows@.len() && (#[trigger] old(
                        store,
                    ).rows@[i]).deposit_id@ == deposit_id@;
                assert(store.rows@[i].deposit_id@ == deposit_id@);
            }
        }
        DeliveryOutcome::Delivered
    } else {
        DeliveryOutcome::LeftPending
    }
}

} // verus!
