//! Chain log ingestion: one decoded `Deposit` log in, at most one durable
//! row out.
//!
//! The subscription and ABI decoding happen at the process edge; what
//! arrives here is a plain `DepositLog` value. One call of `ingest_log` is
//! one iteration of an ingestor's event loop: drop logs without a
//! transaction hash, skip hashes already materialized this process
//! lifetime, otherwise build the deposit row, insert it (duplicates are
//! absorbed by the store), advance the chain's checkpoint and remember the
//! hash.

use vstd::prelude::*;
use crate::codec::dec_u256_ok;
use crate::codec::format_address;
use crate::codec::fresh_deposit_id;
use crate::codec::hex_of;
use crate::store::Deposit;
use crate::store::InsertError;
use crate::store::InsertOutcome;
use crate::store::Store;
use crate::store::checkpoint_of;
use crate::store::has_key;
use crate::store::monotonic_update;

verus! {

/// A `Deposit` event as the chain endpoint delivers it, already decoded to
/// plain values: raw 20-byte addresses and decimal renderings of the two
/// 256-bit integers.
pub struct DepositLog {
    pub transaction_hash: Option<String>,
    pub block_number: Option<i64>,
    pub token: Vec<u8>,
    pub from: Vec<u8>,
    pub to: Vec<u8>,
    pub amount: String,
    pub nonce: String,
}

/// Per-ingestor in-memory set of transaction hashes already materialized
/// this process lifetime. A fast-path duplicate filter only: the store's
/// `(chain_id, nonce)` constraint is the authoritative deduplicator.
pub struct SeenHashes {
    pub hashes: Vec<String>,
}

impl SeenHashes {
    /// Membership, over the hash text.
    pub open spec fn has(self, h: Seq<char>) -> bool {
        exists|i: int| 0 <= i < self.hashes@.len() && (#[trigger] self.hashes@[i])@ == h
    }

    pub fn new() -> (s: SeenHashes)
        ensures
            s.hashes@.len() == 0,
            forall|h: Seq<char>| !s.has(h),
    {
        SeenHashes { hashes: Vec::new() }
    }

    pub fn contains(&self, h: &String) -> (r: bool)
        ensures
            r == self.has(h@),
    {
        let n = self.hashes.len();
        let mut i: usize = 0;
        while i < n
            invariant
                0 <= i <= n,
                n == self.hashes@.len(),
                forall|j: int| 0 <= j < i ==> (#[trigger] self.hashes@[j])@ != h@,
            decreases n - i,
        {
            if self.hashes[i] == *h {
                return true;
            }
            i = i + 1;
        }
        false
    }

    pub fn insert(&mut self, h: String)
        ensures
            final(self).hashes@ == old(self).hashes@.push(h),
            forall|x: Seq<char>| final(self).has(x) <==> (old(self).has(x) || x == h@),
    {
        self.hashes.push(h);
        proof {
            let pre = old(self).hashes@;
            let post = self.hashes@;
            assert forall|x: Seq<char>| final(self).has(x) implies (old(self).has(x) || x
                == h@) by {
                let i = choose|i: int| 0 <= i < post.len() && (#[trigger] post[i])@ == x;
                if i < pre.len() {
                    assert(pre[i]@ == x);
                }
            }
            assert forall|x: Seq<char>| (old(self).has(x) || x == h@) implies final(self).has(
                x,
            ) by {
                if old(self).has(x) {
                    let i = choose|i: int| 0 <= i < pre.len() && (#[trigger] pre[i])@ == x;
                    assert(post[i]@ == x);
                } else {
                    assert(post[pre.len() as int]@ == x);
                }
            }
        }
    }
}

/// What one log came to.
#[derive(Debug, PartialEq, Eq, Clone, Copy, Structural)]
pub enum IngestOutcome {
    /// The log carried no transaction hash; dropped, nothing changed.
    NoTransactionHash,
    /// The hash was already materialized this lifetime; skipped.
    DuplicateInMemory,
    /// The store rejected the nonce; nothing was materialized.
    InvalidNonce,
    /// The store rejected the amount; nothing was materialized.
    InvalidAmount,
    /// A new row was created, the checkpoint advanced, the hash recorded.
    Inserted,
    /// The store already held the row; the checkpoint still advanced and
    /// the hash was still recorded.
    DuplicateInStore,
}

/// The block a log is attributed to: its block number, or 0 where the
/// endpoint omitted it.
pub open spec fn log_block_number(log: DepositLog) -> i64 {
    match log.block_number {
        Some(b) => b,
        None => 0,
    }
}

/// The deposit row a log materializes into, up to the randomly assigned
/// deposit id.
pub open spec fn ingested_row_matches(r: Deposit, chain: Seq<char>, log: DepositLog, now: i64) -> bool {
    &&& r.deposit_id@.len() == 36
    &&& r.chain_id@ == chain
    &&& (log.transaction_hash matches Some(h) && r.transaction_hash@ == h@)
    &&& r.block_number == log_block_number(log)
    &&& r.token_address@ == seq!['0', 'x'] + hex_of(log.token@)
    &&& r.from_address@ == seq!['0', 'x'] + hex_of(log.from@)
    &&& r.to_address@ == seq!['0', 'x'] + hex_of(log.to@)
    &&& r.amount@ == log.amount@
    &&& r.nonce@ == log.nonce@
    &&& !r.processed
    &&& !r.finality_confirmed
    &&& r.created_at == now
    &&& r.updated_at == now
}

/// A log was accepted for materialization: it has a hash not yet seen, a
/// valid nonce and a valid amount.
pub open spec fn log_accepted(seen: SeenHashes, log: DepositLog) -> bool {
    &&& log.transaction_hash is Some
    &&& !seen.has(log.transaction_hash.unwrap()@)
    &&& dec_u256_ok(log.nonce@)
    &&& dec_u256_ok(log.amount@)
}

/// One iteration of an ingestor's loop, for one decoded log.
pub fn ingest_log(
    store: &mut Store,
    seen: &mut SeenHashes,
    chain_id: &String,
    log: &DepositLog,
    now: i64,
) -> (o: IngestOutcome)
    requires
        old(store).wf(),
    ensures
        final(store).wf(),
        monotonic_update(old(store).rows@, final(store).rows@),
        (o == IngestOutcome::NoTransactionHash) <==> (log.transaction_hash is None),
        (o == IngestOutcome::DuplicateInMemory) <==> (log.transaction_hash is Some && old(
            seen,
        ).has(log.transaction_hash.unwrap()@)),
        (o == IngestOutcome::InvalidNonce) <==> (log.transaction_hash is Some && !old(seen).has(
            log.transaction_hash.unwrap()@,
        ) && !dec_u256_ok(log.nonce@)),
        (o == IngestOutcome::InvalidAmount) <==> (log.transaction_hash is Some && !old(seen).has(
            log.transaction_hash.unwrap()@,
        ) && dec_u256_ok(log.nonce@) && !dec_u256_ok(log.amount@)),
        (o == IngestOutcome::Inserted || o == IngestOutcome::DuplicateInStore) <==> log_accepted(
            *old(seen),
            *log,
        ),
        (o == IngestOutcome::NoTransactionHash || o == IngestOutcome::DuplicateInMemory || o
            == IngestOutcome::InvalidNonce || o == IngestOutcome::InvalidAmount) ==> *final(store)
            == *old(store) && *final(seen) == *old(seen),
        log_accepted(*old(seen), *log) ==> checkpoint_of(final(store).checkpoints@, chain_id@)
            == log_block_number(*log),
        log_accepted(*old(seen), *log) ==> forall|c: Seq<char>|
            c != chain_id@ ==> checkpoint_of(final(store).checkpoints@, c) == checkpoint_of(
                old(store).checkpoints@,
                c,
            ),
        log_accepted(*old(seen), *log) ==> forall|x: Seq<char>|
            final(seen).has(x) <==> (old(seen).has(x) || x == log.transaction_hash.unwrap()@),
        (o == IngestOutcome::DuplicateInStore) ==> final(store).rows@ == old(store).rows@,
        (o == IngestOutcome::Inserted) ==> final(store).rows@.len() == old(store).rows@.len() + 1
            && ingested_row_matches(final(store).rows@.last(), chain_id@, *log, now) && (forall|
            i: int,
        |
            0 <= i < old(store).rows@.len() ==> final(store).rows@[i] == old(store).rows@[i]),
        (log_accepted(*old(seen), *log) && has_key(old(store).rows@, chain_id@, log.nonce@)) ==> o
            == IngestOutcome::DuplicateInStore,
        (o == IngestOutcome::Inserted) ==> !has_key(old(store).rows@, chain_id@, log.nonce@),
{
    let tx_hash = match &log.transaction_hash {
        None => { return IngestOutcome::NoTransactionHash; },
        Some(h) => h,
    };
    if seen.contains(tx_hash) {
        return IngestOutcome::DuplicateInMemory;
    }
    let block_number = match &log.block_number {
        Some(b) => *b,
        None => 0,
    };
    let deposit = Deposit {
        deposit_id: fresh_deposit_id(),
        chain_id: chain_id.clone(),
        transaction_hash: tx_hash.clone(),
        block_number,
        token_address: format_address(&log.token),
        from_address: format_address(&log.from),
        to_address: format_address(&log.to),
        amount: log.amount.clone(),
        nonce: log.nonce.clone(),
        processed: false,
        finality_confirmed: false,
        created_at: now,
        updated_at: now,
    };
    let outcome = match store.insert_deposit(&deposit, now) {
        Err(InsertError::InvalidNonce) => { return IngestOutcome::InvalidNonce; },
        Err(InsertError::InvalidAmount) => { return IngestOutcome::InvalidAmount; },
        Ok(InsertOutcome::Inserted) => IngestOutcome::Inserted,
        Ok(InsertOutcome::DuplicateAbsorbed) => IngestOutcome::DuplicateInStore,
    };
    store.update_last_processed_block(chain_id, block_number);
    seen.insert(tx_hash.clone());
    outcome
}

} // verus!
