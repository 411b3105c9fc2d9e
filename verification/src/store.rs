//! The durable store, modelled as verified in-memory state.
//!
//! One `Store` value stands for the relational database of the running
//! system: a `deposits` table and a `last_processed_blocks` table. The
//! operations mirror the database layer one to one and each carries the
//! transactional contract the rest of the pipeline relies on: the
//! `(chain_id, nonce)` uniqueness constraint with duplicate inserts absorbed
//! as success, rejection of rows whose nonce is not a 256-bit decimal, and
//! the two processing flags that only ever move from false to true.

use vstd::prelude::*;
use vstd::pervasive::VecAdditionalExecFns;
use crate::codec::dec_u256_ok;
use crate::codec::is_dec_u256;

verus! {

/// One row of the `deposits` table.
pub struct Deposit {
    pub deposit_id: String,
    pub chain_id: String,
    pub transaction_hash: String,
    pub block_number: i64,
    pub token_address: String,
    pub from_address: String,
    pub to_address: String,
    pub amount: String,
    pub nonce: String,
    pub processed: bool,
    pub finality_confirmed: bool,
    pub created_at: i64,
    pub updated_at: i64,
}

/// One row of the `last_processed_blocks` table: the highest block whose
/// logs the ingestor has materialized for a chain.
pub struct LastProcessedBlock {
    pub chain_id: String,
    pub last_block: i64,
}

/// The whole durable state.
pub struct Store {
    pub rows: Vec<Deposit>,
    pub checkpoints: Vec<LastProcessedBlock>,
}

#[derive(Debug, PartialEq, Eq, Clone, Copy, Structural)]
pub enum InsertOutcome {
    /// A new row was created.
    Inserted,
    /// A row with the same `(chain_id, nonce)` key or the same id already
    /// existed; the insert is absorbed as success without touching it.
    DuplicateAbsorbed,
}

#[derive(Debug, PartialEq, Eq, Clone, Copy, Structural)]
pub enum InsertError {
    /// The nonce is not a decimal integer below 2^256; the row is rejected.
    InvalidNonce,
    /// The amount is not a decimal integer below 2^256; the row is rejected.
    InvalidAmount,
}

impl Deposit {
    /// Field-for-field copy.
    pub fn duplicate(&self) -> (r: Deposit)
        ensures
            r == *self,
    {
        Deposit {
            deposit_id: self.deposit_id.clone(),
            chain_id: self.chain_id.clone(),
            transaction_hash: self.transaction_hash.clone(),
            block_number: self.block_number,
            token_address: self.token_address.clone(),
            from_address: self.from_address.clone(),
            to_address: self.to_address.clone(),
            amount: self.amount.clone(),
            nonce: self.nonce.clone(),
            processed: self.processed,
            finality_confirmed: self.finality_confirmed,
            created_at: self.created_at,
            updated_at: self.updated_at,
        }
    }
}

/// A deposit that is finality-confirmed but not yet processed: ready for
/// cross-chain distribution.
pub open spec fn deliverable(d: Deposit) -> bool {
    d.finality_confirmed && !d.processed
}

/// Some row carries this `(chain_id, nonce)` key.
pub open spec fn has_key(rows: Seq<Deposit>, chain: Seq<char>, nonce: Seq<char>) -> bool {
    exists|i: int|
        0 <= i < rows.len() && (#[trigger] rows[i]).chain_id@ == chain && rows[i].nonce@ == nonce
}

/// Some row carries this deposit id.
pub open spec fn has_id(rows: Seq<Deposit>, id: Seq<char>) -> bool {
    exists|i: int| 0 <= i < rows.len() && (#[trigger] rows[i]).deposit_id@ == id
}

/// The two rows agree on everything except the processing flags and the
/// update timestamp.
pub open spec fn same_deposit_identity(a: Deposit, b: Deposit) -> bool {
    &&& a.deposit_id@ == b.deposit_id@
    &&& a.chain_id@ == b.chain_id@
    &&& a.transaction_hash@ == b.transaction_hash@
    &&& a.block_number == b.block_number
    &&& a.token_address@ == b.token_address@
    &&& a.from_address@ == b.from_address@
    &&& a.to_address@ == b.to_address@
    &&& a.amount@ == b.amount@
    &&& a.nonce@ == b.nonce@
    &&& a.created_at == b.created_at
}

/// Neither flag moves from true to false.
pub open spec fn flags_le(a: Deposit, b: Deposit) -> bool {
    &&& a.processed ==> b.processed
    &&& a.finality_confirmed ==> b.finality_confirmed
}

/// How every store operation relates the old row set to the new one: rows
/// are never deleted or reordered, identities are untouched, and the two
/// flags are monotonic.
pub open spec fn monotonic_update(pre: Seq<Deposit>, post: Seq<Deposit>) -> bool {
    &&& pre.len() <= post.len()
    &&& forall|i: int|
        0 <= i < pre.len() ==> same_deposit_identity(pre[i], #[trigger] post[i]) && flags_le(
            pre[i],
            post[i],
        )
}

/// The deliverable rows, in row order.
pub open spec fn deliverables(s: Seq<Deposit>) -> Seq<Deposit>
    decreases s.len(),
{
    if s.len() == 0 {
        Seq::empty()
    } else if deliverable(s.last()) {
        deliverables(s.drop_last()).push(s.last())
    } else {
        deliverables(s.drop_last())
    }
}

/// The checkpoint recorded for a chain, or 0 where none exists.
pub open spec fn checkpoint_of(cps: Seq<LastProcessedBlock>, chain: Seq<char>) -> i64
    decreases cps.len(),
{
    if cps.len() == 0 {
        0
    } else if cps[0].chain_id@ == chain {
        cps[0].last_block
    } else {
        checkpoint_of(cps.drop_first(), chain)
    }
}

/// Some checkpoint row carries this chain id.
pub open spec fn has_chain(cps: Seq<LastProcessedBlock>, chain: Seq<char>) -> bool {
    exists|i: int| 0 <= i < cps.len() && (#[trigger] cps[i]).chain_id@ == chain
}

/// A row due to be confirmed by a finality sweep over this chain up to this
/// horizon.
pub open spec fn needs_confirm(d: Deposit, chain: Seq<char>, horizon: i64) -> bool {
    d.chain_id@ == chain && d.block_number <= horizon && !d.finality_confirmed
}

/// How many rows a finality sweep flips.
pub open spec fn confirm_count(s: Seq<Deposit>, chain: Seq<char>, horizon: i64) -> int
    decreases s.len(),
{
    if s.len() == 0 {
        0
    } else {
        confirm_count(s.drop_last(), chain, horizon) + if needs_confirm(
            s.last(),
            chain,
            horizon,
        ) {
            1int
        } else {
            0int
        }
    }
}

/// The row as a finality sweep leaves it.
pub open spec fn confirmed_row(d: Deposit, now: i64) -> Deposit {
    Deposit { finality_confirmed: true, updated_at: now, ..d }
}

/// The row as a status update leaves it: flags can only be raised, never
/// cleared.
pub open spec fn status_updated_row(
    d: Deposit,
    processed: bool,
    finality_confirmed: bool,
    now: i64,
) -> Deposit {
    Deposit {
        processed: d.processed || processed,
        finality_confirmed: d.finality_confirmed || finality_confirmed,
        updated_at: now,
        ..d
    }
}

/// The row an insert creates from a candidate: flags and timestamps come
/// from the store's defaults, everything else from the candidate.
pub open spec fn inserted_row(d: Deposit, now: i64) -> Deposit {
    Deposit { processed: false, finality_confirmed: false, created_at: now, updated_at: now, ..d }
}

impl Store {
    /// The schema's invariants: `(chain_id, nonce)` unique, deposit ids
    /// unique, `processed` only with `finality_confirmed`, every stored
    /// amount and nonce a valid 256-bit decimal, and one checkpoint row
    /// per chain.
    pub open spec fn wf(self) -> bool {
        &&& forall|i: int, j: int|
            0 <= i < j < self.rows@.len() ==> (#[trigger] self.rows@[i]).deposit_id@ != (
            #[trigger] self.rows@[j]).deposit_id@
        &&& forall|i: int, j: int|
            0 <= i < j < self.rows@.len() ==> !((#[trigger] self.rows@[i]).chain_id@ == (
            #[trigger] self.rows@[j]).chain_id@ && self.rows@[i].nonce@ == self.rows@[j].nonce@)
        &&& forall|i: int|
            0 <= i < self.rows@.len() ==> ((#[trigger] self.rows@[i]).processed
                ==> self.rows@[i].finality_confirmed)
        &&& forall|i: int|
            0 <= i < self.rows@.len() ==> dec_u256_ok((#[trigger] self.rows@[i]).nonce@)
        &&& forall|i: int|
            0 <= i < self.rows@.len() ==> dec_u256_ok((#[trigger] self.rows@[i]).amount@)
        &&& forall|i: int, j: int|
            0 <= i < j < self.checkpoints@.len() ==> (#[trigger] self.checkpoints@[i]).chain_id@
                != (#[trigger] self.checkpoints@[j]).chain_id@
    }

    /// Fresh empty state; stands for the idempotent schema creation.
    pub fn init_db() -> (s: Store)
        ensures
            s.wf(),
            s.rows@.len() == 0,
            s.checkpoints@.len() == 0,
    {
        Store { rows: Vec::new(), checkpoints: Vec::new() }
    }

    /// Whether a row with the candidate's `(chain_id, nonce)` key or its
    /// deposit id already exists.
    fn conflicts_with(&self, deposit: &Deposit) -> (r: bool)
        ensures
            r == (has_key(self.rows@, deposit.chain_id@, deposit.nonce@) || has_id(
                self.rows@,
                deposit.deposit_id@,
            )),
    {
        let n = self.rows.len();
        let mut i: usize = 0;
        while i < n
            invariant
                0 <= i <= n,
                n == self.rows@.len(),
                forall|j: int|
                    0 <= j < i ==> !((#[trigger] self.rows@[j]).chain_id@ == deposit.chain_id@
                        && self.rows@[j].nonce@ == deposit.nonce@),
                forall|j: int|
                    0 <= j < i ==> (#[trigger] self.rows@[j]).deposit_id@ != deposit.deposit_id@,
            decreases n - i,
        {
            let row = &self.rows[i];
            if row.chain_id == deposit.chain_id && row.nonce == deposit.nonce {
                return true;
            }
            if row.deposit_id == deposit.deposit_id {
                return true;
            }
            i = i + 1;
        }
        false
    }

    /// Index of the row with this deposit id, scanning from the front.
    fn find_row_index_by_id(&self, deposit_id: &String) -> (r: Option<usize>)
        ensures
            r matches Some(i) ==> i < self.rows@.len() && self.rows@[i as int].deposit_id@
                == deposit_id@,
            r is None ==> !has_id(self.rows@, deposit_id@),
    {
        let n = self.rows.len();
        let mut i: usize = 0;
        while i < n
            invariant
                0 <= i <= n,
                n == self.rows@.len(),
                forall|j: int|
                    0 <= j < i ==> (#[trigger] self.rows@[j]).deposit_id@ != deposit_id@,
            decreases n - i,
        {
            if self.rows[i].deposit_id == *deposit_id {
                return Some(i);
            }
            i = i + 1;
        }
        None
    }

    /// Index of the checkpoint row for this chain, scanning from the front.
    fn find_checkpoint_index(&self, chain_id: &String) -> (r: Option<usize>)
        ensures
            r matches Some(i) ==> i < self.checkpoints@.len() && self.checkpoints@[
                i as int
            ].chain_id@ == chain_id@ && (forall|j: int|
                0 <= j < i ==> (#[trigger] self.checkpoints@[j]).chain_id@ != chain_id@),
            r is None ==> !has_chain(self.checkpoints@, chain_id@),
    {
        let n = self.checkpoints.len();
        let mut i: usize = 0;
        while i < n
            invariant
                0 <= i <= n,
                n == self.checkpoints@.len(),
                forall|j: int|
                    0 <= j < i ==> (#[trigger] self.checkpoints@[j]).chain_id@ != chain_id@,
            decreases n - i,
        {
            if self.checkpoints[i].chain_id == *chain_id {
                return Some(i);
            }
            i = i + 1;
        }
        None
    }

    /// Insert one deposit row.
    ///
    /// A nonce or an amount that is not a 256-bit decimal is rejected and
    /// nothing changes. A duplicate of an existing row (same
    /// `(chain_id, nonce)` key, or same id) is absorbed as success without
    /// touching the existing row. Otherwise the row is appended with both
    /// flags false and both timestamps set to `now`.
    pub fn insert_deposit(&mut self, deposit: &Deposit, now: i64) -> (r: Result<
        InsertOutcome,
        InsertError,
    >)
        requires
            old(self).wf(),
        ensures
            final(self).wf(),
            final(self).checkpoints == old(self).checkpoints,
            monotonic_update(old(self).rows@, final(self).rows@),
            r == Err::<InsertOutcome, InsertError>(InsertError::InvalidNonce) <==> !dec_u256_ok(
                deposit.nonce@,
            ),
            r == Err::<InsertOutcome, InsertError>(InsertError::InvalidAmount) <==> (dec_u256_ok(
                deposit.nonce@,
            ) && !dec_u256_ok(deposit.amount@)),
            r is Err ==> *final(self) == *old(self),
            r == Ok::<InsertOutcome, InsertError>(InsertOutcome::DuplicateAbsorbed) <==> (
            dec_u256_ok(deposit.nonce@) && dec_u256_ok(deposit.amount@) && (has_key(
                old(self).rows@,
                deposit.chain_id@,
                deposit.nonce@,
            ) || has_id(old(self).rows@, deposit.deposit_id@))),
            r == Ok::<InsertOutcome, InsertError>(InsertOutcome::DuplicateAbsorbed) ==> *final(self)
                == *old(self),
            r == Ok::<InsertOutcome, InsertError>(InsertOutcome::Inserted) <==> (dec_u256_ok(
                deposit.nonce@,
            ) && dec_u256_ok(deposit.amount@) && !has_key(
                old(self).rows@,
                deposit.chain_id@,
                deposit.nonce@,
            ) && !has_id(old(self).rows@, deposit.deposit_id@)),
            r == Ok::<InsertOutcome, InsertError>(InsertOutcome::Inserted) ==> final(self).rows@
                == old(self).rows@.push(inserted_row(*deposit, now)),
    {
        if !is_dec_u256(&deposit.nonce) {
            return Err(InsertError::InvalidNonce);
        }
        if !is_dec_u256(&deposit.amount) {
            return Err(InsertError::InvalidAmount);
        }
        if self.conflicts_with(deposit) {
            return Ok(InsertOutcome::DuplicateAbsorbed);
        }
        let mut row = deposit.duplicate();
        row.processed = false;
        row.finality_confirmed = false;
        row.created_at = now;
        row.updated_at = now;
        proof {
            assert(row == inserted_row(*deposit, now));
        }
        self.rows.push(row);
        proof {
            let pre = old(self).rows@;
            let post = self.rows@;
            assert(forall|i: int| 0 <= i < pre.len() ==> post[i] == #[trigger] pre[i]);
            assert(post[pre.len() as int] == inserted_row(*deposit, now));
        }
        Ok(InsertOutcome::Inserted)
    }

    /// The checkpoint recorded for a chain, or 0 where none exists.
    pub fn get_last_processed_block(&self, chain_id: &String) -> (r: i64)
        ensures
            r == checkpoint_of(self.checkpoints@, chain_id@),
    {
        proof {
            assert(self.checkpoints@.skip(0) =~= self.checkpoints@);
        }
        let n = self.checkpoints.len();
        let mut i: usize = 0;
        while i < n
            invariant
                0 <= i <= n,
                n == self.checkpoints@.len(),
                checkpoint_of(self.checkpoints@, chain_id@) == checkpoint_of(
                    self.checkpoints@.skip(i as int),
                    chain_id@,
                ),
            decreases n - i,
        {
            proof {
                assert(self.checkpoints@.skip(i as int)[0] == self.checkpoints@[i as int]);
            }
            if self.checkpoints[i].chain_id == *chain_id {
                return self.checkpoints[i].last_block;
            }
            proof {
                assert(self.checkpoints@.skip(i as int).drop_first() =~= self.checkpoints@.skip(
                    i as int + 1,
                ));
            }
            i = i + 1;
        }
        proof {
            assert(self.checkpoints@.skip(n as int).len() == 0);
        }
        0
    }

    /// Upsert the checkpoint for a chain.
    pub fn update_last_processed_block(&mut self, chain_id: &String, block_number: i64)
        requires
            old(self).wf(),
        ensures
            final(self).wf(),
            final(self).rows == old(self).rows,
            checkpoint_of(final(self).checkpoints@, chain_id@) == block_number,
            forall|c: Seq<char>|
                c != chain_id@ ==> checkpoint_of(final(self).checkpoints@, c) == checkpoint_of(
                    old(self).checkpoints@,
                    c,
                ),
    {
        let entry = LastProcessedBlock { chain_id: chain_id.clone(), last_block: block_number };
        let found = self.find_checkpoint_index(chain_id);
        match found {
            Some(i) => {
                proof {
                    lemma_checkpoint_of_update(self.checkpoints@, i as int, entry, chain_id@);
                    let pre = self.checkpoints@;
                    let post = self.checkpoints@.update(i as int, entry);
                    assert forall|a: int, b: int| 0 <= a < b < post.len() implies (
                    #[trigger] post[a]).chain_id@ != (#[trigger] post[b]).chain_id@ by {
                        assert(pre[a].chain_id@ != pre[b].chain_id@);
                        assert(a == i ==> post[a].chain_id@ == pre[a].chain_id@);
                        assert(b == i ==> post[b].chain_id@ == pre[b].chain_id@);
                    }
                }
                self.checkpoints.set(i, entry);
            },
            None => {
                proof {
                    lemma_checkpoint_of_push(self.checkpoints@, entry, chain_id@);
                    let pre = self.checkpoints@;
                    let post = self.checkpoints@.push(entry);
                    assert forall|a: int, b: int| 0 <= a < b < post.len() implies (
                    #[trigger] post[a]).chain_id@ != (#[trigger] post[b]).chain_id@ by {
                        if b < pre.len() {
                            assert(pre[a].chain_id@ != pre[b].chain_id@);
                        } else {
                            assert(post[b] == entry);
                            assert(!has_chain(pre, chain_id@));
                            assert(pre[a].chain_id@ != chain_id@);
                        }
                    }
                }
                self.checkpoints.push(entry);
            },
        }
    }

    /// All deliverable rows — finality-confirmed and not yet processed —
    /// in row order.
    pub fn get_unprocessed_deposits(&self) -> (r: Vec<Deposit>)
        ensures
            r@ == deliverables(self.rows@),
    {
        let n = self.rows.len();
        let mut out: Vec<Deposit> = Vec::new();
        let mut i: usize = 0;
        while i < n
            invariant
                0 <= i <= n,
                n == self.rows@.len(),
                out@ == deliverables(self.rows@.take(i as int)),
            decreases n - i,
        {
            proof {
                assert(self.rows@.take(i as int + 1).drop_last() =~= self.rows@.take(i as int));
                assert(self.rows@.take(i as int + 1).last() == self.rows@[i as int]);
            }
            let row = &self.rows[i];
            if row.finality_confirmed && !row.processed {
                out.push(row.duplicate());
            }
            i = i + 1;
        }
        proof {
            assert(self.rows@.take(n as int) =~= self.rows@);
        }
        out
    }

    /// Raise the flags of the row with this deposit id (at most one exists
    /// in a well-formed store) and touch its update timestamp. Flags only
    /// ever go up: a request that would clear one leaves it set. Returns
    /// whether a row matched.
    pub fn update_deposit_status(
        &mut self,
        deposit_id: &String,
        processed: bool,
        finality_confirmed: bool,
        now: i64,
    ) -> (updated: bool)
        requires
            old(self).wf(),
            processed ==> finality_confirmed,
        ensures
            final(self).wf(),
            final(self).checkpoints == old(self).checkpoints,
            final(self).rows@.len() == old(self).rows@.len(),
            monotonic_update(old(self).rows@, final(self).rows@),
            updated == has_id(old(self).rows@, deposit_id@),
            forall|i: int|
                0 <= i < old(self).rows@.len() ==> final(self).rows@[i] == (if (
                #[trigger] old(self).rows@[i]).deposit_id@ == deposit_id@ {
                    status_updated_row(old(self).rows@[i], processed, finality_confirmed, now)
                } else {
                    old(self).rows@[i]
                }),
    {
        let found = self.find_row_index_by_id(deposit_id);
        match found {
            None => false,
            Some(i) => {
                let mut row = self.rows[i].duplicate();
                row.processed = row.processed || processed;
                row.finality_confirmed = row.finality_confirmed || finality_confirmed;
                row.updated_at = now;
                proof {
                    assert(row == status_updated_row(
                        self.rows@[i as int],
                        processed,
                        finality_confirmed,
                        now,
                    ));
                }
                self.rows.set(i, row);
                proof {
                    let pre = old(self).rows@;
                    let post = self.rows@;
                    assert forall|k: int|
                        0 <= k < pre.len() && k != i implies (#[trigger] pre[k]).deposit_id@
                        != deposit_id@ by {
                        if k < i {
                            assert(pre[k].deposit_id@ != pre[i as int].deposit_id@);
                        } else {
                            assert(pre[i as int].deposit_id@ != pre[k].deposit_id@);
                        }
                    }
                    assert forall|k: int|
                        0 <= k < pre.len() implies same_deposit_identity(
                        pre[k],
                        #[trigger] post[k],
                    ) && flags_le(pre[k], post[k]) && (post[k].processed
                        ==> post[k].finality_confirmed) by {
                        assert(pre[k].processed ==> pre[k].finality_confirmed);
                    }
                    lemma_pointwise_wf_carryover(*old(self), *self);
                }
                true
            },
        }
    }

    /// One chain's half of a finality sweep: set `finality_confirmed` on
    /// every row of the chain at or below the horizon block, and return how
    /// many rows were flipped. After the call every row of the chain at or
    /// below the horizon is finality-confirmed.
    pub fn bulk_confirm_finality(&mut self, chain_id: &String, horizon: i64, now: i64) -> (count:
        usize)
        requires
            old(self).wf(),
        ensures
            final(self).wf(),
            final(self).checkpoints == old(self).checkpoints,
            final(self).rows@.len() == old(self).rows@.len(),
            monotonic_update(old(self).rows@, final(self).rows@),
            count as int == confirm_count(old(self).rows@, chain_id@, horizon),
            forall|i: int|
                0 <= i < old(self).rows@.len() ==> final(self).rows@[i] == (if needs_confirm(
                    #[trigger] old(self).rows@[i],
                    chain_id@,
                    horizon,
                ) {
                    confirmed_row(old(self).rows@[i], now)
                } else {
                    old(self).rows@[i]
                }),
            forall|i: int|
                0 <= i < final(self).rows@.len() && (#[trigger] final(self).rows@[i]).chain_id@
                    == chain_id@ && final(self).rows@[i].block_number <= horizon
                    ==> final(self).rows@[i].finality_confirmed,
    {
        let n = self.rows.len();
        let mut i: usize = 0;
        let mut count: usize = 0;
        while i < n
            invariant
                0 <= i <= n,
                n == self.rows@.len(),
                self.rows@.len() == old(self).rows@.len(),
                self.checkpoints == old(self).checkpoints,
                old(self).wf(),
                count <= i,
                count as int == confirm_count(old(self).rows@.take(i as int), chain_id@, horizon),
                forall|j: int|
                    0 <= j < i ==> self.rows@[j] == (if needs_confirm(
                        #[trigger] old(self).rows@[j],
                        chain_id@,
                        horizon,
                    ) {
                        confirmed_row(old(self).rows@[j], now)
                    } else {
                        old(self).rows@[j]
                    }),
                forall|j: int| i <= j < n ==> self.rows@[j] == old(self).rows@[j],
            decreases n - i,
        {
            proof {
                assert(old(self).rows@.take(i as int + 1).drop_last() =~= old(self).rows@.take(
                    i as int,
                ));
                assert(old(self).rows@.take(i as int + 1).last() == old(self).rows@[i as int]);
            }
            let flip = {
                let row = &self.rows[i];
                row.chain_id == *chain_id && row.block_number <= horizon && !row.finality_confirmed
            };
            if flip {
                let mut row = self.rows[i].duplicate();
                row.finality_confirmed = true;
                row.updated_at = now;
                self.rows.set(i, row);
                count = count + 1;
            }
            i = i + 1;
        }
        proof {
            assert(old(self).rows@.take(n as int) =~= old(self).rows@);
            assert forall|k: int| 0 <= k < old(self).rows@.len() implies same_deposit_identity(
                #[trigger] old(self).rows@[k],
                self.rows@[k],
            ) && flags_le(old(self).rows@[k], self.rows@[k]) by {
                assert(old(self).rows@[k].processed ==> old(self).rows@[k].finality_confirmed);
            }
            assert forall|k: int| 0 <= k < self.rows@.len() implies ((
            #[trigger] self.rows@[k]).processed ==> self.rows@[k].finality_confirmed) by {
                assert(old(self).rows@[k].processed ==> old(self).rows@[k].finality_confirmed);
                assert(same_deposit_identity(old(self).rows@[k], self.rows@[k]));
            }
            lemma_pointwise_wf_carryover(*old(self), *self);
        }
        count
    }
}

/// Uniqueness law: in a well-formed store at most one row carries a given
/// `(chain_id, nonce)` key — any two rows that agree on the key are the
/// same row.
pub proof fn lemma_unique_chain_nonce(s: Store, i: int, j: int)
    requires
        s.wf(),
        0 <= i < s.rows@.len(),
        0 <= j < s.rows@.len(),
        s.rows@[i].chain_id@ == s.rows@[j].chain_id@,
        s.rows@[i].nonce@ == s.rows@[j].nonce@,
    ensures
        i == j,
{
}

/// Likewise for the deposit id.
pub proof fn lemma_unique_deposit_id(s: Store, i: int, j: int)
    requires
        s.wf(),
        0 <= i < s.rows@.len(),
        0 <= j < s.rows@.len(),
        s.rows@[i].deposit_id@ == s.rows@[j].deposit_id@,
    ensures
        i == j,
{
}

/// Implication law: in a well-formed store a processed row is always
/// finality-confirmed.
pub proof fn lemma_processed_implies_confirmed(s: Store, i: int)
    requires
        s.wf(),
        0 <= i < s.rows@.len(),
        s.rows@[i].processed,
    ensures
        s.rows@[i].finality_confirmed,
{
}

/// Monotonicity law: the flag-monotonic row relation every store operation
/// ensures composes across a whole history of operations, so a flag once
/// true stays true through any sequence of operations.
pub proof fn lemma_monotonic_update_trans(a: Seq<Deposit>, b: Seq<Deposit>, c: Seq<Deposit>)
    requires
        monotonic_update(a, b),
        monotonic_update(b, c),
    ensures
        monotonic_update(a, c),
{
    assert forall|i: int| 0 <= i < a.len() implies same_deposit_identity(a[i], #[trigger] c[i])
        && flags_le(a[i], c[i]) by {
        assert(same_deposit_identity(a[i], b[i]) && flags_le(a[i], b[i]));
        assert(same_deposit_identity(b[i], c[i]) && flags_le(b[i], c[i]));
    }
}

/// Every row the deliverable listing returns is deliverable and is one of
/// the store's rows.
pub proof fn lemma_deliverables_sound(s: Seq<Deposit>, k: int)
    requires
        0 <= k < deliverables(s).len(),
    ensures
        deliverable(deliverables(s)[k]),
        exists|j: int| 0 <= j < s.len() && s[j] == deliverables(s)[k],
    decreases s.len(),
{
    if s.len() > 0 {
        if k < deliverables(s.drop_last()).len() {
            lemma_deliverables_sound(s.drop_last(), k);
            let j = choose|j: int|
                0 <= j < s.drop_last().len() && s.drop_last()[j] == deliverables(s.drop_last())[k];
            assert(s[j] == deliverables(s)[k]);
        } else {
            assert(deliverables(s)[k] == s.last());
            assert(s[s.len() - 1] == deliverables(s)[k]);
        }
    }
}

/// Every deliverable row of the store appears in the deliverable listing.
pub proof fn lemma_deliverables_complete(s: Seq<Deposit>, j: int)
    requires
        0 <= j < s.len(),
        deliverable(s[j]),
    ensures
        deliverables(s).contains(s[j]),
    decreases s.len(),
{
    if j == s.len() - 1 {
        assert(deliverables(s).last() == s.last());
        assert(deliverables(s)[deliverables(s).len() - 1] == s[j]);
    } else {
        assert(s.drop_last()[j] == s[j]);
        lemma_deliverables_complete(s.drop_last(), j);
        let k = choose|k: int|
            0 <= k < deliverables(s.drop_last()).len() && deliverables(s.drop_last())[k] == s[j];
        assert(deliverables(s)[k] == s[j]);
    }
}

/// Quiescence law: once every row is processed, the deliverable listing is
/// empty, so a restarted distributor submits nothing.
pub proof fn lemma_all_processed_no_deliverables(s: Seq<Deposit>)
    requires
        forall|i: int| 0 <= i < s.len() ==> (#[trigger] s[i]).processed,
    ensures
        deliverables(s).len() == 0,
    decreases s.len(),
{
    if s.len() > 0 {
        assert(forall|i: int|
            0 <= i < s.drop_last().len() ==> (#[trigger] s.drop_last()[i]).processed);
        lemma_all_processed_no_deliverables(s.drop_last());
    }
}

/// Release law: a processed row never reappears in the deliverable
/// listing, so the distributor is never handed a deposit it has already
/// released.
pub proof fn lemma_processed_never_deliverable(s: Store, i: int, k: int)
    requires
        s.wf(),
        0 <= i < s.rows@.len(),
        s.rows@[i].processed,
        0 <= k < deliverables(s.rows@).len(),
    ensures
        deliverables(s.rows@)[k].deposit_id@ != s.rows@[i].deposit_id@,
{
    lemma_deliverables_sound(s.rows@, k);
    let j = choose|j: int| 0 <= j < s.rows@.len() && s.rows@[j] == deliverables(s.rows@)[k];
    if deliverables(s.rows@)[k].deposit_id@ == s.rows@[i].deposit_id@ {
        lemma_unique_deposit_id(s, i, j);
    }
}

/// At-most-once release across operations: once a deposit is processed,
/// then in every later state the store's operations can reach (any chain
/// of flag-monotonic updates), no deliverable row carries its id — the
/// distributor is never handed it again.
pub proof fn lemma_released_stays_released(pre: Store, post: Store, i: int, k: int)
    requires
        post.wf(),
        monotonic_update(pre.rows@, post.rows@),
        0 <= i < pre.rows@.len(),
        pre.rows@[i].processed,
        0 <= k < deliverables(post.rows@).len(),
    ensures
        deliverables(post.rows@)[k].deposit_id@ != pre.rows@[i].deposit_id@,
{
    assert(same_deposit_identity(pre.rows@[i], post.rows@[i]));
    assert(flags_le(pre.rows@[i], post.rows@[i]));
    lemma_processed_never_deliverable(post, i, k);
}

/// Well-formedness survives any pointwise rewrite of the rows that keeps
/// each row's identity and keeps `processed ==> finality_confirmed`.
proof fn lemma_pointwise_wf_carryover(pre: Store, post: Store)
    requires
        pre.wf(),
        post.checkpoints@ == pre.checkpoints@,
        post.rows@.len() == pre.rows@.len(),
        forall|i: int|
            0 <= i < pre.rows@.len() ==> same_deposit_identity(
                #[trigger] pre.rows@[i],
                post.rows@[i],
            ),
        forall|i: int|
            0 <= i < post.rows@.len() ==> ((#[trigger] post.rows@[i]).processed
                ==> post.rows@[i].finality_confirmed),
    ensures
        post.wf(),
{
    assert forall|i: int, j: int| 0 <= i < j < post.rows@.len() implies (
    #[trigger] post.rows@[i]).deposit_id@ != (#[trigger] post.rows@[j]).deposit_id@ by {
        assert(same_deposit_identity(pre.rows@[i], post.rows@[i]));
        assert(same_deposit_identity(pre.rows@[j], post.rows@[j]));
        assert(pre.rows@[i].deposit_id@ != pre.rows@[j].deposit_id@);
    }
    assert forall|i: int, j: int| 0 <= i < j < post.rows@.len() implies !((
    #[trigger] post.rows@[i]).chain_id@ == (#[trigger] post.rows@[j]).chain_id@
        && post.rows@[i].nonce@ == post.rows@[j].nonce@) by {
        assert(same_deposit_identity(pre.rows@[i], post.rows@[i]));
        assert(same_deposit_identity(pre.rows@[j], post.rows@[j]));
        assert(!(pre.rows@[i].chain_id@ == pre.rows@[j].chain_id@ && pre.rows@[i].nonce@
            == pre.rows@[j].nonce@));
    }
    assert forall|i: int| 0 <= i < post.rows@.len() implies dec_u256_ok(
        (#[trigger] post.rows@[i]).nonce@,
    ) by {
        assert(same_deposit_identity(pre.rows@[i], post.rows@[i]));
        assert(dec_u256_ok(pre.rows@[i].nonce@));
    }
    assert forall|i: int| 0 <= i < post.rows@.len() implies dec_u256_ok(
        (#[trigger] post.rows@[i]).amount@,
    ) by {
        assert(same_deposit_identity(pre.rows@[i], post.rows@[i]));
        assert(dec_u256_ok(pre.rows@[i].amount@));
    }
}

/// Replacing the entry at `i` (which already carries this chain id, and is
/// the first to do so) leaves every other chain's checkpoint unchanged and
/// sets this chain's.
proof fn lemma_checkpoint_of_update(
    cps: Seq<LastProcessedBlock>,
    i: int,
    entry: LastProcessedBlock,
    chain: Seq<char>,
)
    requires
        0 <= i < cps.len(),
        cps[i].chain_id@ == chain,
        entry.chain_id@ == chain,
        forall|j: int| 0 <= j < i ==> (#[trigger] cps[j]).chain_id@ != chain,
    ensures
        checkpoint_of(cps.update(i, entry), chain) == entry.last_block,
        forall|c: Seq<char>|
            c != chain ==> checkpoint_of(cps.update(i, entry), c) == checkpoint_of(cps, c),
    decreases i,
{
    let u = cps.update(i, entry);
    if i == 0 {
        assert(u[0] == entry);
        assert(u.drop_first() =~= cps.drop_first());
        assert forall|c: Seq<char>| c != chain implies checkpoint_of(u, c) == checkpoint_of(
            cps,
            c,
        ) by {
            assert(checkpoint_of(u, c) == checkpoint_of(u.drop_first(), c));
            assert(checkpoint_of(cps, c) == checkpoint_of(cps.drop_first(), c));
        }
    } else {
        assert(u[0] == cps[0]);
        assert(u.drop_first() =~= cps.drop_first().update(i - 1, entry));
        assert(cps.drop_first()[i - 1] == cps[i]);
        assert(forall|j: int|
            0 <= j < i - 1 ==> (#[trigger] cps.drop_first()[j]).chain_id@ != chain);
        lemma_checkpoint_of_update(cps.drop_first(), i - 1, entry, chain);
        assert(cps[0].chain_id@ != chain);
        assert(checkpoint_of(u, chain) == checkpoint_of(u.drop_first(), chain));
        assert forall|c: Seq<char>| c != chain implies checkpoint_of(u, c) == checkpoint_of(
            cps,
            c,
        ) by {
            if cps[0].chain_id@ == c {
                assert(checkpoint_of(u, c) == cps[0].last_block);
                assert(checkpoint_of(cps, c) == cps[0].last_block);
            } else {
                assert(checkpoint_of(u, c) == checkpoint_of(u.drop_first(), c));
                assert(checkpoint_of(cps, c) == checkpoint_of(cps.drop_first(), c));
            }
        }
    }
}

/// Appending a checkpoint row for a chain that has none sets that chain's
/// checkpoint and leaves every other chain's unchanged.
proof fn lemma_checkpoint_of_push(
    cps: Seq<LastProcessedBlock>,
    entry: LastProcessedBlock,
    chain: Seq<char>,
)
    requires
        entry.chain_id@ == chain,
        forall|j: int| 0 <= j < cps.len() ==> (#[trigger] cps[j]).chain_id@ != chain,
    ensures
        checkpoint_of(cps.push(entry), chain) == entry.last_block,
        forall|c: Seq<char>|
            c != chain ==> checkpoint_of(cps.push(entry), c) == checkpoint_of(cps, c),
    decreases cps.len(),
{
    let u = cps.push(entry);
    if cps.len() == 0 {
        assert(u[0] == entry);
        assert(u.drop_first() =~= Seq::<LastProcessedBlock>::empty());
        assert forall|c: Seq<char>| c != chain implies checkpoint_of(u, c) == checkpoint_of(
            cps,
            c,
        ) by {
            assert(checkpoint_of(u, c) == checkpoint_of(u.drop_first(), c));
        }
    } else {
        assert(u[0] == cps[0]);
        assert(u.drop_first() =~= cps.drop_first().push(entry));
        assert(forall|j: int|
            0 <= j < cps.drop_first().len() ==> (#[trigger] cps.drop_first()[j]).chain_id@
                != chain);
        lemma_checkpoint_of_push(cps.drop_first(), entry, chain);
        assert(cps[0].chain_id@ != chain);
        assert(checkpoint_of(u, chain) == checkpoint_of(u.drop_first(), chain));
        assert forall|c: Seq<char>| c != chain implies checkpoint_of(u, c) == checkpoint_of(
            cps,
            c,
        ) by {
            if cps[0].chain_id@ == c {
                assert(checkpoint_of(u, c) == cps[0].last_block);
                assert(checkpoint_of(cps, c) == cps[0].last_block);
            } else {
                assert(checkpoint_of(u, c) == checkpoint_of(u.drop_first(), c));
                assert(checkpoint_of(cps, c) == checkpoint_of(cps.drop_first(), c));
            }
        }
    }
}

} // verus!
