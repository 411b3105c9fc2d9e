//! The finality sweeper: on each tick, mark every deposit buried deeply
//! enough under its chain's head as finality-confirmed.

use vstd::prelude::*;
use crate::store::Store;
use crate::store::confirm_count;
use crate::store::confirmed_row;
use crate::store::monotonic_update;
use crate::store::needs_confirm;

verus! {

/// Number of blocks that must accumulate above a deposit's block before it
/// is considered final.
pub const CONFIRMATION_BLOCKS: i64 = 12;

/// Seconds between worker ticks, and the back-off after a failed chain
/// call or subscription.
pub const TICK_SECS: u64 = 60;

/// The horizon a head implies: blocks at or below `head - confirmations`
/// are final. Clamped at the smallest representable height rather than
/// wrapping.
pub open spec fn spec_finality_horizon(head_block: i64, confirmation_blocks: i64) -> i64 {
    if head_block - confirmation_blocks < i64::MIN {
        i64::MIN
    } else {
        (head_block - confirmation_blocks) as i64
    }
}

pub fn finality_horizon(head_block: i64, confirmation_blocks: i64) -> (r: i64)
    requires
        0 <= confirmation_blocks,
    ensures
        r == spec_finality_horizon(head_block, confirmation_blocks),
{
    if head_block >= i64::MIN + confirmation_blocks {
        head_block - confirmation_blocks
    } else {
        i64::MIN
    }
}

/// One chain's share of a sweeper tick. `head_block` is the chain's
/// current tip as the process edge read it, or `None` where the read
/// failed — the sweep is then skipped and retried on the next tick.
/// Returns how many rows were confirmed. After a tick with a head, every
/// row of the chain at or below the horizon is finality-confirmed.
pub fn finality_tick(
    store: &mut Store,
    chain_id: &String,
    head_block: Option<i64>,
    confirmation_blocks: i64,
    now: i64,
) -> (r: Option<usize>)
    requires
        old(store).wf(),
        0 <= confirmation_blocks,
    ensures
        final(store).wf(),
        final(store).checkpoints == old(store).checkpoints,
        final(store).rows@.len() == old(store).rows@.len(),
        monotonic_update(old(store).rows@, final(store).rows@),
        (r is Some) <==> (head_block is Some),
        head_block is None ==> *final(store) == *old(store),
        head_block matches Some(h) ==> r == Some(
            confirm_count(
                old(store).rows@,
                chain_id@,
                spec_finality_horizon(h, confirmation_blocks),
            ) as usize,
        ),
        head_block matches Some(h) ==> forall|i: int|
            0 <= i < old(store).rows@.len() ==> final(store).rows@[i] == (if needs_confirm(
                #[trigger] old(store).rows@[i],
                chain_id@,
                spec_finality_horizon(h, confirmation_blocks),
            ) {
                confirmed_row(old(store).rows@[i], now)
            } else {
                old(store).rows@[i]
            }),
        head_block matches Some(h) ==> forall|i: int|
            0 <= i < final(store).rows@.len() && (#[trigger] final(store).rows@[i]).chain_id@
                == chain_id@ && final(store).rows@[i].block_number <= spec_finality_horizon(
                h,
                confirmation_blocks,
            ) ==> final(store).rows@[i].finality_confirmed,
{
    match head_block {
        None => None,
        Some(h) => {
            let horizon = finality_horizon(h, confirmation_blocks);
            let count = store.bulk_confirm_finality(chain_id, horizon, now);
            Some(count)
        },
    }
}

} // verus!
