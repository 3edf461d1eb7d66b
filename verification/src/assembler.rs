//! The block assembler: when to cut a block, what goes into it, and what
//! happens to a batch that the log does not take.

use vstd::prelude::*;
use crate::block::{Block, BlockView, GENESIS_HEIGHT};
use crate::entry::EntryView;
use crate::error::LogError;
use crate::log::{accepts, appended, BlockLog, Rejected};
use crate::queue::{
    drain_count, duplicate_free, lemma_drain_count_exists, staged_bytes, QueueView,
    SubmissionQueue,
};

verus! {

/// The bounds of a block and the longest wait for one. A block is cut as soon
/// as `max_entries` entries or `max_bytes` payload bytes are staged, or when
/// `max_wait` has passed since the last block and anything is staged. No
/// block holds more than `max_entries` entries or `max_bytes` payload bytes.
#[derive(Debug, Clone, Copy, PartialEq, Eq, Structural)]
pub struct AssemblyPolicy {
    pub max_entries: usize,
    pub max_bytes: usize,
    pub max_wait: u64,
}

/// The time from `since` to `now`; none where the clock went back.
pub open spec fn elapsed_between(since: u64, now: u64) -> nat {
    if now >= since {
        (now - since) as nat
    } else {
        0
    }
}

/// Whether a block is due: something is staged, and a size threshold or the
/// time threshold is reached.
pub open spec fn is_due(staged: Seq<EntryView>, policy: AssemblyPolicy, elapsed: nat) -> bool {
    &&& staged.len() > 0
    &&& (staged.len() >= policy.max_entries || staged_bytes(staged, staged.len() as int)
        >= policy.max_bytes || elapsed >= policy.max_wait)
}

/// How many entries the next block takes from the head of what is staged.
pub open spec fn batch_len(staged: Seq<EntryView>, policy: AssemblyPolicy) -> int {
    drain_count(staged, policy.max_entries as nat, policy.max_bytes as nat)
}

/// The time from `since` to `now`.
pub fn elapsed(since: u64, now: u64) -> (elapsed: u64)
    ensures
        elapsed == elapsed_between(since, now),
{
    now.saturating_sub(since)
}

/// Whether a block is due for this queue, `elapsed` after the last block.
pub fn due(queue: &SubmissionQueue, policy: &AssemblyPolicy, elapsed: u64) -> (due: bool)
    ensures
        due == is_due(queue@.entries, *policy, elapsed as nat),
{
    if queue.is_empty() {
        return false;
    }
    queue.len() >= policy.max_entries || elapsed >= policy.max_wait || queue.holds_bytes(
        policy.max_bytes,
    )
}

/// Drains the queue under the policy's bounds and makes the batch a block of
/// the given height: the entries in the order in which they were admitted,
/// every bundle whole. Where nothing can be drained, no block is made and the
/// queue stays as it was.
pub fn form_block(queue: &mut SubmissionQueue, policy: &AssemblyPolicy, height: u64) -> (formed:
    Option<Block>)
    requires
        old(queue).wf(),
    ensures
        final(queue).wf(),
        final(queue)@ == (QueueView {
            entries: old(queue)@.entries.skip(batch_len(old(queue)@.entries, *policy)),
            capacity: old(queue)@.capacity,
        }),
        batch_len(old(queue)@.entries, *policy) == 0 ==> formed is None,
        batch_len(old(queue)@.entries, *policy) > 0 ==> formed is Some && formed.unwrap()@ == (
        BlockView {
            height: height as nat,
            entries: old(queue)@.entries.take(batch_len(old(queue)@.entries, *policy)),
        }),
{
    let batch = queue.drain(policy.max_entries, policy.max_bytes);
    if batch.len() == 0 {
        None
    } else {
        Some(Block::new(height, batch))
    }
}

/// Offers a formed block to the log. Where the log takes it, the block is
/// final. Where the log refuses it, the batch goes back to the head of the
/// queue, in its order and before anything staged since, and the log's error
/// is handed on: no drained entry is lost.
pub fn settle(queue: &mut SubmissionQueue, log: &mut BlockLog, block: Block) -> (outcome: Result<
    u64,
    LogError,
>)
    requires
        old(queue).wf(),
        old(log).wf(),
        duplicate_free(block@.entries + old(queue)@.entries),
    ensures
        final(queue).wf(),
        final(log).wf(),
        final(log)@ == appended(old(log)@, block@),
        outcome is Ok <==> accepts(old(log)@, block@),
        outcome matches Ok(height) ==> height == block@.height && final(queue)@ == old(queue)@,
        outcome matches Err(error) ==> error == LogError::HeightConflict && final(queue)@ == (
        QueueView {
            entries: block@.entries + old(queue)@.entries,
            capacity: old(queue)@.capacity,
        }),
{
    let height: u64 = block.height();
    match log.append(block) {
        Ok(()) => Ok(height),
        Err(rejected) => {
            let Rejected { error, block } = rejected;
            queue.requeue_front(block.into_entries());
            Err(error)
        },
    }
}

/// One assembly cycle on a queue and the log that it feeds. Where a block is
/// due and the drain yields entries, they become the block that follows the
/// log's tip; otherwise nothing changes. The block's height is read from the
/// log, so the log takes the block.
pub fn assemble(
    queue: &mut SubmissionQueue,
    log: &mut BlockLog,
    policy: &AssemblyPolicy,
    elapsed: u64,
) -> (outcome: Result<Option<u64>, LogError>)
    requires
        old(queue).wf(),
        old(log).wf(),
    ensures
        final(queue).wf(),
        final(log).wf(),
        outcome is Ok,
        !cuts_block(old(queue)@.entries, *policy, elapsed as nat) ==> {
            &&& outcome == Ok::<Option<u64>, LogError>(None)
            &&& final(queue)@ == old(queue)@
            &&& final(log)@ == old(log)@
        },
        cuts_block(old(queue)@.entries, *policy, elapsed as nat) ==> {
            &&& outcome == Ok::<Option<u64>, LogError>(Some((GENESIS_HEIGHT + old(log)@.len()) as u64))
            &&& final(queue)@ == (QueueView {
                entries: old(queue)@.entries.skip(batch_len(old(queue)@.entries, *policy)),
                capacity: old(queue)@.capacity,
            })
            &&& final(log)@ == old(log)@.push(
                BlockView {
                    height: GENESIS_HEIGHT as nat + old(log)@.len(),
                    entries: old(queue)@.entries.take(batch_len(old(queue)@.entries, *policy)),
                },
            )
        },
{
    let ghost staged = queue@.entries;
    proof {
        lemma_drain_count_exists(staged, policy.max_entries as nat, policy.max_bytes as nat);
        assert(staged.skip(0) =~= staged);
    }
    if !due(queue, policy, elapsed) {
        return Ok(None);
    }
    match form_block(queue, policy, log.next_height()) {
        None => Ok(None),
        Some(block) => {
            proof {
                let count = batch_len(staged, *policy);
            }
            match settle(queue, log, block) {
                Ok(height) => Ok(Some(height)),
                Err(error) => Err(error),
            }
        },
    }
}

/// Whether an assembly cycle cuts a block: one is due, and the drain yields
/// at least one entry.
pub open spec fn cuts_block(staged: Seq<EntryView>, policy: AssemblyPolicy, elapsed: nat) -> bool {
    is_due(staged, policy, elapsed) && batch_len(staged, policy) > 0
}

} // verus!
