//! What the sequencer guarantees across calls: every admitted entry reaches
//! exactly one block, pending entries are sequenced after finitely many
//! cycles, and consumers are given every height once and in order.

use vstd::prelude::*;
use crate::assembler::{batch_len, AssemblyPolicy};
use crate::block::{BlockView, GENESIS_HEIGHT};
use crate::entry::EntryView;
use crate::facade::{
    delivered, is_due_at, lemma_logged_entries_push, logged_entries, SequencerView,
};
use crate::log::contiguous;
use crate::queue::{lemma_drain_count_exists, staged_bytes, within_bounds};

verus! {

/// Publishing keeps the invariant. An admitted entry is added once, behind
/// everything admitted before it; a refused entry changes nothing.
pub proof fn lemma_publish_admits_once(state: SequencerView, entry: EntryView)
    requires
        state.wf(),
    ensures
        state.published(entry).wf(),
        state.publish_verdict(entry) is Ok ==> state.published(entry).admitted()
            == state.admitted().push(entry),
        state.publish_verdict(entry) is Err ==> state.published(entry) == state,
{
    if state.publish_verdict(entry) is Ok {
        let after = state.published(entry);
        assert(after.in_flight_entries() + after.staged =~= (state.in_flight_entries()
            + state.staged).push(entry));
    }
}

/// Starting an assembly keeps the invariant and moves entries from the queue
/// into the block in flight without adding, dropping or reordering any.
pub proof fn lemma_begin_keeps_admitted(state: SequencerView, now: u64)
    requires
        state.wf(),
    ensures
        state.begun(now).wf(),
        state.begun(now).admitted() == state.admitted(),
        state.begun(now).blocks == state.blocks,
{
    if state.begins(now) {
        lemma_drain_count_exists(
            state.staged,
            state.policy.max_entries as nat,
            state.policy.max_bytes as nat,
        );
    }
}

/// Completing an assembly keeps the invariant and moves the entries in flight
/// into the log without adding, dropping or reordering any.
pub proof fn lemma_complete_keeps_admitted(state: SequencerView, now: u64)
    requires
        state.wf(),
    ensures
        state.completed(now).wf(),
        state.completed(now).admitted() == state.admitted(),
        state.blocks.is_prefix_of(state.completed(now).blocks),
{
    if let Some(block) = state.in_flight {
        lemma_logged_entries_push(state.blocks, block);
        assert((state.in_flight_entries() + state.staged).skip(
            state.in_flight_entries().len() as int,
        ) =~= state.staged);
    }
}

/// Giving an assembly up keeps the invariant and puts the entries in flight
/// back at the head of the queue without adding, dropping or reordering any.
pub proof fn lemma_abort_keeps_admitted(state: SequencerView)
    requires
        state.wf(),
    ensures
        state.aborted().wf(),
        state.aborted().admitted() == state.admitted(),
        state.aborted().blocks == state.blocks,
{
}

/// A whole assembly cycle keeps the invariant, loses no admitted entry and
/// repeats none, and leaves every block of the log where it is.
pub proof fn lemma_tick_keeps_admitted(state: SequencerView, now: u64)
    requires
        state.wf(),
    ensures
        state.ticked(now).wf(),
        state.ticked(now).admitted() == state.admitted(),
        state.blocks.is_prefix_of(state.ticked(now).blocks),
{
    if state.in_flight is None {
        lemma_begin_keeps_admitted(state, now);
        lemma_complete_keeps_admitted(state.begun(now), now);
    }
}

/// Where an entry of the log lies: the entry at `position` of everything
/// sequenced is the entry at `offset` of block `block`.
pub open spec fn lies_at(blocks: Seq<BlockView>, position: int, block: int, offset: int) -> bool {
    &&& 0 <= block < blocks.len()
    &&& 0 <= offset < blocks[block].entries.len()
    &&& logged_entries(blocks, block).len() + offset == position
}

/// Every sequenced entry lies in exactly one block, at exactly one place.
pub proof fn lemma_entry_in_one_block(blocks: Seq<BlockView>, position: int) -> (place: (int, int))
    requires
        0 <= position < logged_entries(blocks, blocks.len() as int).len(),
    ensures
        lies_at(blocks, position, place.0, place.1),
        logged_entries(blocks, blocks.len() as int)[position] == blocks[place.0].entries[place.1],
        forall|block: int, offset: int| #[trigger]
            lies_at(blocks, position, block, offset) ==> block == place.0 && offset == place.1,
{
    let place = lemma_find_place(blocks, blocks.len() as int, position);
    assert forall|block: int, offset: int| #[trigger]
        lies_at(blocks, position, block, offset) implies block == place.0 && offset == place.1 by {
        if block < place.0 {
            lemma_logged_entries_grow(blocks, block + 1, place.0);
        } else if block > place.0 {
            lemma_logged_entries_grow(blocks, place.0 + 1, block);
        }
    }
    place
}

proof fn lemma_logged_entries_grow(blocks: Seq<BlockView>, fewer: int, more: int)
    requires
        fewer <= more,
    ensures
        logged_entries(blocks, fewer).len() <= logged_entries(blocks, more).len(),
    decreases more - fewer,
{
    if fewer < more {
        lemma_logged_entries_grow(blocks, fewer, more - 1);
    }
}

proof fn lemma_find_place(blocks: Seq<BlockView>, upto: int, position: int) -> (place: (int, int))
    requires
        0 <= upto <= blocks.len(),
        0 <= position < logged_entries(blocks, upto).len(),
    ensures
        place.0 < upto,
        lies_at(blocks, position, place.0, place.1),
        logged_entries(blocks, upto)[position] == blocks[place.0].entries[place.1],
    decreases upto,
{
    let before = logged_entries(blocks, upto - 1);
    if position < before.len() {
        lemma_find_place(blocks, upto - 1, position)
    } else {
        (upto - 1, position - before.len())
    }
}

/// Every staged entry fits a block by itself: the policy lets a block hold an
/// entry, and no staged entry has more payload bytes than a block may hold.
pub open spec fn every_entry_fits(staged: Seq<EntryView>, policy: AssemblyPolicy) -> bool {
    &&& policy.max_entries >= 1
    &&& forall|i: int| 0 <= i < staged.len() ==> (#[trigger] staged[i]).byte_size()
        <= policy.max_bytes
}

/// The time threshold fires whatever the load: once the longest wait has
/// passed since the last block, a block is due as long as anything is staged.
pub proof fn lemma_time_threshold_fires(state: SequencerView, now: u64)
    requires
        state.staged.len() > 0,
        now >= state.last_block_at,
        now - state.last_block_at >= state.policy.max_wait,
    ensures
        is_due_at(state, now),
{
}

/// A cycle that is due cuts a block: the log grows by one block, which holds
/// at least the head of the queue, and the queue gets shorter.
pub proof fn lemma_due_cycle_cuts_a_block(state: SequencerView, now: u64)
    requires
        state.wf(),
        state.in_flight is None,
        is_due_at(state, now),
        every_entry_fits(state.staged, state.policy),
    ensures
        1 <= batch_len(state.staged, state.policy) <= state.staged.len(),
        state.ticked(now).blocks == state.blocks.push(
            BlockView {
                height: state.next_height(),
                entries: state.staged.take(batch_len(state.staged, state.policy)),
            },
        ),
        state.ticked(now).staged == state.staged.skip(batch_len(state.staged, state.policy)),
        state.ticked(now).in_flight is None,
        every_entry_fits(state.ticked(now).staged, state.policy),
{
    let max_entries = state.policy.max_entries as nat;
    let max_bytes = state.policy.max_bytes as nat;
    lemma_drain_count_exists(state.staged, max_entries, max_bytes);
    assert(staged_bytes(state.staged, 1) == state.staged[0].byte_size()) by {
        assert(staged_bytes(state.staged, 0) == 0);
    }
    assert(within_bounds(state.staged, 1, max_entries, max_bytes));
}

/// One call on the sequencer: a publication, or an assembly cycle at a time.
pub enum Step {
    Publish(EntryView),
    Cycle(u64),
}

/// The state after one call.
pub open spec fn after_step(state: SequencerView, step: Step) -> SequencerView {
    match step {
        Step::Publish(entry) => state.published(entry),
        Step::Cycle(now) => state.ticked(now),
    }
}

/// The state after a run of calls, in their order.
pub open spec fn after_run(state: SequencerView, run: Seq<Step>) -> SequencerView
    decreases run.len(),
{
    if run.len() == 0 {
        state
    } else {
        after_run(after_step(state, run[0]), run.drop_first())
    }
}

/// How many assembly cycles a run holds.
pub open spec fn cycles_in(run: Seq<Step>) -> nat
    decreases run.len(),
{
    if run.len() == 0 {
        0
    } else {
        cycles_in(run.drop_first()) + if run[0] is Cycle {
            1nat
        } else {
            0nat
        }
    }
}

/// The run keeps the assembler going: each of its cycles finds a block due
/// or nothing staged, and nothing is published that is too large for a block.
pub open spec fn keeps_going(state: SequencerView, run: Seq<Step>) -> bool
    decreases run.len(),
{
    run.len() == 0 || {
        &&& match run[0] {
            Step::Publish(entry) => entry.byte_size() <= state.policy.max_bytes,
            Step::Cycle(now) => state.staged.len() == 0 || is_due_at(state, now),
        }
        &&& keeps_going(after_step(state, run[0]), run.drop_first())
    }
}

/// Liveness, whatever is published in between: with no block in flight and
/// every staged entry fit for a block, a run that keeps the assembler going
/// and has as many cycles as there are staged entries sequences all that was
/// admitted before it. The log then starts with everything admitted before
/// the run, in the order of admission.
pub proof fn lemma_admitted_entries_are_sequenced(state: SequencerView, run: Seq<Step>)
    requires
        state.wf(),
        state.in_flight is None,
        every_entry_fits(state.staged, state.policy),
        keeps_going(state, run),
        cycles_in(run) >= state.staged.len(),
    ensures
        after_run(state, run).wf(),
        after_run(state, run).in_flight is None,
        state.admitted().is_prefix_of(after_run(state, run).sequenced()),
{
    lemma_run_sequences(state, run, state.admitted());
}

proof fn lemma_run_sequences(state: SequencerView, run: Seq<Step>, target: Seq<EntryView>)
    requires
        state.wf(),
        state.in_flight is None,
        every_entry_fits(state.staged, state.policy),
        keeps_going(state, run),
        target.is_prefix_of(state.admitted()),
        target.len() <= state.sequenced().len() + cycles_in(run),
    ensures
        after_run(state, run).wf(),
        after_run(state, run).in_flight is None,
        target.is_prefix_of(after_run(state, run).sequenced()),
    decreases run.len(),
{
    if run.len() > 0 {
        let next = after_step(state, run[0]);
        match run[0] {
            Step::Publish(entry) => {
                lemma_publish_admits_once(state, entry);
            },
            Step::Cycle(now) => {
                lemma_tick_keeps_admitted(state, now);
                if state.staged.len() > 0 {
                    lemma_due_cycle_cuts_a_block(state, now);
                    lemma_logged_entries_push(state.blocks, next.blocks.last());
                }
            },
        }
        lemma_run_sequences(next, run.drop_first(), target);
    }
}

/// `Closed` is final: once the facade is shut down and idle, nothing is
/// admitted and no cycle cuts a block, so the log stays as it is for good.
pub proof fn lemma_closed_is_final(state: SequencerView, entry: EntryView, now: u64)
    requires
        state.wf(),
        state.closed,
        state.idle(),
    ensures
        state.publish_verdict(entry) is Err,
        state.published(entry) == state,
        state.begun(now) == state,
        state.completed(now) == state,
        state.aborted() == state,
        state.ticked(now) == state,
        state.shut_down() == state,
{
}

/// A shutdown keeps the invariant and everything that was admitted.
pub proof fn lemma_shutdown_keeps_admitted(state: SequencerView)
    requires
        state.wf(),
    ensures
        state.shut_down().wf(),
        state.shut_down().admitted() == state.admitted(),
        state.shut_down().blocks == state.blocks,
{
}

/// A consumer is given the height right after its last one, whatever the log
/// has grown to in between: what it is given is above what it has seen, and
/// two calls in a row give two heights in a row, none skipped and none twice.
pub proof fn lemma_heights_are_delivered_in_order(
    earlier: Seq<BlockView>,
    later: Seq<BlockView>,
    last_seen: Option<u64>,
)
    requires
        contiguous(later),
        earlier.is_prefix_of(later),
        delivered(earlier, last_seen) is Some,
        delivered(earlier, last_seen).unwrap().height <= u64::MAX,
        delivered(later, Some(delivered(earlier, last_seen).unwrap().height as u64)) is Some,
    ensures
        last_seen matches Some(seen) ==> delivered(earlier, last_seen).unwrap().height == seen + 1,
        last_seen is None ==> delivered(earlier, last_seen).unwrap().height == GENESIS_HEIGHT,
        delivered(later, Some(delivered(earlier, last_seen).unwrap().height as u64)).unwrap().height
            == delivered(earlier, last_seen).unwrap().height + 1,
{
}

} // verus!
