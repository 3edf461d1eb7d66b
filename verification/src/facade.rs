//! The sequencer facade: one queue, one assembler and one log behind the two
//! surfaces that publishers and consumers use.

use vstd::prelude::*;
use crate::assembler::{
    assemble, batch_len, cuts_block, due, elapsed, elapsed_between, form_block, is_due, settle,
    AssemblyPolicy,
};
use crate::block::{Block, BlockView, GENESIS_HEIGHT};
use crate::bundle::AtomicTransactionBundle;
use crate::entry::{Entry, EntryView};
use crate::error::{AdmissionError, LogError};
use crate::log::{contiguous, BlockLog};
use crate::queue::{
    admission_verdict, duplicate_free, lemma_drain_count_exists, SubmissionQueue,
};
use crate::transaction::Transaction;

verus! {

/// The entries of the first `upto` blocks, block after block.
pub open spec fn logged_entries(blocks: Seq<BlockView>, upto: int) -> Seq<EntryView>
    decreases upto,
{
    if upto <= 0 {
        Seq::empty()
    } else {
        logged_entries(blocks, upto - 1) + blocks[upto - 1].entries
    }
}

/// The mathematical value of a [`SequencerFacade`].
pub struct SequencerView {
    /// What is staged, head first.
    pub staged: Seq<EntryView>,
    /// How many entries may be staged.
    pub capacity: nat,
    /// The block that was drained and is not final yet, if there is one.
    pub in_flight: Option<BlockView>,
    /// The log.
    pub blocks: Seq<BlockView>,
    pub policy: AssemblyPolicy,
    /// When the last block became final.
    pub last_block_at: u64,
    /// Whether the facade was shut down.
    pub closed: bool,
}

impl SequencerView {
    /// The entries of the block in flight; none where no block is in flight.
    pub open spec fn in_flight_entries(self) -> Seq<EntryView> {
        match self.in_flight {
            Some(block) => block.entries,
            None => Seq::empty(),
        }
    }

    /// The height that the next block gets.
    pub open spec fn next_height(self) -> nat {
        GENESIS_HEIGHT as nat + self.blocks.len()
    }

    /// The facade's invariant. The log has no gap. What is staged and what is
    /// in flight are free of duplicates, taken together. A block in flight
    /// has entries and the height that follows the tip. A facade that was
    /// shut down has no capacity.
    pub open spec fn wf(self) -> bool {
        &&& contiguous(self.blocks)
        &&& duplicate_free(self.in_flight_entries() + self.staged)
        &&& self.in_flight matches Some(block) ==> block.height == self.next_height()
            && block.entries.len() > 0
        &&& self.closed ==> self.capacity == 0
    }

    /// Nothing is staged and nothing is in flight: no block is to come unless
    /// something is published.
    pub open spec fn idle(self) -> bool {
        self.staged.len() == 0 && self.in_flight is None
    }

    /// The state after a shutdown: no capacity is left, so that nothing is
    /// admitted any more. What is staged or in flight is still sequenced.
    pub open spec fn shut_down(self) -> SequencerView {
        SequencerView { closed: true, capacity: 0, ..self }
    }

    /// Every entry that a block holds, in block order.
    pub open spec fn sequenced(self) -> Seq<EntryView> {
        logged_entries(self.blocks, self.blocks.len() as int)
    }

    /// Every entry that was admitted, in the order of admission: those in the
    /// log, then those in flight, then those staged.
    pub open spec fn admitted(self) -> Seq<EntryView> {
        self.sequenced() + self.in_flight_entries() + self.staged
    }

    /// What publishing `entry` answers.
    pub open spec fn publish_verdict(self, entry: EntryView) -> Result<(), AdmissionError> {
        admission_verdict(self.staged, self.capacity, self.in_flight_entries(), entry)
    }

    /// The state after `entry` was published: staged at the tail where it was
    /// admitted, unchanged where it was refused.
    pub open spec fn published(self, entry: EntryView) -> SequencerView {
        if self.publish_verdict(entry) is Ok {
            SequencerView { staged: self.staged.push(entry), ..self }
        } else {
            self
        }
    }

    /// Whether an assembly that starts at `now` drains a block: none is in
    /// flight, one is due, and the drain yields an entry.
    pub open spec fn begins(self, now: u64) -> bool {
        self.in_flight is None && cuts_block(
            self.staged,
            self.policy,
            elapsed_between(self.last_block_at, now),
        )
    }

    /// The state after an assembly was started at `now`.
    pub open spec fn begun(self, now: u64) -> SequencerView {
        if self.begins(now) {
            let count = batch_len(self.staged, self.policy);
            SequencerView {
                staged: self.staged.skip(count),
                in_flight: Some(
                    BlockView { height: self.next_height(), entries: self.staged.take(count) },
                ),
                ..self
            }
        } else {
            self
        }
    }

    /// The state after the block in flight became final at `now`.
    pub open spec fn completed(self, now: u64) -> SequencerView {
        match self.in_flight {
            Some(block) => SequencerView {
                in_flight: None,
                blocks: self.blocks.push(block),
                last_block_at: now,
                ..self
            },
            None => self,
        }
    }

    /// The state after the block in flight was given up: its entries are
    /// staged again, at the head and in their order.
    pub open spec fn aborted(self) -> SequencerView {
        match self.in_flight {
            Some(block) => SequencerView {
                in_flight: None,
                staged: block.entries + self.staged,
                ..self
            },
            None => self,
        }
    }

    /// The state after one whole assembly cycle at `now`. While a block is in
    /// flight the cycle leaves everything as it is.
    pub open spec fn ticked(self, now: u64) -> SequencerView {
        if self.in_flight is Some {
            self
        } else {
            self.begun(now).completed(now)
        }
    }
}

/// How far a consumer has read: the height of the last block it was given.
#[derive(Debug, Clone, Copy, PartialEq, Eq)]
pub struct Cursor {
    last_seen: Option<u64>,
}

impl View for Cursor {
    type V = Option<u64>;

    closed spec fn view(&self) -> Option<u64> {
        self.last_seen
    }
}

/// The height that a consumer is given next.
pub open spec fn next_after(last_seen: Option<u64>) -> nat {
    match last_seen {
        Some(height) => (height + 1) as nat,
        None => GENESIS_HEIGHT as nat,
    }
}

/// What a log gives a consumer whose last block was `last_seen`: the block of
/// the next height, where the log has reached it.
pub open spec fn delivered(blocks: Seq<BlockView>, last_seen: Option<u64>) -> Option<BlockView> {
    if next_after(last_seen) < GENESIS_HEIGHT + blocks.len() {
        Some(blocks[next_after(last_seen) - GENESIS_HEIGHT])
    } else {
        None
    }
}

impl Cursor {
    /// The cursor of a consumer that has seen no block.
    pub fn new() -> (cursor: Cursor)
        ensures
            cursor@ is None,
    {
        Cursor { last_seen: None }
    }

    /// The cursor of a consumer that has seen the blocks up to `height`.
    pub fn after(height: u64) -> (cursor: Cursor)
        ensures
            cursor@ == Some(height),
    {
        Cursor { last_seen: Some(height) }
    }

    pub fn last_seen(&self) -> (last_seen: Option<u64>)
        ensures
            last_seen == self@,
    {
        self.last_seen
    }
}

/// What a consumer that asks for its next block is told.
#[derive(Debug)]
pub enum NextBlock<'a> {
    /// The block that follows the consumer's last one.
    Ready(&'a Block),
    /// There is no such block yet: the consumer waits.
    Pending,
    /// There is no such block and there will be none: the facade was shut
    /// down, and everything that it had admitted is in the log.
    Closed,
}

/// The sequencer: publishers hand it transactions and bundles, the assembler
/// turns what is staged into blocks, and consumers follow the log.
#[derive(Debug)]
pub struct SequencerFacade {
    queue: SubmissionQueue,
    log: BlockLog,
    in_flight: Option<Block>,
    policy: AssemblyPolicy,
    last_block_at: u64,
    closed: bool,
}

impl View for SequencerFacade {
    type V = SequencerView;

    closed spec fn view(&self) -> SequencerView {
        SequencerView {
            staged: self.queue@.entries,
            capacity: self.queue@.capacity,
            in_flight: match self.in_flight {
                Some(block) => Some(block@),
                None => None,
            },
            blocks: self.log@,
            policy: self.policy,
            last_block_at: self.last_block_at,
            closed: self.closed,
        }
    }
}

impl SequencerFacade {
    pub open spec fn wf(&self) -> bool {
        self@.wf()
    }

    /// A sequencer with an empty queue of the given capacity and an empty
    /// log. The wait for the first block is counted from `now`.
    pub fn new(capacity: usize, policy: AssemblyPolicy, now: u64) -> (facade: SequencerFacade)
        ensures
            facade.wf(),
            facade@ == (SequencerView {
                staged: Seq::empty(),
                capacity: capacity as nat,
                in_flight: None,
                blocks: Seq::empty(),
                policy,
                last_block_at: now,
                closed: false,
            }),
    {
        SequencerFacade {
            queue: SubmissionQueue::new(capacity),
            log: BlockLog::new(),
            in_flight: None,
            policy,
            last_block_at: now,
            closed: false,
        }
    }

    /// Offers an entry to the queue, with the block in flight beside it.
    fn offer(&mut self, entry: Entry) -> (verdict: Result<(), AdmissionError>)
        requires
            old(self).wf(),
        ensures
            final(self).wf(),
            verdict == old(self)@.publish_verdict(entry@),
            final(self)@ == old(self)@.published(entry@),
            verdict is Ok ==> final(self)@.admitted() == old(self)@.admitted().push(entry@),
    {
        proof {
            assert((self@.in_flight_entries() + self@.staged).skip(
                self@.in_flight_entries().len() as int,
            ) =~= self@.staged);
        }
        let none: Vec<Entry> = Vec::new();
        let in_flight: &Vec<Entry> = match &self.in_flight {
            Some(block) => block.entries(),
            None => &none,
        };
        let verdict = self.queue.admit_entry(entry, in_flight);
        proof {
            if verdict is Ok {
                assert(self@.in_flight_entries() + self@.staged =~= (old(self)@.in_flight_entries()
                    + old(self)@.staged).push(entry@));
            }
        }
        verdict
    }

    /// Publishes a transaction: it is staged at the tail of the queue and will
    /// be part of a later block. The call answers once the transaction is
    /// admitted, not once it is sequenced. A transaction whose identity is
    /// staged or in flight already is refused, and so is any transaction while
    /// the queue is full; a refused transaction changes nothing.
    pub fn publish(&mut self, transaction: Transaction) -> (verdict: Result<(), AdmissionError>)
        requires
            old(self).wf(),
        ensures
            final(self).wf(),
            verdict == old(self)@.publish_verdict(EntryView::Single(transaction@)),
            final(self)@ == old(self)@.published(EntryView::Single(transaction@)),
            verdict is Ok ==> final(self)@.admitted() == old(self)@.admitted().push(
                EntryView::Single(transaction@),
            ),
    {
        self.offer(Entry::Single(transaction))
    }

    /// Publishes a bundle: it goes through the validator first, and then into
    /// the queue as one entry, so that its members reach a block together and
    /// in their order. A bundle that the validator refuses does not touch the
    /// queue.
    pub fn publish_bundle(&mut self, bundle: AtomicTransactionBundle) -> (verdict: Result<
        (),
        AdmissionError,
    >)
        requires
            old(self).wf(),
        ensures
            final(self).wf(),
            verdict == old(self)@.publish_verdict(EntryView::Bundle(bundle@)),
            final(self)@ == old(self)@.published(EntryView::Bundle(bundle@)),
            verdict is Ok ==> final(self)@.admitted() == old(self)@.admitted().push(
                EntryView::Bundle(bundle@),
            ),
    {
        self.offer(Entry::Bundle(bundle))
    }

    /// Whether a block is due at `now` and none is in flight.
    pub fn assembly_due(&self, now: u64) -> (is_due: bool)
        ensures
            is_due == (self@.in_flight is None && is_due_at(self@, now)),
    {
        self.in_flight.is_none() && due(
            &self.queue,
            &self.policy,
            elapsed(self.last_block_at, now),
        )
    }

    /// Starts an assembly cycle: where a block is due and none is in flight,
    /// the head of the queue is drained into a block of the next height, which
    /// is then in flight until [`Self::complete_assembly`] or
    /// [`Self::abort_assembly`]. Says whether a block was drained.
    pub fn begin_assembly(&mut self, now: u64) -> (began: bool)
        requires
            old(self).wf(),
        ensures
            final(self).wf(),
            began == old(self)@.begins(now),
            final(self)@ == old(self)@.begun(now),
            final(self)@.admitted() == old(self)@.admitted(),
    {
        let ghost staged = self@.staged;
        proof {
            lemma_drain_count_exists(
                staged,
                self.policy.max_entries as nat,
                self.policy.max_bytes as nat,
            );
            assert(staged.skip(0) =~= staged);
        }
        if !self.assembly_due(now) {
            return false;
        }
        let formed = form_block(&mut self.queue, &self.policy, self.log.next_height());
        match formed {
            Some(block) => {
                self.in_flight = Some(block);
                true
            },
            None => false,
        }
    }

    /// The block in flight, for whoever has to store it before it is final.
    pub fn pending_block(&self) -> (pending: Option<&Block>)
        ensures
            match pending {
                Some(block) => self@.in_flight == Some(block@),
                None => self@.in_flight is None,
            },
    {
        self.in_flight.as_ref()
    }

    /// Makes the block in flight final: it is appended to the log and becomes
    /// the tip, and the wait for the next block is counted from `now`. Gives
    /// the new tip's height, or `None` where no block was in flight. The
    /// facade alone writes to its log, so the log takes the block.
    pub fn complete_assembly(&mut self, now: u64) -> (outcome: Result<Option<u64>, LogError>)
        requires
            old(self).wf(),
        ensures
            final(self).wf(),
            final(self)@ == old(self)@.completed(now),
            final(self)@.admitted() == old(self)@.admitted(),
            outcome is Ok,
            match old(self)@.in_flight {
                Some(block) => outcome == Ok::<Option<u64>, LogError>(Some(block.height as u64)),
                None => outcome == Ok::<Option<u64>, LogError>(None),
            },
    {
        match self.in_flight.take() {
            None => Ok(None),
            Some(block) => {
                proof {
                    assert((old(self)@.in_flight_entries() + old(self)@.staged).skip(
                        old(self)@.in_flight_entries().len() as int,
                    ) =~= old(self)@.staged);
                }
                match settle(&mut self.queue, &mut self.log, block) {
                    Ok(height) => {
                        self.last_block_at = now;
                        proof {
                            lemma_logged_entries_push(old(self)@.blocks, block@);
                        }
                        Ok(Some(height))
                    },
                    Err(error) => Err(error),
                }
            },
        }
    }

    /// Gives up the block in flight, as when it could not be stored: its
    /// entries go back to the head of the queue, in their order and before
    /// anything admitted since. Says whether a block was in flight.
    pub fn abort_assembly(&mut self) -> (aborted: bool)
        requires
            old(self).wf(),
        ensures
            final(self).wf(),
            aborted == (old(self)@.in_flight is Some),
            final(self)@ == old(self)@.aborted(),
            final(self)@.admitted() == old(self)@.admitted(),
    {
        match self.in_flight.take() {
            None => false,
            Some(block) => {
                proof {
                    assert((old(self)@.in_flight_entries() + old(self)@.staged).skip(
                        old(self)@.in_flight_entries().len() as int,
                    ) =~= old(self)@.staged);
                }
                self.queue.requeue_front(block.into_entries());
                true
            },
        }
    }

    /// One whole assembly cycle: where a block is due at `now`, the head of
    /// the queue becomes the next block of the log. Gives the new tip's
    /// height, or `None` where no block was cut. While a block is in flight
    /// the cycle does nothing.
    pub fn tick(&mut self, now: u64) -> (outcome: Result<Option<u64>, LogError>)
        requires
            old(self).wf(),
        ensures
            final(self).wf(),
            final(self)@ == old(self)@.ticked(now),
            final(self)@.admitted() == old(self)@.admitted(),
            outcome is Ok,
            outcome == Ok::<Option<u64>, LogError>(
                if old(self)@.begins(now) {
                    Some(old(self)@.next_height() as u64)
                } else {
                    None
                },
            ),
    {
        if self.in_flight.is_some() {
            return Ok(None);
        }
        let waited: u64 = elapsed(self.last_block_at, now);
        match assemble(&mut self.queue, &mut self.log, &self.policy, waited) {
            Ok(Some(height)) => {
                self.last_block_at = now;
                proof {
                    lemma_drain_count_exists(
                        old(self)@.staged,
                        self.policy.max_entries as nat,
                        self.policy.max_bytes as nat,
                    );
                    lemma_logged_entries_push(old(self)@.blocks, self@.blocks.last());
                }
                Ok(Some(height))
            },
            Ok(None) => Ok(None),
            Err(error) => Err(error),
        }
    }

    /// Answers a consumer that asks for the block after its last one: the
    /// block, where the log has it, and the cursor moves on to it. Where the
    /// log has not reached that height, the answer is `Closed` once the facade
    /// was shut down and has sequenced all that it had admitted, and `Pending`
    /// until then. Heights are given out one by one: none is skipped and none
    /// comes twice.
    pub fn poll_next_block<'a>(&'a self, cursor: &mut Cursor) -> (next: NextBlock<'a>)
        requires
            self.wf(),
        ensures
            match next {
                NextBlock::Ready(block) => {
                    &&& delivered(self@.blocks, old(cursor)@) == Some(block@)
                    &&& block@.height == next_after(old(cursor)@)
                    &&& final(cursor)@ == Some(block@.height as u64)
                },
                NextBlock::Pending => {
                    &&& delivered(self@.blocks, old(cursor)@) is None
                    &&& !(self@.closed && self@.idle())
                    &&& final(cursor)@ == old(cursor)@
                },
                NextBlock::Closed => {
                    &&& delivered(self@.blocks, old(cursor)@) is None
                    &&& self@.closed && self@.idle()
                    &&& final(cursor)@ == old(cursor)@
                },
            },
    {
        proof {
            self.log.lemma_len_fits();
        }
        let wanted: Option<u64> = match cursor.last_seen {
            None => Some(GENESIS_HEIGHT),
            Some(height) => height.checked_add(1),
        };
        let found: Option<&Block> = match wanted {
            Some(height) => match self.log.get(height) {
                Ok(block) => Some(block),
                Err(_) => None,
            },
            None => None,
        };
        match found {
            Some(block) => {
                cursor.last_seen = Some(block.height());
                NextBlock::Ready(block)
            },
            None => if self.closed && self.queue.is_empty() && self.in_flight.is_none() {
                NextBlock::Closed
            } else {
                NextBlock::Pending
            },
        }
    }

    /// Shuts the facade down. From now on nothing is admitted: every entry
    /// that the validator lets pass is refused with `QueueFull`. What is staged
    /// or in flight is still sequenced, and consumers that have read all of it
    /// are told `Closed`.
    pub fn close(&mut self)
        requires
            old(self).wf(),
        ensures
            final(self).wf(),
            final(self)@ == old(self)@.shut_down(),
    {
        self.closed = true;
        self.queue.set_capacity(0);
    }

    pub fn is_closed(&self) -> (closed: bool)
        ensures
            closed == self@.closed,
    {
        self.closed
    }

    /// The block at `height`, or `NotFound`.
    pub fn get(&self, height: u64) -> (found: Result<&Block, LogError>)
        ensures
            match found {
                Ok(block) => GENESIS_HEIGHT <= height < self@.next_height() && block@
                    == self@.blocks[height - GENESIS_HEIGHT],
                Err(error) => error == LogError::NotFound && !(GENESIS_HEIGHT <= height
                    < self@.next_height()),
            },
    {
        self.log.get(height)
    }

    /// The highest height and its block, or `Empty`.
    pub fn tip(&self) -> (tip: Result<(u64, &Block), LogError>)
        ensures
            match tip {
                Ok((height, block)) => self@.blocks.len() > 0 && height + 1
                    == self@.next_height() && block@ == self@.blocks.last(),
                Err(error) => error == LogError::Empty && self@.blocks.len() == 0,
            },
    {
        self.log.tip()
    }

    /// The number of staged entries.
    pub fn staged_len(&self) -> (len: usize)
        ensures
            len == self@.staged.len(),
    {
        self.queue.len()
    }

    /// The number of blocks in the log.
    pub fn block_count(&self) -> (count: usize)
        ensures
            count == self@.blocks.len(),
    {
        self.log.len()
    }
}

/// Whether a block is due at `now` for what is staged.
pub open spec fn is_due_at(state: SequencerView, now: u64) -> bool {
    is_due(state.staged, state.policy, elapsed_between(state.last_block_at, now))
}

/// What the first blocks hold does not depend on the blocks after them.
pub proof fn lemma_logged_entries_prefix(
    blocks: Seq<BlockView>,
    longer: Seq<BlockView>,
    upto: int,
)
    requires
        upto <= blocks.len() <= longer.len(),
        forall|i: int| 0 <= i < blocks.len() ==> blocks[i] == longer[i],
    ensures
        logged_entries(longer, upto) == logged_entries(blocks, upto),
    decreases upto,
{
    if upto > 0 {
        lemma_logged_entries_prefix(blocks, longer, upto - 1);
    }
}

/// A new block adds its entries behind those that the log holds.
pub proof fn lemma_logged_entries_push(blocks: Seq<BlockView>, block: BlockView)
    ensures
        logged_entries(blocks.push(block), blocks.len() as int + 1) == logged_entries(
            blocks,
            blocks.len() as int,
        ) + block.entries,
{
    lemma_logged_entries_prefix(blocks, blocks.push(block), blocks.len() as int);
}

} // verus!
