//! The submission queue: accepted entries that no block holds yet, in the
//! order in which they were admitted.

use vstd::prelude::*;
use crate::entry::{Entry, EntryView};
use crate::error::AdmissionError;

verus! {

/// The values of a run of entries, one for one.
pub open spec fn entry_views(entries: Seq<Entry>) -> Seq<EntryView> {
    Seq::new(entries.len(), |i: int| entries[i]@)
}

/// One of `entries` has a transaction identity in common with `entry`.
pub open spec fn clashes(entries: Seq<EntryView>, entry: EntryView) -> bool {
    exists|i: int| 0 <= i < entries.len() && (#[trigger] entries[i]).shares_identity_with(entry)
}

/// Every entry is well formed, and no transaction identity occurs in two of
/// them.
pub open spec fn duplicate_free(entries: Seq<EntryView>) -> bool {
    &&& forall|i: int| 0 <= i < entries.len() ==> (#[trigger] entries[i]).well_formed()
    &&& forall|i: int, j: int|
        #![trigger entries[i], entries[j]]
        0 <= i < j < entries.len() ==> !entries[i].shares_identity_with(entries[j])
}

/// The payload bytes of the first `upto` entries, added up.
pub open spec fn staged_bytes(entries: Seq<EntryView>, upto: int) -> nat
    decreases upto,
{
    if upto <= 0 {
        0
    } else {
        staged_bytes(entries, upto - 1) + entries[upto - 1].byte_size()
    }
}

/// The first `count` entries exist, are no more than `max_entries`, and have no
/// more than `max_bytes` payload bytes between them.
pub open spec fn within_bounds(
    entries: Seq<EntryView>,
    count: int,
    max_entries: nat,
    max_bytes: nat,
) -> bool {
    &&& 0 <= count <= entries.len()
    &&& count <= max_entries
    &&& staged_bytes(entries, count) <= max_bytes
}

/// `count` is within bounds and no larger count is.
pub open spec fn is_largest_within(
    entries: Seq<EntryView>,
    count: int,
    max_entries: nat,
    max_bytes: nat,
) -> bool {
    &&& within_bounds(entries, count, max_entries, max_bytes)
    &&& forall|more: int| #[trigger]
        within_bounds(entries, more, max_entries, max_bytes) ==> more <= count
}

/// How many entries a drain takes from the head: as many as the two bounds
/// allow, and whole entries only.
pub open spec fn drain_count(entries: Seq<EntryView>, max_entries: nat, max_bytes: nat) -> int {
    choose|count: int| is_largest_within(entries, count, max_entries, max_bytes)
}

/// What admission answers. The entry is judged by itself first, then against
/// the capacity, then against what is staged and what is in flight.
pub open spec fn admission_verdict(
    staged: Seq<EntryView>,
    capacity: nat,
    in_flight: Seq<EntryView>,
    entry: EntryView,
) -> Result<(), AdmissionError> {
    if entry.verdict() is Err {
        entry.verdict()
    } else if staged.len() >= capacity {
        Err(AdmissionError::QueueFull)
    } else if clashes(staged, entry) || clashes(in_flight, entry) {
        Err(AdmissionError::DuplicateMember)
    } else {
        Ok(())
    }
}

/// Adding entries never lowers the sum.
pub proof fn lemma_staged_bytes_grow(entries: Seq<EntryView>, fewer: int, more: int)
    requires
        fewer <= more,
    ensures
        staged_bytes(entries, fewer) <= staged_bytes(entries, more),
    decreases more - fewer,
{
    if fewer < more {
        lemma_staged_bytes_grow(entries, fewer, more - 1);
    }
}

/// A count that is within bounds, while one more is not, is the drain count.
pub proof fn lemma_drain_count_is(
    entries: Seq<EntryView>,
    max_entries: nat,
    max_bytes: nat,
    count: int,
)
    requires
        within_bounds(entries, count, max_entries, max_bytes),
        !within_bounds(entries, count + 1, max_entries, max_bytes),
    ensures
        drain_count(entries, max_entries, max_bytes) == count,
        is_largest_within(entries, count, max_entries, max_bytes),
{
    assert forall|more: int| #[trigger]
        within_bounds(entries, more, max_entries, max_bytes) implies more <= count by {
        if more > count {
            lemma_staged_bytes_grow(entries, count + 1, more);
        }
    }
    assert(is_largest_within(entries, count, max_entries, max_bytes));
}

/// Whatever the queue and the bounds, there is a drain count: it is within
/// bounds, and no larger count is.
pub proof fn lemma_drain_count_exists(entries: Seq<EntryView>, max_entries: nat, max_bytes: nat)
    ensures
        is_largest_within(
            entries,
            drain_count(entries, max_entries, max_bytes),
            max_entries,
            max_bytes,
        ),
{
    let count = lemma_largest_from(entries, max_entries, max_bytes, 0);
    lemma_drain_count_is(entries, max_entries, max_bytes, count);
}

proof fn lemma_largest_from(
    entries: Seq<EntryView>,
    max_entries: nat,
    max_bytes: nat,
    from: int,
) -> (count: int)
    requires
        within_bounds(entries, from, max_entries, max_bytes),
    ensures
        from <= count,
        within_bounds(entries, count, max_entries, max_bytes),
        !within_bounds(entries, count + 1, max_entries, max_bytes),
    decreases entries.len() - from,
{
    if within_bounds(entries, from + 1, max_entries, max_bytes) {
        lemma_largest_from(entries, max_entries, max_bytes, from + 1)
    } else {
        from
    }
}

/// The mathematical value of a [`SubmissionQueue`]: the staged entries, head
/// first, and the capacity.
pub struct QueueView {
    pub entries: Seq<EntryView>,
    pub capacity: nat,
}

/// The staging area between publishers and the block assembler.
#[derive(Debug)]
pub struct SubmissionQueue {
    entries: Vec<Entry>,
    capacity: usize,
}

impl View for SubmissionQueue {
    type V = QueueView;

    closed spec fn view(&self) -> QueueView {
        QueueView { entries: entry_views(self.entries@), capacity: self.capacity as nat }
    }
}

/// Whether one of `entries` has a transaction identity in common with `entry`.
pub fn clash_among(entries: &Vec<Entry>, entry: &Entry) -> (clash: bool)
    ensures
        clash == clashes(entry_views(entries@), entry@),
{
    let mut at: usize = 0;
    while at < entries.len()
        invariant
            at <= entries.len(),
            forall|i: int|
                0 <= i < at ==> !(#[trigger] entry_views(entries@)[i]).shares_identity_with(entry@),
        decreases entries.len() - at,
    {
        if entries[at].shares_identity_with(entry) {
            assert(entry_views(entries@)[at as int].shares_identity_with(entry@));
            return true;
        }
        at += 1;
    }
    false
}

impl SubmissionQueue {
    /// The queue's invariant: what is staged is free of duplicates.
    pub open spec fn wf(&self) -> bool {
        duplicate_free(self@.entries)
    }

    /// An empty queue that admits up to `capacity` entries.
    pub fn new(capacity: usize) -> (queue: SubmissionQueue)
        ensures
            queue.wf(),
            queue@ == (QueueView { entries: Seq::empty(), capacity: capacity as nat }),
    {
        let queue = SubmissionQueue { entries: Vec::new(), capacity };
        assert(queue@.entries =~= Seq::empty());
        queue
    }

    /// The number of staged entries.
    pub fn len(&self) -> (len: usize)
        ensures
            len == self@.entries.len(),
    {
        self.entries.len()
    }

    pub fn is_empty(&self) -> (empty: bool)
        ensures
            empty == (self@.entries.len() == 0),
    {
        self.entries.len() == 0
    }

    pub fn capacity(&self) -> (capacity: usize)
        ensures
            capacity == self@.capacity,
    {
        self.capacity
    }

    /// Changes how many entries the queue admits. What is staged stays, also
    /// where it is more than the new capacity: the queue then admits nothing
    /// until enough was drained.
    pub fn set_capacity(&mut self, capacity: usize)
        ensures
            final(self)@ == (QueueView { entries: old(self)@.entries, capacity: capacity as nat }),
    {
        self.capacity = capacity;
    }

    /// The staged entry at position `at`, the head being at 0.
    pub fn get(&self, at: usize) -> (entry: Option<&Entry>)
        ensures
            at < self@.entries.len() ==> entry.is_some() && entry.unwrap()@ == self@.entries[at as int],
            at >= self@.entries.len() ==> entry.is_none(),
    {
        if at < self.entries.len() {
            Some(&self.entries[at])
        } else {
            None
        }
    }

    /// Whether the staged entries have at least `threshold` payload bytes
    /// between them.
    pub fn holds_bytes(&self, threshold: usize) -> (reached: bool)
        ensures
            reached == (staged_bytes(self@.entries, self@.entries.len() as int) >= threshold),
    {
        let mut missing: usize = threshold;
        let mut at: usize = 0;
        while at < self.entries.len()
            invariant
                at <= self.entries.len(),
                missing > 0 || threshold == 0,
                staged_bytes(self@.entries, at as int) + missing == threshold,
            decreases self.entries.len() - at,
        {
            if missing == 0 {
                return true;
            }
            match self.entries[at].fits_within(missing) {
                None => {
                    proof {
                        lemma_staged_bytes_grow(
                            self@.entries,
                            at + 1,
                            self@.entries.len() as int,
                        );
                    }
                    return true;
                },
                Some(left) => {
                    if left == 0 {
                        proof {
                            lemma_staged_bytes_grow(
                                self@.entries,
                                at + 1,
                                self@.entries.len() as int,
                            );
                        }
                        return true;
                    }
                    missing = left;
                },
            }
            at += 1;
        }
        missing == 0
    }

    /// Stages an entry at the tail, or says why not. `in_flight` holds the
    /// entries that were drained into a block which is not final yet: their
    /// identities are taken as well. A refused entry leaves the queue as it
    /// was.
    pub fn admit_entry(&mut self, entry: Entry, in_flight: &Vec<Entry>) -> (verdict: Result<
        (),
        AdmissionError,
    >)
        requires
            old(self).wf(),
        ensures
            final(self).wf(),
            verdict == admission_verdict(
                old(self)@.entries,
                old(self)@.capacity,
                entry_views(in_flight@),
                entry@,
            ),
            verdict is Ok ==> final(self)@ == (QueueView {
                entries: old(self)@.entries.push(entry@),
                capacity: old(self)@.capacity,
            }),
            verdict is Err ==> final(self)@ == old(self)@,
    {
        match entry.check() {
            Err(error) => {
                return Err(error);
            },
            Ok(()) => {},
        }
        if self.entries.len() >= self.capacity {
            return Err(AdmissionError::QueueFull);
        }
        if clash_among(&self.entries, &entry) || clash_among(in_flight, &entry) {
            return Err(AdmissionError::DuplicateMember);
        }
        proof {
            assert(entry_views(self.entries@.push(entry)) =~= entry_views(self.entries@).push(
                entry@,
            ));
        }
        self.entries.push(entry);
        Ok(())
    }

    /// Takes entries from the head, in order: as many whole entries as fit
    /// into `max_entries` entries and `max_bytes` payload bytes. What stays
    /// keeps its order.
    pub fn drain(&mut self, max_entries: usize, max_bytes: usize) -> (drained: Vec<Entry>)
        requires
            old(self).wf(),
        ensures
            final(self).wf(),
            drained@.len() == drain_count(old(self)@.entries, max_entries as nat, max_bytes as nat),
            entry_views(drained@) == old(self)@.entries.take(drained@.len() as int),
            final(self)@.entries == old(self)@.entries.skip(drained@.len() as int),
            final(self)@.capacity == old(self)@.capacity,
    {
        let ghost staged = self@.entries;
        let mut count: usize = 0;
        let mut left: usize = max_bytes;
        let mut full: bool = false;
        while !full && count < self.entries.len() && count < max_entries
            invariant
                staged == self@.entries,
                staged == entry_views(self.entries@),
                count <= self.entries.len(),
                count <= max_entries,
                staged_bytes(staged, count as int) + left == max_bytes,
                full ==> count < self.entries.len() && staged_bytes(staged, count + 1) > max_bytes,
            decreases self.entries.len() - count + (if full { 0int } else { 1int }),
        {
            match self.entries[count].fits_within(left) {
                None => {
                    full = true;
                },
                Some(rest) => {
                    left = rest;
                    count += 1;
                },
            }
        }
        proof {
            lemma_drain_count_is(staged, max_entries as nat, max_bytes as nat, count as int);
        }
        let mut rest: Vec<Entry> = self.entries.split_off(count);
        std::mem::swap(&mut self.entries, &mut rest);
        proof {
            assert(self@.entries =~= staged.skip(count as int));
        }
        rest
    }

    /// Puts a drained batch back at the head, in its order, before what is
    /// staged now. The batch must fit in: it and the staged entries together
    /// are free of duplicates, as they are when the batch was drained from
    /// this queue and nothing that clashes with it was admitted since.
    pub fn requeue_front(&mut self, batch: Vec<Entry>)
        requires
            old(self).wf(),
            duplicate_free(entry_views(batch@) + old(self)@.entries),
        ensures
            final(self).wf(),
            final(self)@.entries == entry_views(batch@) + old(self)@.entries,
            final(self)@.capacity == old(self)@.capacity,
    {
        let mut restored: Vec<Entry> = batch;
        restored.append(&mut self.entries);
        proof {
            assert(entry_views(restored@) =~= entry_views(batch@) + old(self)@.entries);
        }
        self.entries = restored;
    }
}

} // verus!
