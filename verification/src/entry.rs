//! Sequencing entries: what the queue stages and a block holds, each either a
//! transaction on its own or a whole bundle.

use vstd::prelude::*;
use crate::bundle::{distinct_identities, validate, validation_verdict, AtomicTransactionBundle};
use crate::error::AdmissionError;
use crate::transaction::{Transaction, TransactionView};

verus! {

/// The payload bytes of the first `upto` members, added up.
pub open spec fn payload_bytes(members: Seq<TransactionView>, upto: int) -> nat
    decreases upto,
{
    if upto <= 0 {
        0
    } else {
        payload_bytes(members, upto - 1) + members[upto - 1].payload.len()
    }
}

/// Adding members never lowers the sum.
pub proof fn lemma_payload_bytes_grow(members: Seq<TransactionView>, fewer: int, more: int)
    requires
        fewer <= more,
    ensures
        payload_bytes(members, fewer) <= payload_bytes(members, more),
    decreases more - fewer,
{
    if fewer < more {
        lemma_payload_bytes_grow(members, fewer, more - 1);
    }
}

/// The mathematical value of an [`Entry`].
pub enum EntryView {
    Single(TransactionView),
    Bundle(Seq<TransactionView>),
}

impl EntryView {
    /// The transactions of the entry, in order: one for a transaction on its
    /// own, the members for a bundle.
    pub open spec fn members(self) -> Seq<TransactionView> {
        match self {
            EntryView::Single(transaction) => seq![transaction],
            EntryView::Bundle(members) => members,
        }
    }

    /// The payload bytes of all members.
    pub open spec fn byte_size(self) -> nat {
        payload_bytes(self.members(), self.members().len() as int)
    }

    /// What admission answers for the entry taken by itself: a transaction is
    /// always in order, a bundle is judged by the validator.
    pub open spec fn verdict(self) -> Result<(), AdmissionError> {
        match self {
            EntryView::Single(_) => Ok(()),
            EntryView::Bundle(members) => validation_verdict(members),
        }
    }

    /// The entry has a member, and no identity occurs twice in it.
    pub open spec fn well_formed(self) -> bool {
        self.members().len() > 0 && distinct_identities(self.members())
    }

    /// One of the members has this identity.
    pub open spec fn holds(self, identity: Seq<u8>) -> bool {
        exists|k: int|
            0 <= k < self.members().len() && (#[trigger] self.members()[k]).identity() == identity
    }

    /// The two entries have a transaction identity in common.
    pub open spec fn shares_identity_with(self, other: EntryView) -> bool {
        exists|k: int|
            0 <= k < self.members().len() && other.holds((#[trigger] self.members()[k]).identity())
    }
}

/// A transaction or a bundle, as one unit of sequencing.
#[derive(Debug, Clone, PartialEq, Eq)]
pub enum Entry {
    Single(Transaction),
    Bundle(AtomicTransactionBundle),
}

impl View for Entry {
    type V = EntryView;

    open spec fn view(&self) -> EntryView {
        match *self {
            Entry::Single(transaction) => EntryView::Single(transaction@),
            Entry::Bundle(bundle) => EntryView::Bundle(bundle@),
        }
    }
}

impl Entry {
    /// How many transactions the entry carries.
    pub fn member_count(&self) -> (count: usize)
        ensures
            count == self@.members().len(),
    {
        match self {
            Entry::Single(_) => 1,
            Entry::Bundle(bundle) => bundle.len(),
        }
    }

    /// The transaction at position `at`.
    pub fn member(&self, at: usize) -> (transaction: &Transaction)
        requires
            at < self@.members().len(),
        ensures
            transaction@ == self@.members()[at as int],
    {
        match self {
            Entry::Single(transaction) => transaction,
            Entry::Bundle(bundle) => {
                let members = bundle.members();
                &members[at]
            },
        }
    }

    /// Judges the entry by itself, as admission does before it looks at the
    /// queue.
    pub fn check(&self) -> (verdict: Result<(), AdmissionError>)
        ensures
            verdict == self@.verdict(),
    {
        match self {
            Entry::Single(_) => Ok(()),
            Entry::Bundle(bundle) => validate(bundle),
        }
    }

    /// Takes the entry's payload bytes out of a byte budget: what is left of
    /// the budget, or `None` where the entry is larger than the budget.
    pub fn fits_within(&self, budget: usize) -> (left: Option<usize>)
        ensures
            left == (if self@.byte_size() <= budget {
                Some((budget - self@.byte_size()) as usize)
            } else {
                None
            }),
    {
        let count: usize = self.member_count();
        let mut left: usize = budget;
        let mut at: usize = 0;
        while at < count
            invariant
                at <= count == self@.members().len(),
                payload_bytes(self@.members(), at as int) + left == budget,
            decreases count - at,
        {
            let len: usize = self.member(at).byte_len();
            if len > left {
                proof {
                    lemma_payload_bytes_grow(self@.members(), at + 1, count as int);
                }
                return None;
            }
            left -= len;
            at += 1;
        }
        Some(left)
    }

    /// Whether a member of the entry has the identity of `transaction`.
    pub fn holds_identity_of(&self, transaction: &Transaction) -> (held: bool)
        ensures
            held == self@.holds(transaction@.identity()),
    {
        let count: usize = self.member_count();
        let mut at: usize = 0;
        while at < count
            invariant
                at <= count == self@.members().len(),
                forall|k: int|
                    0 <= k < at ==> (#[trigger] self@.members()[k]).identity()
                        != transaction@.identity(),
            decreases count - at,
        {
            if self.member(at).same_identity(transaction) {
                return true;
            }
            at += 1;
        }
        false
    }

    /// Whether the two entries have a transaction identity in common.
    pub fn shares_identity_with(&self, other: &Entry) -> (shared: bool)
        ensures
            shared == self@.shares_identity_with(other@),
    {
        let count: usize = self.member_count();
        let mut at: usize = 0;
        while at < count
            invariant
                at <= count == self@.members().len(),
                forall|k: int|
                    0 <= k < at ==> !other@.holds((#[trigger] self@.members()[k]).identity()),
            decreases count - at,
        {
            if other.holds_identity_of(self.member(at)) {
                return true;
            }
            at += 1;
        }
        false
    }

    /// Whether the two entries are the same value: the same kind of entry with
    /// the same transactions in the same order.
    pub fn equals(&self, other: &Entry) -> (equal: bool)
        ensures
            equal == (self@ == other@),
    {
        match (self, other) {
            (Entry::Single(mine), Entry::Single(theirs)) => mine.equals(theirs),
            (Entry::Bundle(mine), Entry::Bundle(theirs)) => {
                let count: usize = mine.len();
                if count != theirs.len() {
                    return false;
                }
                let mut at: usize = 0;
                while at < count
                    invariant
                        at <= count == mine@.len() == theirs@.len(),
                        self@ == EntryView::Bundle(mine@),
                        other@ == EntryView::Bundle(theirs@),
                        forall|k: int| 0 <= k < at ==> mine@[k] == theirs@[k],
                    decreases count - at,
                {
                    if !self.member(at).equals(other.member(at)) {
                        return false;
                    }
                    at += 1;
                }
                assert(mine@ =~= theirs@);
                true
            },
            _ => false,
        }
    }
}

} // verus!
