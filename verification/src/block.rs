//! Blocks: ordered batches of entries, chained by height.

use vstd::prelude::*;
use crate::entry::{Entry, EntryView};
use crate::queue::entry_views;
use crate::transaction::{Transaction, TransactionView};

verus! {

/// The height of the first block of every log.
pub const GENESIS_HEIGHT: u64 = 0;

/// The height of the block that a block of height `height` follows; the
/// genesis block follows none.
pub open spec fn parent_of(height: nat) -> Option<nat> {
    if height <= GENESIS_HEIGHT {
        None
    } else {
        Some((height - 1) as nat)
    }
}

/// The transactions of the first `upto` entries, entry after entry, each
/// entry's members in their order.
pub open spec fn expanded(entries: Seq<EntryView>, upto: int) -> Seq<TransactionView>
    decreases upto,
{
    if upto <= 0 {
        Seq::empty()
    } else {
        expanded(entries, upto - 1) + entries[upto - 1].members()
    }
}

/// The members of an entry stay together when a block is expanded: they are
/// one unbroken stretch of the block's transactions, in the bundle's order,
/// right after the transactions of the entries before it.
pub proof fn lemma_members_stay_together(entries: Seq<EntryView>, upto: int, at: int)
    requires
        0 <= at < upto <= entries.len(),
    ensures
        expanded(entries, at + 1).len() == expanded(entries, at).len() + entries[at].members().len(),
        expanded(entries, at + 1).len() <= expanded(entries, upto).len(),
        expanded(entries, upto).subrange(
            expanded(entries, at).len() as int,
            expanded(entries, at + 1).len() as int,
        ) == entries[at].members(),
    decreases upto - at,
{
    if upto == at + 1 {
    } else {
        lemma_members_stay_together(entries, upto - 1, at);
    }
}

/// The mathematical value of a [`Block`].
pub struct BlockView {
    pub height: nat,
    pub entries: Seq<EntryView>,
}

impl BlockView {
    /// All transactions of the block in the order in which they are to be
    /// executed.
    pub open spec fn transactions(self) -> Seq<TransactionView> {
        expanded(self.entries, self.entries.len() as int)
    }
}

/// An immutable batch of entries with its place in the chain.
#[derive(Debug, Clone, PartialEq, Eq)]
pub struct Block {
    height: u64,
    entries: Vec<Entry>,
}

impl View for Block {
    type V = BlockView;

    closed spec fn view(&self) -> BlockView {
        BlockView { height: self.height as nat, entries: entry_views(self.entries@) }
    }
}

impl Block {
    pub fn new(height: u64, entries: Vec<Entry>) -> (block: Block)
        ensures
            block@ == (BlockView { height: height as nat, entries: entry_views(entries@) }),
    {
        Block { height, entries }
    }

    pub fn height(&self) -> (height: u64)
        ensures
            height == self@.height,
    {
        self.height
    }

    /// The height of the previous block, to which this one is chained.
    pub fn parent(&self) -> (parent: Option<u64>)
        ensures
            match parent {
                Some(height) => parent_of(self@.height) == Some(height as nat),
                None => parent_of(self@.height) is None,
            },
    {
        if self.height == GENESIS_HEIGHT {
            None
        } else {
            Some(self.height - 1)
        }
    }

    pub fn entries(&self) -> (entries: &Vec<Entry>)
        ensures
            entry_views(entries@) == self@.entries,
    {
        &self.entries
    }

    /// Gives up the block for its entries.
    pub fn into_entries(self) -> (entries: Vec<Entry>)
        ensures
            entry_views(entries@) == self@.entries,
    {
        self.entries
    }

    /// Whether the two blocks are the same value: same height, same entries
    /// in the same order.
    pub fn equals(&self, other: &Block) -> (equal: bool)
        ensures
            equal == (self@ == other@),
    {
        assert(other@.entries.len() == other.entries.len());
        if self.height != other.height || self.entries.len() != other.entries.len() {
            return false;
        }
        let mut at: usize = 0;
        while at < self.entries.len()
            invariant
                at <= self.entries.len() == other.entries.len(),
                forall|k: int| 0 <= k < at ==> self@.entries[k] == other@.entries[k],
            decreases self.entries.len() - at,
        {
            assert(other@.entries[at as int] == other.entries@[at as int]@);
            if !self.entries[at].equals(&other.entries[at]) {
                return false;
            }
            at += 1;
        }
        assert(self@.entries =~= other@.entries);
        true
    }

    /// The block's transactions in execution order: every bundle is replaced
    /// by its members.
    pub fn transactions(&self) -> (transactions: Vec<&Transaction>)
        ensures
            transactions@.len() == self@.transactions().len(),
            forall|k: int|
                0 <= k < transactions@.len() ==> (#[trigger] transactions@[k])@
                    == self@.transactions()[k],
    {
        let mut transactions: Vec<&Transaction> = Vec::new();
        let mut at: usize = 0;
        while at < self.entries.len()
            invariant
                at <= self.entries.len(),
                transactions@.len() == expanded(self@.entries, at as int).len(),
                forall|k: int|
                    0 <= k < transactions@.len() ==> (#[trigger] transactions@[k])@ == expanded(
                        self@.entries,
                        at as int,
                    )[k],
            decreases self.entries.len() - at,
        {
            let entry = &self.entries[at];
            let count: usize = entry.member_count();
            let ghost before = transactions@;
            let mut member: usize = 0;
            while member < count
                invariant
                    member <= count == entry@.members().len(),
                    transactions@.len() == before.len() + member,
                    forall|k: int|
                        0 <= k < before.len() ==> (#[trigger] transactions@[k]) == before[k],
                    forall|k: int|
                        0 <= k < member ==> (#[trigger] transactions@[before.len() + k])@
                            == entry@.members()[k],
                decreases count - member,
            {
                transactions.push(entry.member(member));
                member += 1;
            }
            proof {
                assert forall|k: int| 0 <= k < transactions@.len() implies (
                #[trigger] transactions@[k])@ == expanded(self@.entries, at + 1)[k] by {
                    if k < before.len() {
                    } else {
                        assert(transactions@[before.len() + (k - before.len())]@
                            == entry@.members()[k - before.len()]);
                    }
                }
            }
            at += 1;
        }
        transactions
    }
}

} // verus!
