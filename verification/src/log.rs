//! The block log: the append-only, height-indexed store of final blocks.

use vstd::prelude::*;
use crate::block::{Block, BlockView, GENESIS_HEIGHT};
use crate::error::LogError;

verus! {

/// The values of a run of blocks, one for one.
pub open spec fn block_views(blocks: Seq<Block>) -> Seq<BlockView> {
    Seq::new(blocks.len(), |i: int| blocks[i]@)
}

/// Heights start at the genesis height and go up by one, block after block.
pub open spec fn contiguous(blocks: Seq<BlockView>) -> bool {
    forall|i: int| 0 <= i < blocks.len() ==> (#[trigger] blocks[i]).height == GENESIS_HEIGHT + i
}

/// The block has the height that follows the tip, or the genesis height where
/// the log is empty.
pub open spec fn is_next(blocks: Seq<BlockView>, block: BlockView) -> bool {
    block.height == GENESIS_HEIGHT + blocks.len()
}

/// The log already holds this very block at its height.
pub open spec fn is_present(blocks: Seq<BlockView>, block: BlockView) -> bool {
    GENESIS_HEIGHT <= block.height < GENESIS_HEIGHT + blocks.len() && blocks[block.height
        - GENESIS_HEIGHT] == block
}

/// The log after `block` was offered to it: one block longer where the block
/// is the next one, unchanged where not.
pub open spec fn appended(blocks: Seq<BlockView>, block: BlockView) -> Seq<BlockView> {
    if is_next(blocks, block) {
        blocks.push(block)
    } else {
        blocks
    }
}

/// Whether the log accepts the block: as the next one, or as one that it
/// holds already.
pub open spec fn accepts(blocks: Seq<BlockView>, block: BlockView) -> bool {
    is_next(blocks, block) || is_present(blocks, block)
}

/// Offering a block keeps the heights contiguous, whether the log takes the
/// block or not.
pub proof fn lemma_append_keeps_contiguous(blocks: Seq<BlockView>, block: BlockView)
    requires
        contiguous(blocks),
    ensures
        contiguous(appended(blocks, block)),
{
}

/// A block that would leave a gap is refused: with the tip at height `h`, a
/// block of any height above `h + 1` is not accepted, and the log stays as it
/// was.
pub proof fn lemma_gap_is_refused(blocks: Seq<BlockView>, block: BlockView)
    requires
        contiguous(blocks),
        block.height > GENESIS_HEIGHT + blocks.len(),
    ensures
        !accepts(blocks, block),
        appended(blocks, block) == blocks,
{
}

/// Appending is idempotent: a block that the log has taken is accepted again,
/// and offering it again adds no block and does not move the tip.
pub proof fn lemma_append_again_changes_nothing(blocks: Seq<BlockView>, block: BlockView)
    requires
        contiguous(blocks),
        accepts(blocks, block),
    ensures
        accepts(appended(blocks, block), block),
        appended(appended(blocks, block), block) == appended(blocks, block),
{
}

/// What the log holds at a height is there for good: offering a block changes
/// no block that is in the log.
pub proof fn lemma_append_keeps_blocks(blocks: Seq<BlockView>, block: BlockView)
    ensures
        blocks.is_prefix_of(appended(blocks, block)),
{
}

/// A block that the log did not accept, handed back with the reason.
#[derive(Debug)]
pub struct Rejected {
    pub error: LogError,
    pub block: Block,
}

/// The single source of truth that consumers read from.
#[derive(Debug)]
pub struct BlockLog {
    blocks: Vec<Block>,
}

impl View for BlockLog {
    type V = Seq<BlockView>;

    closed spec fn view(&self) -> Seq<BlockView> {
        block_views(self.blocks@)
    }
}

impl BlockLog {
    /// The log's invariant: no gap and no repeat among the heights.
    pub open spec fn wf(&self) -> bool {
        contiguous(self@)
    }

    /// A log never holds more blocks than the machine can count.
    pub proof fn lemma_len_fits(&self)
        ensures
            self@.len() <= usize::MAX,
    {
        assert(self.blocks.len() == self.blocks@.len());
    }

    /// An empty log.
    pub fn new() -> (log: BlockLog)
        ensures
            log.wf(),
            log@ == Seq::<BlockView>::empty(),
    {
        BlockLog { blocks: Vec::new() }
    }

    /// The number of blocks.
    pub fn len(&self) -> (len: usize)
        ensures
            len == self@.len(),
    {
        self.blocks.len()
    }

    /// The height that the next block must have.
    pub fn next_height(&self) -> (height: u64)
        ensures
            height == GENESIS_HEIGHT + self@.len(),
    {
        self.blocks.len() as u64 + GENESIS_HEIGHT
    }

    /// Where the block of that height lies, if the log has reached the height.
    fn position_of(&self, height: u64) -> (position: Option<usize>)
        ensures
            position is Some <==> GENESIS_HEIGHT <= height < GENESIS_HEIGHT + self@.len(),
            position matches Some(at) ==> at == height - GENESIS_HEIGHT && self@[at as int]
                == self.blocks@[at as int]@,
    {
        let len: usize = self.blocks.len();
        if height - GENESIS_HEIGHT < len as u64 {
            Some((height - GENESIS_HEIGHT) as usize)
        } else {
            None
        }
    }

    /// Appends the block where its height follows the tip. A block that the
    /// log holds already, with the same height and the same content, is
    /// accepted again and changes nothing. Any other block comes back with
    /// `HeightConflict`, and the log stays as it was.
    pub fn append(&mut self, block: Block) -> (outcome: Result<(), Rejected>)
        requires
            old(self).wf(),
        ensures
            final(self).wf(),
            final(self)@ == appended(old(self)@, block@),
            outcome is Ok <==> accepts(old(self)@, block@),
            outcome matches Err(rejected) ==> rejected.error == LogError::HeightConflict
                && rejected.block@ == block@,
    {
        if block.height() == self.next_height() {
            proof {
                assert(block_views(self.blocks@.push(block)) =~= block_views(self.blocks@).push(
                    block@,
                ));
            }
            self.blocks.push(block);
            return Ok(());
        }
        let present: bool = match self.position_of(block.height()) {
            Some(at) => self.blocks[at].equals(&block),
            None => false,
        };
        if present {
            Ok(())
        } else {
            Err(Rejected { error: LogError::HeightConflict, block })
        }
    }

    /// The block at `height`, or `NotFound` where the log has not reached that
    /// height.
    pub fn get(&self, height: u64) -> (found: Result<&Block, LogError>)
        ensures
            match found {
                Ok(block) => GENESIS_HEIGHT <= height < GENESIS_HEIGHT + self@.len() && block@
                    == self@[height - GENESIS_HEIGHT],
                Err(error) => error == LogError::NotFound && !(GENESIS_HEIGHT <= height
                    < GENESIS_HEIGHT + self@.len()),
            },
    {
        match self.position_of(height) {
            Some(at) => Ok(&self.blocks[at]),
            None => Err(LogError::NotFound),
        }
    }

    /// The highest height and its block, or `Empty` where there is no block
    /// yet.
    pub fn tip(&self) -> (tip: Result<(u64, &Block), LogError>)
        ensures
            match tip {
                Ok((height, block)) => self@.len() > 0 && height == GENESIS_HEIGHT + self@.len()
                    - 1 && block@ == self@.last(),
                Err(error) => error == LogError::Empty && self@.len() == 0,
            },
    {
        let len: usize = self.blocks.len();
        if len == 0 {
            Err(LogError::Empty)
        } else {
            Ok(((len - 1) as u64 + GENESIS_HEIGHT, &self.blocks[len - 1]))
        }
    }
}

} // verus!
