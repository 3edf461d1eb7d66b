//! Plain-value forms of the EVM data that travels with sequenced
//! transactions: the encoded transaction, block headers, and the block
//! environment that an execution engine is started with.

use vstd::prelude::*;
use std::ops::Range;

verus! {

/// The gas limit of an Ethereum block.
pub const ETHEREUM_BLOCK_GAS_LIMIT: u64 = 30_000_000;

/// RLP encoded evm transaction.
#[derive(Debug, PartialEq, Clone)]
pub struct RlpEvmTransaction {
    /// Rlp data.
    pub rlp: Vec<u8>,
}

/// The fields of a block header that the block environment is made from.
#[derive(Debug, PartialEq, Clone)]
pub struct Header {
    pub number: u64,
    /// The account that receives the block's fees.
    pub beneficiary: [u8; 20],
    pub timestamp: u64,
    pub mix_hash: [u8; 32],
    /// The base fee; headers from before the London upgrade have none.
    pub base_fee_per_gas: Option<u64>,
    pub gas_limit: u64,
}

/// A header together with its hash.
#[derive(Debug, PartialEq, Clone)]
pub struct SealedHeader {
    pub header: Header,
    pub hash: [u8; 32],
}

/// A block of EVM transactions, named by their range of numbers.
#[derive(Debug, PartialEq)]
pub struct Block {
    /// Block header.
    pub header: Header,
    /// Transactions in this block.
    pub transactions: Range<u64>,
}

/// A block whose header carries its hash.
#[derive(Debug, PartialEq)]
pub struct SealedBlock {
    /// Block header.
    pub header: SealedHeader,
    /// Transactions in this block.
    pub transactions: Range<u64>,
}

impl Block {
    /// Seals the block with the hash of its header. The hash is taken over the
    /// header's full encoding, which these plain values do not hold, so the
    /// caller brings it.
    pub fn seal(self, hash: [u8; 32]) -> (sealed: SealedBlock)
        ensures
            sealed.header.header == self.header,
            sealed.header.hash == hash,
            sealed.transactions == self.transactions,
    {
        SealedBlock {
            header: SealedHeader { header: self.header, hash },
            transactions: self.transactions,
        }
    }
}

/// `len` bytes, all zero.
pub open spec fn zeroes(len: nat) -> Seq<u8> {
    Seq::new(len, |i: int| 0u8)
}

/// What an execution engine needs to know of the block that it executes in.
#[derive(Debug, PartialEq, Clone)]
pub struct BlockEnv {
    pub number: u64,
    /// A coinbase account
    pub coinbase: [u8; 20],
    pub timestamp: u64,
    /// Prevrandao is used after Paris (aka TheMerge) instead of the difficulty value.
    pub prevrandao: [u8; 32],
    /// basefee is added in EIP1559 London upgrade
    pub basefee: u64,
    pub gas_limit: u64,
}

impl Default for BlockEnv {
    /// Everything zero but the gas limit, which is that of an Ethereum block.
    fn default() -> (env: BlockEnv)
        ensures
            env.number == 0,
            env.coinbase@ == zeroes(20),
            env.timestamp == 0,
            env.prevrandao@ == zeroes(32),
            env.basefee == 0,
            env.gas_limit == ETHEREUM_BLOCK_GAS_LIMIT,
    {
        BlockEnv {
            number: 0,
            coinbase: [0u8; 20],
            timestamp: 0,
            prevrandao: [0u8; 32],
            basefee: 0,
            gas_limit: ETHEREUM_BLOCK_GAS_LIMIT,
        }
    }
}

impl<'a> From<&'a SealedBlock> for BlockEnv {
    /// The environment of a sealed block: its header's fields, with a base
    /// fee of zero where the header has none.
    fn from(block: &'a SealedBlock) -> (env: BlockEnv) {
        BlockEnv {
            number: block.header.header.number,
            coinbase: block.header.header.beneficiary,
            timestamp: block.header.header.timestamp,
            prevrandao: block.header.header.mix_hash,
            basefee: match block.header.header.base_fee_per_gas {
                Some(fee) => fee,
                None => 0,
            },
            gas_limit: block.header.header.gas_limit,
        }
    }
}

impl<'a> vstd::std_specs::convert::FromSpecImpl<&'a SealedBlock> for BlockEnv {
    open spec fn obeys_from_spec() -> bool {
        true
    }

    open spec fn from_spec(block: &'a SealedBlock) -> BlockEnv {
        BlockEnv {
            number: block.header.header.number,
            coinbase: block.header.header.beneficiary,
            timestamp: block.header.header.timestamp,
            prevrandao: block.header.header.mix_hash,
            basefee: match block.header.header.base_fee_per_gas {
                Some(fee) => fee,
                None => 0,
            },
            gas_limit: block.header.header.gas_limit,
        }
    }
}

} // verus!
