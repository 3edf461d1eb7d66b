//! Transactions: opaque payloads addressed to an execution domain.

use vstd::prelude::*;

verus! {

/// The mathematical value of a [`Transaction`].
pub struct TransactionView {
    pub domain: u64,
    pub payload: Seq<u8>,
}

impl TransactionView {
    /// The identity of a transaction is its content: two transactions are the
    /// same transaction exactly when their payloads agree byte for byte.
    pub open spec fn identity(self) -> Seq<u8> {
        self.payload
    }
}

/// An immutable payload together with the execution domain it is meant for.
#[derive(Debug, Clone, PartialEq, Eq)]
pub struct Transaction {
    domain: u64,
    payload: Vec<u8>,
}

impl View for Transaction {
    type V = TransactionView;

    closed spec fn view(&self) -> TransactionView {
        TransactionView { domain: self.domain, payload: self.payload@ }
    }
}

impl Transaction {
    pub fn new(domain: u64, payload: Vec<u8>) -> (transaction: Transaction)
        ensures
            transaction@ == (TransactionView { domain, payload: payload@ }),
    {
        Transaction { domain, payload }
    }

    pub fn domain(&self) -> (domain: u64)
        ensures
            domain == self@.domain,
    {
        self.domain
    }

    pub fn payload(&self) -> (payload: &Vec<u8>)
        ensures
            payload@ == self@.payload,
    {
        &self.payload
    }

    /// The number of payload bytes.
    pub fn byte_len(&self) -> (len: usize)
        ensures
            len == self@.payload.len(),
    {
        self.payload.len()
    }

    /// Whether two transactions are the same value: same domain, same payload.
    pub fn equals(&self, other: &Transaction) -> (equal: bool)
        ensures
            equal == (self@ == other@),
    {
        self.domain == other.domain && self.same_identity(other)
    }

    /// Whether two transactions carry the same identity.
    pub fn same_identity(&self, other: &Transaction) -> (same: bool)
        ensures
            same == (self@.identity() == other@.identity()),
    {
        let same: bool = self.payload == other.payload;
        proof {
            if same {
                assert(self.payload@ =~= other.payload@);
            }
        }
        same
    }
}

} // verus!
