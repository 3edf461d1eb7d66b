//! Atomic transaction bundles and the check that admits them.

use vstd::prelude::*;
use crate::error::AdmissionError;
use crate::transaction::{Transaction, TransactionView};

verus! {

/// The values of a run of transactions, one for one.
pub open spec fn views(transactions: Seq<Transaction>) -> Seq<TransactionView> {
    Seq::new(transactions.len(), |i: int| transactions[i]@)
}

/// No two members have the same identity.
pub open spec fn distinct_identities(members: Seq<TransactionView>) -> bool {
    forall|i: int, j: int|
        #![trigger members[i], members[j]]
        0 <= i < j < members.len() ==> members[i].identity() != members[j].identity()
}

/// What the validator answers for a bundle with these members: an empty bundle
/// is refused first, then one in which an identity repeats.
pub open spec fn validation_verdict(members: Seq<TransactionView>) -> Result<(), AdmissionError> {
    if members.len() == 0 {
        Err(AdmissionError::EmptyBundle)
    } else if !distinct_identities(members) {
        Err(AdmissionError::InternalDuplicate)
    } else {
        Ok(())
    }
}

/// Transactions that are sequenced together, in the given order, or not at all.
#[derive(Debug, Clone, PartialEq, Eq)]
pub struct AtomicTransactionBundle {
    members: Vec<Transaction>,
}

impl View for AtomicTransactionBundle {
    type V = Seq<TransactionView>;

    closed spec fn view(&self) -> Seq<TransactionView> {
        views(self.members@)
    }
}

impl AtomicTransactionBundle {
    /// A bundle of the given members. Any list makes a bundle; whether it may
    /// be sequenced is for [`validate`] to say.
    pub fn new(members: Vec<Transaction>) -> (bundle: AtomicTransactionBundle)
        ensures
            bundle@ == views(members@),
    {
        AtomicTransactionBundle { members }
    }

    pub fn members(&self) -> (members: &Vec<Transaction>)
        ensures
            views(members@) == self@,
    {
        &self.members
    }

    pub fn len(&self) -> (len: usize)
        ensures
            len == self@.len(),
    {
        self.members.len()
    }
}

/// Whether no member before position `at` has the identity of the member at
/// `at`.
fn distinct_from_earlier(members: &Vec<Transaction>, at: usize) -> (distinct: bool)
    requires
        at < members.len(),
    ensures
        distinct == (forall|i: int|
            0 <= i < at ==> (#[trigger] views(members@)[i]).identity() != views(members@)[at as int].identity()),
{
    let mut i: usize = 0;
    while i < at
        invariant
            i <= at < members.len(),
            forall|k: int|
                0 <= k < i ==> (#[trigger] views(members@)[k]).identity() != views(members@)[at as int].identity(),
        decreases at - i,
    {
        if members[i].same_identity(&members[at]) {
            assert(views(members@)[i as int].identity() == views(members@)[at as int].identity());
            return false;
        }
        i += 1;
    }
    true
}

/// The bundle validator: refuses a bundle without members and one in which a
/// transaction identity repeats. It looks at the bundle and at nothing else.
pub fn validate(bundle: &AtomicTransactionBundle) -> (verdict: Result<(), AdmissionError>)
    ensures
        verdict == validation_verdict(bundle@),
{
    let members = bundle.members();
    if members.len() == 0 {
        return Err(AdmissionError::EmptyBundle);
    }
    let mut j: usize = 1;
    while j < members.len()
        invariant
            1 <= j <= members.len(),
            views(members@) == bundle@,
            forall|a: int, b: int|
                #![trigger bundle@[a], bundle@[b]]
                0 <= a < b < j ==> bundle@[a].identity() != bundle@[b].identity(),
        decreases members.len() - j,
    {
        if !distinct_from_earlier(members, j) {
            return Err(AdmissionError::InternalDuplicate);
        }
        j += 1;
    }
    Ok(())
}

} // verus!
