use sequencer::bundle::AtomicTransactionBundle;
use sequencer::entry::Entry;
use sequencer::error::AdmissionError;
use sequencer::queue::{clash_among, SubmissionQueue};
use sequencer::transaction::Transaction;

fn single(payload: &[u8]) -> Entry {
    Entry::Single(Transaction::new(1, payload.to_vec()))
}

fn bundle(payloads: &[&[u8]]) -> Entry {
    Entry::Bundle(AtomicTransactionBundle::new(
        payloads.iter().map(|p| Transaction::new(1, p.to_vec())).collect(),
    ))
}

fn staged(queue: &SubmissionQueue) -> Vec<Entry> {
    let mut all = Vec::new();
    let mut at = 0;
    while let Some(entry) = queue.get(at) {
        all.push(entry.clone());
        at += 1;
    }
    all
}

#[test]
fn new_queue_is_empty() {
    let queue = SubmissionQueue::new(4);
    assert_eq!(queue.len(), 0);
    assert!(queue.is_empty());
    assert_eq!(queue.capacity(), 4);
    assert!(queue.get(0).is_none());
}

#[test]
fn admitted_entries_are_staged_in_arrival_order() {
    let mut queue = SubmissionQueue::new(8);
    let none = Vec::new();
    assert_eq!(queue.admit_entry(single(b"a"), &none), Ok(()));
    assert_eq!(queue.admit_entry(bundle(&[b"b", b"c"]), &none), Ok(()));
    assert_eq!(queue.admit_entry(single(b"d"), &none), Ok(()));
    assert_eq!(queue.len(), 3);
    assert_eq!(staged(&queue), vec![single(b"a"), bundle(&[b"b", b"c"]), single(b"d")]);
    assert!(queue.get(3).is_none());
}

#[test]
fn a_full_queue_refuses_with_queue_full() {
    let mut queue = SubmissionQueue::new(2);
    let none = Vec::new();
    assert_eq!(queue.admit_entry(single(b"a"), &none), Ok(()));
    assert_eq!(queue.admit_entry(single(b"b"), &none), Ok(()));
    assert_eq!(queue.admit_entry(single(b"c"), &none), Err(AdmissionError::QueueFull));
    assert_eq!(staged(&queue), vec![single(b"a"), single(b"b")]);
}

#[test]
fn a_queue_without_capacity_admits_nothing() {
    let mut queue = SubmissionQueue::new(0);
    assert_eq!(queue.admit_entry(single(b"a"), &Vec::new()), Err(AdmissionError::QueueFull));
    assert!(queue.is_empty());
}

#[test]
fn a_full_queue_is_reported_before_a_duplicate() {
    let mut queue = SubmissionQueue::new(1);
    let none = Vec::new();
    assert_eq!(queue.admit_entry(single(b"a"), &none), Ok(()));
    assert_eq!(queue.admit_entry(single(b"a"), &none), Err(AdmissionError::QueueFull));
}

#[test]
fn a_staged_identity_is_refused_with_duplicate_member() {
    let mut queue = SubmissionQueue::new(8);
    let none = Vec::new();
    assert_eq!(queue.admit_entry(single(b"a"), &none), Ok(()));
    assert_eq!(queue.admit_entry(bundle(&[b"b", b"c"]), &none), Ok(()));
    assert_eq!(queue.admit_entry(single(b"a"), &none), Err(AdmissionError::DuplicateMember));
    assert_eq!(queue.admit_entry(single(b"c"), &none), Err(AdmissionError::DuplicateMember));
    assert_eq!(
        queue.admit_entry(bundle(&[b"x", b"b"]), &none),
        Err(AdmissionError::DuplicateMember)
    );
    assert_eq!(
        queue.admit_entry(Entry::Single(Transaction::new(99, b"a".to_vec())), &none),
        Err(AdmissionError::DuplicateMember)
    );
    assert_eq!(queue.len(), 2);
}

#[test]
fn an_identity_in_flight_is_refused_with_duplicate_member() {
    let mut queue = SubmissionQueue::new(8);
    let in_flight = vec![single(b"a"), bundle(&[b"b", b"c"])];
    assert_eq!(queue.admit_entry(single(b"c"), &in_flight), Err(AdmissionError::DuplicateMember));
    assert_eq!(queue.admit_entry(single(b"a"), &in_flight), Err(AdmissionError::DuplicateMember));
    assert_eq!(queue.admit_entry(single(b"d"), &in_flight), Ok(()));
    assert_eq!(staged(&queue), vec![single(b"d")]);
}

#[test]
fn a_malformed_bundle_is_refused_before_the_queue_is_looked_at() {
    let mut queue = SubmissionQueue::new(1);
    let none = Vec::new();
    assert_eq!(queue.admit_entry(single(b"a"), &none), Ok(()));
    assert_eq!(queue.admit_entry(bundle(&[]), &none), Err(AdmissionError::EmptyBundle));
    assert_eq!(
        queue.admit_entry(bundle(&[b"a", b"a"]), &none),
        Err(AdmissionError::InternalDuplicate)
    );
    assert_eq!(staged(&queue), vec![single(b"a")]);
}

#[test]
fn drain_takes_up_to_the_entry_bound_from_the_head() {
    let mut queue = SubmissionQueue::new(8);
    let none = Vec::new();
    for payload in [b"a", b"b", b"c"] {
        assert_eq!(queue.admit_entry(single(payload), &none), Ok(()));
    }
    let drained = queue.drain(2, usize::MAX);
    assert_eq!(drained, vec![single(b"a"), single(b"b")]);
    assert_eq!(staged(&queue), vec![single(b"c")]);
    let drained = queue.drain(2, usize::MAX);
    assert_eq!(drained, vec![single(b"c")]);
    assert!(queue.is_empty());
    assert_eq!(queue.drain(2, usize::MAX), Vec::new());
}

#[test]
fn drain_stops_before_the_entry_that_breaks_the_byte_bound() {
    let mut queue = SubmissionQueue::new(8);
    let none = Vec::new();
    assert_eq!(queue.admit_entry(single(b"1234"), &none), Ok(()));
    assert_eq!(queue.admit_entry(bundle(&[b"56", b"789"]), &none), Ok(()));
    assert_eq!(queue.admit_entry(single(b"x"), &none), Ok(()));
    // 4 bytes, then 5 more: 9 fit into 9, and the third entry does not.
    let drained = queue.drain(10, 9);
    assert_eq!(drained, vec![single(b"1234"), bundle(&[b"56", b"789"])]);
    assert_eq!(staged(&queue), vec![single(b"x")]);
}

#[test]
fn drain_never_splits_a_bundle() {
    let mut queue = SubmissionQueue::new(8);
    let none = Vec::new();
    assert_eq!(queue.admit_entry(single(b"1234"), &none), Ok(()));
    assert_eq!(queue.admit_entry(bundle(&[b"56", b"789"]), &none), Ok(()));
    // 8 bytes would hold the first member of the bundle, not the bundle.
    let drained = queue.drain(10, 8);
    assert_eq!(drained, vec![single(b"1234")]);
    assert_eq!(staged(&queue), vec![bundle(&[b"56", b"789"])]);
}

#[test]
fn drain_with_a_zero_bound_takes_nothing() {
    let mut queue = SubmissionQueue::new(8);
    assert_eq!(queue.admit_entry(single(b"a"), &Vec::new()), Ok(()));
    assert_eq!(queue.drain(0, usize::MAX), Vec::new());
    assert_eq!(queue.drain(5, 0), Vec::new());
    assert_eq!(queue.len(), 1);
}

#[test]
fn drain_takes_entries_without_payload_at_no_cost() {
    let mut queue = SubmissionQueue::new(8);
    assert_eq!(queue.admit_entry(single(b""), &Vec::new()), Ok(()));
    assert_eq!(queue.drain(5, 0), vec![single(b"")]);
}

#[test]
fn an_entry_too_large_for_the_byte_bound_holds_the_queue() {
    let mut queue = SubmissionQueue::new(8);
    let none = Vec::new();
    assert_eq!(queue.admit_entry(single(b"too large"), &none), Ok(()));
    assert_eq!(queue.admit_entry(single(b"s"), &none), Ok(()));
    assert_eq!(queue.drain(10, 4), Vec::new());
    assert_eq!(queue.len(), 2);
}

#[test]
fn admission_after_a_drain_lands_behind_what_stayed() {
    let mut queue = SubmissionQueue::new(8);
    let none = Vec::new();
    for payload in [b"a", b"b", b"c"] {
        assert_eq!(queue.admit_entry(single(payload), &none), Ok(()));
    }
    let drained = queue.drain(1, usize::MAX);
    assert_eq!(drained, vec![single(b"a")]);
    assert_eq!(queue.admit_entry(single(b"d"), &none), Ok(()));
    assert_eq!(queue.drain(10, usize::MAX), vec![single(b"b"), single(b"c"), single(b"d")]);
}

#[test]
fn a_drained_identity_may_be_staged_again() {
    let mut queue = SubmissionQueue::new(8);
    let none = Vec::new();
    assert_eq!(queue.admit_entry(single(b"a"), &none), Ok(()));
    let _ = queue.drain(1, usize::MAX);
    assert_eq!(queue.admit_entry(single(b"a"), &none), Ok(()));
}

#[test]
fn requeue_front_restores_the_batch_at_the_head_in_order() {
    let mut queue = SubmissionQueue::new(8);
    let none = Vec::new();
    for payload in [b"a", b"b", b"c"] {
        assert_eq!(queue.admit_entry(single(payload), &none), Ok(()));
    }
    let drained = queue.drain(2, usize::MAX);
    assert_eq!(queue.admit_entry(single(b"d"), &drained), Ok(()));
    queue.requeue_front(drained);
    assert_eq!(staged(&queue), vec![single(b"a"), single(b"b"), single(b"c"), single(b"d")]);
}

#[test]
fn requeue_front_may_exceed_the_capacity_and_admission_then_waits() {
    let mut queue = SubmissionQueue::new(2);
    let none = Vec::new();
    assert_eq!(queue.admit_entry(single(b"a"), &none), Ok(()));
    assert_eq!(queue.admit_entry(single(b"b"), &none), Ok(()));
    let drained = queue.drain(2, usize::MAX);
    assert_eq!(queue.admit_entry(single(b"c"), &drained), Ok(()));
    assert_eq!(queue.admit_entry(single(b"d"), &drained), Ok(()));
    queue.requeue_front(drained);
    assert_eq!(queue.len(), 4);
    assert_eq!(queue.admit_entry(single(b"e"), &none), Err(AdmissionError::QueueFull));
}

#[test]
fn holds_bytes_compares_the_staged_payload_with_a_threshold() {
    let mut queue = SubmissionQueue::new(8);
    let none = Vec::new();
    assert!(queue.holds_bytes(0));
    assert!(!queue.holds_bytes(1));
    assert_eq!(queue.admit_entry(single(b"123"), &none), Ok(()));
    assert_eq!(queue.admit_entry(bundle(&[b"45", b"6"]), &none), Ok(()));
    assert!(queue.holds_bytes(0));
    assert!(queue.holds_bytes(3));
    assert!(queue.holds_bytes(5));
    assert!(queue.holds_bytes(6));
    assert!(!queue.holds_bytes(7));
    assert!(!queue.holds_bytes(usize::MAX));
}

#[test]
fn clash_among_looks_at_every_member() {
    let entries = vec![single(b"a"), bundle(&[b"b", b"c"])];
    assert!(clash_among(&entries, &single(b"c")));
    assert!(clash_among(&entries, &bundle(&[b"z", b"a"])));
    assert!(!clash_among(&entries, &single(b"d")));
    assert!(!clash_among(&Vec::new(), &single(b"a")));
}

#[test]
fn set_capacity_changes_what_is_admitted_and_nothing_else() {
    let mut queue = SubmissionQueue::new(1);
    let none = Vec::new();
    assert_eq!(queue.admit_entry(single(b"a"), &none), Ok(()));
    assert_eq!(queue.admit_entry(single(b"b"), &none), Err(AdmissionError::QueueFull));
    queue.set_capacity(2);
    assert_eq!(queue.capacity(), 2);
    assert_eq!(queue.admit_entry(single(b"b"), &none), Ok(()));
    queue.set_capacity(0);
    assert_eq!(staged(&queue), vec![single(b"a"), single(b"b")]);
    assert_eq!(queue.admit_entry(single(b"c"), &none), Err(AdmissionError::QueueFull));
    assert_eq!(queue.drain(5, usize::MAX), vec![single(b"a"), single(b"b")]);
    assert_eq!(queue.admit_entry(single(b"c"), &none), Err(AdmissionError::QueueFull));
}
