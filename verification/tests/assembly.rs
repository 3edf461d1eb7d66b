use sequencer::assembler::{assemble, due, elapsed, form_block, settle, AssemblyPolicy};
use sequencer::block::Block;
use sequencer::bundle::AtomicTransactionBundle;
use sequencer::entry::Entry;
use sequencer::error::LogError;
use sequencer::log::BlockLog;
use sequencer::queue::SubmissionQueue;
use sequencer::transaction::Transaction;

fn single(payload: &[u8]) -> Entry {
    Entry::Single(Transaction::new(1, payload.to_vec()))
}

fn bundle(payloads: &[&[u8]]) -> Entry {
    Entry::Bundle(AtomicTransactionBundle::new(
        payloads.iter().map(|p| Transaction::new(1, p.to_vec())).collect(),
    ))
}

fn queue_of(entries: Vec<Entry>) -> SubmissionQueue {
    let mut queue = SubmissionQueue::new(64);
    let none = Vec::new();
    for entry in entries {
        assert_eq!(queue.admit_entry(entry, &none), Ok(()));
    }
    queue
}

fn staged(queue: &SubmissionQueue) -> Vec<Entry> {
    let mut all = Vec::new();
    let mut at = 0;
    while let Some(entry) = queue.get(at) {
        all.push(entry.clone());
        at += 1;
    }
    all
}

fn policy(max_entries: usize, max_bytes: usize, max_wait: u64) -> AssemblyPolicy {
    AssemblyPolicy { max_entries, max_bytes, max_wait }
}

#[test]
fn elapsed_is_the_difference_and_never_negative() {
    assert_eq!(elapsed(10, 25), 15);
    assert_eq!(elapsed(10, 10), 0);
    assert_eq!(elapsed(25, 10), 0);
    assert_eq!(elapsed(0, u64::MAX), u64::MAX);
}

#[test]
fn nothing_is_due_for_an_empty_queue() {
    let queue = SubmissionQueue::new(8);
    assert!(!due(&queue, &policy(1, 1, 0), u64::MAX));
    assert!(!due(&queue, &policy(0, 0, 0), 0));
}

#[test]
fn a_block_is_due_at_the_entry_threshold() {
    let p = policy(2, usize::MAX, 100);
    assert!(!due(&queue_of(vec![single(b"a")]), &p, 0));
    assert!(due(&queue_of(vec![single(b"a"), single(b"b")]), &p, 0));
    assert!(due(&queue_of(vec![single(b"a"), single(b"b"), single(b"c")]), &p, 0));
}

#[test]
fn a_block_is_due_at_the_byte_threshold() {
    let p = policy(100, 5, 100);
    assert!(!due(&queue_of(vec![single(b"1234")]), &p, 0));
    assert!(due(&queue_of(vec![single(b"12345")]), &p, 0));
    assert!(due(&queue_of(vec![single(b"12"), bundle(&[b"3", b"45"])]), &p, 0));
}

#[test]
fn a_block_is_due_at_the_time_threshold() {
    let p = policy(100, usize::MAX, 50);
    let queue = queue_of(vec![single(b"a")]);
    assert!(!due(&queue, &p, 49));
    assert!(due(&queue, &p, 50));
    assert!(due(&queue, &p, 51));
}

#[test]
fn form_block_drains_the_head_into_a_block() {
    let mut queue = queue_of(vec![single(b"a"), bundle(&[b"b", b"c"]), single(b"d")]);
    let block = form_block(&mut queue, &policy(2, usize::MAX, 0), 7).unwrap();
    assert_eq!(block, Block::new(7, vec![single(b"a"), bundle(&[b"b", b"c"])]));
    assert_eq!(staged(&queue), vec![single(b"d")]);
}

#[test]
fn form_block_makes_no_block_of_nothing() {
    let mut empty = SubmissionQueue::new(8);
    assert_eq!(form_block(&mut empty, &policy(2, usize::MAX, 0), 0), None);
    let mut held = queue_of(vec![single(b"too large")]);
    assert_eq!(form_block(&mut held, &policy(2, 3, 0), 0), None);
    assert_eq!(staged(&held), vec![single(b"too large")]);
}

#[test]
fn settle_appends_the_block_that_follows_the_tip() {
    let mut queue = queue_of(vec![single(b"c")]);
    let mut log = BlockLog::new();
    assert_eq!(settle(&mut queue, &mut log, Block::new(0, vec![single(b"a")])), Ok(0));
    assert_eq!(settle(&mut queue, &mut log, Block::new(1, vec![single(b"b")])), Ok(1));
    assert_eq!(log.len(), 2);
    assert_eq!(staged(&queue), vec![single(b"c")]);
}

#[test]
fn settle_requeues_a_refused_batch_at_the_head() {
    let mut queue = queue_of(vec![single(b"a"), bundle(&[b"b", b"c"]), single(b"d")]);
    let mut log = BlockLog::new();
    // The block is cut for height 1, but the log is still empty.
    let block = form_block(&mut queue, &policy(2, usize::MAX, 0), 1).unwrap();
    assert_eq!(queue.admit_entry(single(b"e"), block.entries()), Ok(()));
    assert_eq!(settle(&mut queue, &mut log, block), Err(LogError::HeightConflict));
    assert_eq!(log.len(), 0);
    assert_eq!(
        staged(&queue),
        vec![single(b"a"), bundle(&[b"b", b"c"]), single(b"d"), single(b"e")]
    );
}

#[test]
fn settle_accepts_a_block_that_the_log_holds_already() {
    let mut queue = SubmissionQueue::new(8);
    let mut log = BlockLog::new();
    assert_eq!(settle(&mut queue, &mut log, Block::new(0, vec![single(b"a")])), Ok(0));
    assert_eq!(settle(&mut queue, &mut log, Block::new(0, vec![single(b"a")])), Ok(0));
    assert_eq!(log.len(), 1);
    assert!(queue.is_empty());
}

#[test]
fn assemble_cuts_the_next_block_when_one_is_due() {
    let mut queue = queue_of(vec![single(b"a"), single(b"b"), single(b"c")]);
    let mut log = BlockLog::new();
    let p = policy(2, usize::MAX, 100);
    assert_eq!(assemble(&mut queue, &mut log, &p, 0), Ok(Some(0)));
    assert_eq!(log.get(0), Ok(&Block::new(0, vec![single(b"a"), single(b"b")])));
    // One entry is left: below the entry threshold, and the time is not up.
    assert_eq!(assemble(&mut queue, &mut log, &p, 99), Ok(None));
    assert_eq!(log.len(), 1);
    assert_eq!(assemble(&mut queue, &mut log, &p, 100), Ok(Some(1)));
    assert_eq!(log.get(1), Ok(&Block::new(1, vec![single(b"c")])));
    assert!(queue.is_empty());
    assert_eq!(assemble(&mut queue, &mut log, &p, u64::MAX), Ok(None));
    assert_eq!(log.len(), 2);
}

#[test]
fn assemble_emits_no_empty_block() {
    let mut queue = SubmissionQueue::new(8);
    let mut log = BlockLog::new();
    assert_eq!(assemble(&mut queue, &mut log, &policy(2, 10, 0), u64::MAX), Ok(None));
    assert_eq!(log.len(), 0);
    let mut held = queue_of(vec![single(b"too large")]);
    assert_eq!(assemble(&mut held, &mut log, &policy(2, 3, 0), u64::MAX), Ok(None));
    assert_eq!(log.len(), 0);
    assert_eq!(held.len(), 1);
}

#[test]
fn assemble_respects_the_byte_bound_of_a_block() {
    let mut queue = queue_of(vec![single(b"123"), single(b"456"), single(b"789")]);
    let mut log = BlockLog::new();
    let p = policy(10, 6, 0);
    assert_eq!(assemble(&mut queue, &mut log, &p, 0), Ok(Some(0)));
    assert_eq!(log.get(0), Ok(&Block::new(0, vec![single(b"123"), single(b"456")])));
    assert_eq!(assemble(&mut queue, &mut log, &p, 0), Ok(Some(1)));
    assert_eq!(log.get(1), Ok(&Block::new(1, vec![single(b"789")])));
}
