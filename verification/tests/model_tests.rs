use block_committer::channel::BoundedQueue;
use block_committer::errors::Error;
use block_committer::l1;
use block_committer::storage;
use block_committer::storage::{InMemoryStorage, Storage};
use block_committer::types::{
    BlockSubmission, CommitInterval, FuelBlock, InvalidL1Height, L1Height,
};

fn submission(seed: u8, height: u32) -> BlockSubmission {
    BlockSubmission {
        block: FuelBlock { hash: [seed; 32], height },
        submittal_height: L1Height::new(height),
        completed: false,
    }
}

#[test]
fn commit_interval_construction_rejects_zero() {
    assert!(CommitInterval::new(0).is_none());
    let two = CommitInterval::new(2).unwrap();
    assert_eq!(two.get(), 2);
}

#[test]
fn l1_height_construction_validates_the_raw_value() {
    assert_eq!(L1Height::try_from_raw(5).unwrap().get(), 5);
    assert_eq!(L1Height::try_from_raw(0).unwrap().get(), 0);
    assert_eq!(L1Height::try_from_raw(-1), Err(InvalidL1Height));
    assert_eq!(L1Height::try_from_raw(4_294_967_296), Err(InvalidL1Height));
    assert_eq!(L1Height::try_from_raw(4_294_967_295).unwrap().get(), u32::MAX);
}

#[test]
fn invalid_height_converts_to_a_logical_l1_error() {
    let err = l1::Error::from_invalid_height(InvalidL1Height);
    assert!(matches!(err, l1::Error::Other(m) if m == "invalid L1 height"));
}

#[test]
fn storage_errors_convert_to_the_storage_classification() {
    let err = Error::from_storage(storage::Error::NotFound);
    assert!(matches!(err, Error::Storage(m) if m == "submission not found"));
    let err = Error::from_storage(storage::Error::DuplicateEntry);
    assert!(matches!(err, Error::Storage(m) if m == "duplicate submission"));
    let err = Error::from_storage(storage::Error::AlreadyCompleted);
    assert!(matches!(err, Error::Storage(m) if m == "submission already completed"));
}

#[test]
fn insert_rejects_a_duplicate_block_hash() {
    let mut db = InMemoryStorage::new();
    db.insert(submission(1, 10)).unwrap();

    let same_hash_other_height = submission(1, 11);
    assert_eq!(db.insert(same_hash_other_height), Err(storage::Error::DuplicateEntry));

    // The rejected record did not land.
    let latest = db.submission_w_latest_block().unwrap().unwrap();
    assert_eq!(latest.block.height, 10);
}

#[test]
fn latest_submission_is_the_greatest_height() {
    let mut db = InMemoryStorage::new();
    assert_eq!(db.submission_w_latest_block().unwrap(), None);

    db.insert(submission(1, 10)).unwrap();
    db.insert(submission(2, 30)).unwrap();
    db.insert(submission(3, 20)).unwrap();

    let latest = db.submission_w_latest_block().unwrap().unwrap();
    assert_eq!(latest, submission(2, 30));
}

#[test]
fn latest_submission_prefers_the_earliest_on_a_height_tie() {
    let mut db = InMemoryStorage::new();
    db.insert(submission(1, 10)).unwrap();
    db.insert(submission(2, 10)).unwrap();

    let latest = db.submission_w_latest_block().unwrap().unwrap();
    assert_eq!(latest, submission(1, 10));
}

#[test]
fn mark_completed_fails_for_an_unknown_hash() {
    let mut db = InMemoryStorage::new();
    db.insert(submission(1, 10)).unwrap();

    assert_eq!(db.set_submission_completed([9u8; 32]), Err(storage::Error::NotFound));
}

#[test]
fn mark_completed_flips_the_record_once_and_only_once() {
    let mut db = InMemoryStorage::new();
    db.insert(submission(1, 10)).unwrap();

    let updated = db.set_submission_completed([1u8; 32]).unwrap();
    assert!(updated.completed);
    assert_eq!(updated.block.height, 10);

    // The documented choice: completing twice is an error, not a no-op.
    assert_eq!(db.set_submission_completed([1u8; 32]), Err(storage::Error::AlreadyCompleted));

    // The record itself stays completed.
    let latest = db.submission_w_latest_block().unwrap().unwrap();
    assert!(latest.completed);
}

#[test]
fn bounded_queue_applies_backpressure_at_capacity() {
    let mut queue = BoundedQueue::new(1);
    let first = FuelBlock { hash: [1u8; 32], height: 1 };
    let second = FuelBlock { hash: [2u8; 32], height: 2 };

    assert_eq!(queue.send(first), Ok(()));
    assert_eq!(queue.send(second), Err(second));

    assert_eq!(queue.try_recv(), Some(first));
    assert_eq!(queue.try_recv(), None);

    assert_eq!(queue.send(second), Ok(()));
    assert_eq!(queue.try_recv(), Some(second));
}
