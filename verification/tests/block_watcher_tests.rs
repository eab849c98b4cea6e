use block_committer::block_watcher::BlockWatcher;
use block_committer::channel::BoundedQueue;
use block_committer::errors::Error;
use block_committer::storage::{InMemoryStorage, Storage};
use block_committer::test_doubles::FakeFuelApi;
use block_committer::types::{BlockSubmission, CommitInterval, FuelBlock, L1Height};

fn given_a_block(block_height: u32) -> FuelBlock {
    FuelBlock { hash: [0u8; 32], height: block_height }
}

fn given_a_pending_submission(block_height: u32) -> BlockSubmission {
    BlockSubmission {
        block: FuelBlock { hash: [block_height as u8 + 1; 32], height: block_height },
        submittal_height: L1Height::new(block_height),
        completed: false,
    }
}

fn given_fetcher(available_blocks: Vec<FuelBlock>) -> FakeFuelApi {
    let mut fetcher = FakeFuelApi::new();
    for block in available_blocks.clone() {
        fetcher.add_block(block);
    }
    if let Some(block) = available_blocks.into_iter().max_by_key(|el| el.height) {
        fetcher.set_latest(block);
    }
    fetcher
}

fn db_with_submissions(pending_submissions: Vec<u32>) -> InMemoryStorage {
    let mut db = InMemoryStorage::new();
    for height in pending_submissions {
        db.insert(given_a_pending_submission(height)).unwrap();
    }
    db
}

fn interval(width: u32) -> CommitInterval {
    CommitInterval::new(width).unwrap()
}

#[test]
fn will_fetch_and_propagate_missed_block() {
    // given
    let tx = BoundedQueue::new(10);

    let missed_block = given_a_block(4);
    let latest_block = given_a_block(5);
    let fuel_adapter = given_fetcher(vec![latest_block, missed_block]);

    let db = db_with_submissions(vec![0, 2]);
    let mut block_watcher = BlockWatcher::new(interval(2), tx, fuel_adapter, db);

    // when
    block_watcher.run().unwrap();

    //then
    let Some(announced_block) = block_watcher.tx_fuel_block.try_recv() else {
        panic!("Didn't receive the block")
    };

    assert_eq!(missed_block, announced_block);
}

#[test]
fn will_not_reattempt_committing_missed_block() {
    // given
    let tx = BoundedQueue::new(10);

    let missed_block = given_a_block(4);
    let latest_block = given_a_block(5);
    let fuel_adapter = given_fetcher(vec![latest_block, missed_block]);

    let db = db_with_submissions(vec![0, 2, 4]);
    let mut block_watcher = BlockWatcher::new(interval(2), tx, fuel_adapter, db);

    // when
    block_watcher.run().unwrap();

    //then
    if let Some(block) = block_watcher.tx_fuel_block.try_recv() {
        panic!("Should not have received a block. Block: {block:?}");
    }
}

#[test]
fn will_not_reattempt_committing_latest_block() {
    // given
    let tx = BoundedQueue::new(10);

    let latest_block = given_a_block(6);
    let fuel_adapter = given_fetcher(vec![latest_block]);

    let db = db_with_submissions(vec![0, 2, 4, 6]);
    let mut block_watcher = BlockWatcher::new(interval(2), tx, fuel_adapter, db);

    // when
    block_watcher.run().unwrap();

    //then
    if let Some(block) = block_watcher.tx_fuel_block.try_recv() {
        panic!("Should not have received a block. Block: {block:?}");
    }
}

#[test]
fn propagates_block_if_epoch_reached() {
    // given
    let tx = BoundedQueue::new(10);

    let block = given_a_block(4);
    let fuel_adapter = given_fetcher(vec![block]);

    let db = db_with_submissions(vec![0, 2]);
    let mut block_watcher = BlockWatcher::new(interval(2), tx, fuel_adapter, db);

    // when
    block_watcher.run().unwrap();

    //then
    let Some(announced_block) = block_watcher.tx_fuel_block.try_recv() else {
        panic!("Didn't receive the block")
    };

    assert_eq!(block, announced_block);
}

#[test]
fn updates_block_metric_regardless_if_block_is_published() {
    // given
    let tx = BoundedQueue::new(10);

    let fuel_adapter = given_fetcher(vec![given_a_block(5)]);

    let db = db_with_submissions(vec![0, 2, 4]);
    let mut block_watcher = BlockWatcher::new(interval(2), tx, fuel_adapter, db);

    // when
    block_watcher.run().unwrap();

    //then
    let gauge = &block_watcher.metrics().latest_fuel_block;
    assert_eq!(gauge.name(), "latest_fuel_block");
    assert_eq!(gauge.get(), 5);
}

#[test]
fn epoch_boundary_is_the_largest_interval_multiple_not_above_the_height() {
    let watcher = BlockWatcher::new(
        interval(2),
        BoundedQueue::new(1),
        FakeFuelApi::new(),
        InMemoryStorage::new(),
    );
    assert_eq!(watcher.current_epoch_block_height(5), 4);
    assert_eq!(watcher.current_epoch_block_height(4), 4);
    assert_eq!(watcher.current_epoch_block_height(0), 0);

    let watcher = BlockWatcher::new(
        interval(3),
        BoundedQueue::new(1),
        FakeFuelApi::new(),
        InMemoryStorage::new(),
    );
    assert_eq!(watcher.current_epoch_block_height(7), 6);
    assert_eq!(watcher.current_epoch_block_height(2), 0);

    let watcher = BlockWatcher::new(
        interval(1),
        BoundedQueue::new(1),
        FakeFuelApi::new(),
        InMemoryStorage::new(),
    );
    assert_eq!(watcher.current_epoch_block_height(9), 9);
}

#[test]
fn epoch_block_is_served_from_the_first_fetch_without_a_second_read() {
    // The reader serves nothing by height: a second read would fail the run.
    let mut fuel_adapter = FakeFuelApi::new();
    let block = given_a_block(4);
    fuel_adapter.set_latest(block);

    let db = db_with_submissions(vec![0, 2]);
    let mut block_watcher = BlockWatcher::new(interval(2), BoundedQueue::new(10), fuel_adapter, db);

    block_watcher.run().unwrap();

    assert_eq!(block_watcher.tx_fuel_block.try_recv(), Some(block));
}

#[test]
fn unreachable_fuel_node_surfaces_as_a_network_error() {
    let fuel_adapter = FakeFuelApi::new();
    let mut block_watcher = BlockWatcher::new(
        interval(2),
        BoundedQueue::new(10),
        fuel_adapter,
        InMemoryStorage::new(),
    );

    let err = block_watcher.run().unwrap_err();

    assert!(matches!(err, Error::Network(_)));
    assert_eq!(block_watcher.metrics().latest_fuel_block.get(), 0);
}

#[test]
fn missing_epoch_boundary_block_surfaces_as_an_other_error() {
    // The latest block sits past the boundary, and the boundary block is gone.
    let mut fuel_adapter = FakeFuelApi::new();
    fuel_adapter.set_latest(given_a_block(5));

    let db = db_with_submissions(vec![0, 2]);
    let mut block_watcher = BlockWatcher::new(interval(2), BoundedQueue::new(10), fuel_adapter, db);

    let err = block_watcher.run().unwrap_err();

    assert!(matches!(err, Error::Other(_)));
}

#[test]
fn full_handoff_queue_surfaces_as_an_other_error() {
    let fuel_adapter = given_fetcher(vec![given_a_block(4)]);
    let db = db_with_submissions(vec![0, 2]);
    let mut block_watcher = BlockWatcher::new(interval(2), BoundedQueue::new(0), fuel_adapter, db);

    let err = block_watcher.run().unwrap_err();

    assert!(matches!(err, Error::Other(_)));
    // The height gauge was still updated before the send failed.
    assert_eq!(block_watcher.metrics().latest_fuel_block.get(), 4);
}
