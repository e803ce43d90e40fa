use rocketmq_broker::processor::pop_message_processor::PopMessageProcessor;
use rocketmq_broker::processor::queue_lock_manager::QueueLockManager;
use rocketmq_broker::processor::timed_lock::TimedLock;
use rocketmq_broker::records::AckMsg;
use rocketmq_broker::records::BatchAckMsg;
use rocketmq_broker::records::PopCheckPoint;

fn pause(millis: u64) {
    let runtime = tokio::runtime::Builder::new_current_thread()
        .enable_time()
        .build()
        .unwrap();
    runtime.block_on(async {
        tokio::time::sleep(tokio::time::Duration::from_millis(millis)).await;
    });
}

#[test]
fn gen_ack_unique_id_formats_correctly() {
    let ack_msg = AckMsg {
        ack_offset: 123,
        start_offset: 456,
        consumer_group: String::from("test_group"),
        topic: String::from("test_topic"),
        queue_id: 1,
        pop_time: 789,
        broker_name: String::from("test_broker"),
    };
    let result = PopMessageProcessor::gen_ack_unique_id(&ack_msg);
    let expected = "test_topic@1@123@test_group@789@test_broker@ack";
    assert_eq!(result, expected);
}

#[test]
fn gen_batch_ack_unique_id_formats_correctly() {
    let ack_msg = AckMsg {
        ack_offset: 123,
        start_offset: 456,
        consumer_group: String::from("test_group"),
        topic: String::from("test_topic"),
        queue_id: 1,
        pop_time: 789,
        broker_name: String::from("test_broker"),
    };
    let batch_ack_msg = BatchAckMsg {
        ack_msg,
        ack_offset_list: vec![1, 2, 3],
    };
    let result = PopMessageProcessor::gen_batch_ack_unique_id(&batch_ack_msg);
    let expected = "test_topic@1@[1, 2, 3]@test_group@789@bAck";
    assert_eq!(result, expected);
}

#[test]
fn gen_ck_unique_id_formats_correctly() {
    let ck = PopCheckPoint {
        topic: String::from("test_topic"),
        queue_id: 1,
        start_offset: 456,
        cid: String::from("test_cid"),
        revive_offset: 0,
        pop_time: 789,
        invisible_time: 0,
        bit_map: 0,
        broker_name: Some(String::from("test_broker")),
        num: 0,
        queue_offset_diff: vec![],
        re_put_times: None,
    };
    let result = PopMessageProcessor::gen_ck_unique_id(&ck);
    let expected = "test_topic@1@456@test_cid@789@test_broker@ck";
    assert_eq!(result, expected);
}

#[test]
fn new_timed_lock_is_unlocked() {
    let lock = TimedLock::new();
    assert!(!lock.is_locked());
}

#[test]
fn try_lock_locks_successfully() {
    let mut lock = TimedLock::new();
    assert!(lock.try_lock());
    assert!(lock.is_locked());
}

#[test]
fn try_lock_fails_when_already_locked() {
    let mut lock = TimedLock::new();
    lock.try_lock();
    assert!(!lock.try_lock());
}

#[test]
fn unlock_unlocks_successfully() {
    let mut lock = TimedLock::new();
    lock.try_lock();
    lock.unlock();
    assert!(!lock.is_locked());
}

#[test]
fn get_lock_time_returns_correct_time() {
    let mut lock = TimedLock::new();
    let initial_time = lock.get_lock_time();
    lock.try_lock();
    let lock_time = lock.get_lock_time();
    assert!(lock_time >= initial_time);
}

#[test]
fn new_queue_lock_manager_has_empty_cache() {
    let manager = QueueLockManager::new();
    assert!(manager.is_empty());
}

#[test]
fn build_lock_key_formats_correctly() {
    let topic = String::from("test_topic");
    let consumer_group = String::from("test_group");
    let queue_id = 1;
    let key = QueueLockManager::build_lock_key(&topic, &consumer_group, queue_id);
    let expected = "test_topic@test_group@1";
    assert_eq!(key, expected);
}

#[test]
fn try_lock_locks_successfully1() {
    let mut manager = QueueLockManager::new();
    let topic = String::from("test_topic");
    let consumer_group = String::from("test_group");
    let queue_id = 1;
    assert!(manager.try_lock(&topic, &consumer_group, queue_id));
}

#[test]
fn try_lock_fails_when_already_locked1() {
    let mut manager = QueueLockManager::new();
    let topic = String::from("test_topic");
    let consumer_group = String::from("test_group");
    let queue_id = 1;
    manager.try_lock(&topic, &consumer_group, queue_id);
    assert!(!manager.try_lock(&topic, &consumer_group, queue_id));
}

#[test]
fn unlock_unlocks_successfully1() {
    let mut manager = QueueLockManager::new();
    let topic = String::from("test_topic");
    let consumer_group = String::from("test_group");
    let queue_id = 1;
    manager.try_lock(&topic, &consumer_group, queue_id);
    manager.unlock(&topic, &consumer_group, queue_id);
    assert!(manager.try_lock(&topic, &consumer_group, queue_id));
}

#[test]
fn clean_unused_locks_removes_expired_locks() {
    let mut manager = QueueLockManager::new();
    let topic = String::from("test_topic");
    let consumer_group = String::from("test_group");
    let queue_id = 1;
    manager.try_lock(&topic, &consumer_group, queue_id);
    pause(10);
    let removed_count = manager.clean_unused_locks(5);
    assert_eq!(removed_count, 1);
    let removed_count = manager.clean_unused_locks(15);
    assert_eq!(removed_count, 0);
}
