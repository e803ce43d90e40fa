use rocketmq_broker::processor::pop_message_processor::PopMessageProcessor;
use rocketmq_broker::processor::queue_lock_manager::QueueLockManager;
use rocketmq_broker::records::AckMsg;
use rocketmq_broker::records::BatchAckMsg;
use rocketmq_broker::records::PopCheckPoint;

fn ack(
    topic: &str,
    queue_id: i32,
    ack_offset: i64,
    group: &str,
    pop_time: i64,
    broker: &str,
) -> AckMsg {
    AckMsg {
        ack_offset,
        start_offset: 456,
        consumer_group: String::from(group),
        topic: String::from(topic),
        queue_id,
        pop_time,
        broker_name: String::from(broker),
    }
}

fn check_point(broker_name: Option<&str>) -> PopCheckPoint {
    PopCheckPoint {
        topic: String::from("test_topic"),
        queue_id: 1,
        start_offset: 456,
        cid: String::from("test_cid"),
        revive_offset: 0,
        pop_time: 789,
        invisible_time: 0,
        bit_map: 0,
        broker_name: broker_name.map(String::from),
        num: 0,
        queue_offset_diff: vec![],
        re_put_times: None,
    }
}

#[test]
fn checkpoint_without_broker_name_shows_null() {
    let id = PopMessageProcessor::gen_ck_unique_id(&check_point(None));
    assert_eq!(id, "test_topic@1@456@test_cid@789@null@ck");
}

#[test]
fn checkpoint_named_null_and_unnamed_are_shown_alike() {
    let unnamed = PopMessageProcessor::gen_ck_unique_id(&check_point(None));
    let named = PopMessageProcessor::gen_ck_unique_id(&check_point(Some("null")));
    assert_eq!(unnamed, named);
}

#[test]
fn checkpoint_id_leaves_the_payload_out() {
    let mut ck = check_point(Some("test_broker"));
    ck.revive_offset = 17;
    ck.invisible_time = 30_000;
    ck.bit_map = 5;
    ck.num = 3;
    ck.queue_offset_diff = vec![0, 1, 2];
    ck.re_put_times = Some(String::from("2"));
    let id = PopMessageProcessor::gen_ck_unique_id(&ck);
    assert_eq!(id, "test_topic@1@456@test_cid@789@test_broker@ck");
}

#[test]
fn ack_id_with_negative_numbers() {
    let id = PopMessageProcessor::gen_ack_unique_id(&ack("t", -1, -123, "g", -789, "b"));
    assert_eq!(id, "t@-1@-123@g@-789@b@ack");
}

#[test]
fn ack_id_with_the_largest_numbers() {
    let id = PopMessageProcessor::gen_ack_unique_id(&ack(
        "t",
        i32::MIN,
        i64::MAX,
        "g",
        i64::MIN,
        "b",
    ));
    assert_eq!(
        id,
        "t@-2147483648@9223372036854775807@g@-9223372036854775808@b@ack"
    );
}

#[test]
fn ack_id_with_empty_names() {
    let id = PopMessageProcessor::gen_ack_unique_id(&ack("", 0, 0, "", 0, ""));
    assert_eq!(id, "@0@0@@0@@ack");
}

#[test]
fn ack_id_leaves_the_start_offset_out() {
    let mut first = ack("test_topic", 1, 123, "test_group", 789, "test_broker");
    let mut second = ack("test_topic", 1, 123, "test_group", 789, "test_broker");
    first.start_offset = 1;
    second.start_offset = 2;
    assert_eq!(
        PopMessageProcessor::gen_ack_unique_id(&first),
        PopMessageProcessor::gen_ack_unique_id(&second)
    );
}

#[test]
fn ack_ids_of_different_records_differ() {
    let base = PopMessageProcessor::gen_ack_unique_id(&ack("t", 1, 23, "g", 7, "b"));
    assert_ne!(
        base,
        PopMessageProcessor::gen_ack_unique_id(&ack("t", 12, 3, "g", 7, "b"))
    );
    assert_ne!(
        base,
        PopMessageProcessor::gen_ack_unique_id(&ack("t", 1, 23, "g", 7, "c"))
    );
    assert_ne!(
        base,
        PopMessageProcessor::gen_ack_unique_id(&ack("u", 1, 23, "g", 7, "b"))
    );
    assert_ne!(
        base,
        PopMessageProcessor::gen_ack_unique_id(&ack("t", 1, 23, "h", 7, "b"))
    );
    assert_ne!(
        base,
        PopMessageProcessor::gen_ack_unique_id(&ack("t", 1, 23, "g", 8, "b"))
    );
}

#[test]
fn batch_ack_id_of_an_empty_list() {
    let batch = BatchAckMsg {
        ack_msg: ack("test_topic", 1, 123, "test_group", 789, "test_broker"),
        ack_offset_list: vec![],
    };
    let id = PopMessageProcessor::gen_batch_ack_unique_id(&batch);
    assert_eq!(id, "test_topic@1@[]@test_group@789@bAck");
}

#[test]
fn batch_ack_id_of_one_offset() {
    let batch = BatchAckMsg {
        ack_msg: ack("test_topic", 1, 123, "test_group", 789, "test_broker"),
        ack_offset_list: vec![-4],
    };
    let id = PopMessageProcessor::gen_batch_ack_unique_id(&batch);
    assert_eq!(id, "test_topic@1@[-4]@test_group@789@bAck");
}

#[test]
fn batch_ack_id_leaves_single_offset_and_broker_out() {
    let first = BatchAckMsg {
        ack_msg: ack("test_topic", 1, 123, "test_group", 789, "test_broker"),
        ack_offset_list: vec![1, 2, 3],
    };
    let second = BatchAckMsg {
        ack_msg: ack("test_topic", 1, 999, "test_group", 789, "other_broker"),
        ack_offset_list: vec![1, 2, 3],
    };
    assert_eq!(
        PopMessageProcessor::gen_batch_ack_unique_id(&first),
        PopMessageProcessor::gen_batch_ack_unique_id(&second)
    );
}

#[test]
fn batch_ack_id_keeps_the_order_of_the_offsets() {
    let first = BatchAckMsg {
        ack_msg: ack("t", 1, 0, "g", 7, "b"),
        ack_offset_list: vec![1, 2, 3],
    };
    let second = BatchAckMsg {
        ack_msg: ack("t", 1, 0, "g", 7, "b"),
        ack_offset_list: vec![3, 2, 1],
    };
    assert_eq!(
        PopMessageProcessor::gen_batch_ack_unique_id(&second),
        "t@1@[3, 2, 1]@g@7@bAck"
    );
    assert_ne!(
        PopMessageProcessor::gen_batch_ack_unique_id(&first),
        PopMessageProcessor::gen_batch_ack_unique_id(&second)
    );
}

#[test]
fn identifiers_are_the_same_for_the_same_record() {
    let record = ack("test_topic", 1, 123, "test_group", 789, "test_broker");
    assert_eq!(
        PopMessageProcessor::gen_ack_unique_id(&record),
        PopMessageProcessor::gen_ack_unique_id(&record)
    );
    let ck = check_point(Some("test_broker"));
    assert_eq!(
        PopMessageProcessor::gen_ck_unique_id(&ck),
        PopMessageProcessor::gen_ck_unique_id(&ck)
    );
}

#[test]
fn identifiers_of_different_kinds_differ() {
    let record = ack("test_topic", 1, 456, "test_cid", 789, "test_broker");
    let ack_id = PopMessageProcessor::gen_ack_unique_id(&record);
    let ck_id = PopMessageProcessor::gen_ck_unique_id(&check_point(Some("test_broker")));
    let batch_id = PopMessageProcessor::gen_batch_ack_unique_id(&BatchAckMsg {
        ack_msg: record,
        ack_offset_list: vec![456],
    });
    assert_eq!(ack_id, "test_topic@1@456@test_cid@789@test_broker@ack");
    assert_eq!(ck_id, "test_topic@1@456@test_cid@789@test_broker@ck");
    assert_eq!(batch_id, "test_topic@1@[456]@test_cid@789@bAck");
    assert_ne!(ack_id, ck_id);
    assert_ne!(ack_id, batch_id);
    assert_ne!(ck_id, batch_id);
}

#[test]
fn lock_key_with_negative_and_large_queue_numbers() {
    assert_eq!(QueueLockManager::build_lock_key("t", "g", -1), "t@g@-1");
    assert_eq!(QueueLockManager::build_lock_key("t", "g", 0), "t@g@0");
    assert_eq!(
        QueueLockManager::build_lock_key("t", "g", i32::MAX),
        "t@g@2147483647"
    );
    assert_eq!(
        QueueLockManager::build_lock_key("t", "g", i32::MIN),
        "t@g@-2147483648"
    );
}

#[test]
fn lock_keys_of_different_triples_differ() {
    let base = QueueLockManager::build_lock_key("topic", "group", 1);
    assert_ne!(base, QueueLockManager::build_lock_key("topic", "group", 2));
    assert_ne!(base, QueueLockManager::build_lock_key("topic", "group1", 1));
    assert_ne!(base, QueueLockManager::build_lock_key("topic1", "group", 1));
    assert_ne!(
        QueueLockManager::build_lock_key("a", "b", 11),
        QueueLockManager::build_lock_key("a", "b1", 1)
    );
}
