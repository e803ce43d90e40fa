use rocketmq_broker::failover::escape_bridge::transform_send_result2put_result;
use rocketmq_broker::failover::escape_bridge::BrokerConfig;
use rocketmq_broker::failover::escape_bridge::EscapeBridge;
use rocketmq_broker::failover::escape_bridge::PutMessageResult;
use rocketmq_broker::failover::escape_bridge::PutMessageStatus;
use rocketmq_broker::failover::escape_bridge::PutRoute;
use rocketmq_broker::failover::escape_bridge::SendResult;
use rocketmq_broker::failover::escape_bridge::SendStatus;
use rocketmq_broker::failover::escape_bridge::DEFAULT_PULL_TIMEOUT_MILLIS;
use rocketmq_broker::failover::escape_bridge::MASTER_ID;
use rocketmq_broker::failover::escape_bridge::SEND_TIMEOUT;

#[test]
fn transform_send_result2put_result_handles_none() {
    let result = transform_send_result2put_result(None);
    assert_eq!(
        result.put_message_status(),
        PutMessageStatus::PutToRemoteBrokerFail
    );
}

#[test]
fn transform_send_result2put_result_handles_send_ok() {
    let send_result = SendResult {
        send_status: SendStatus::SendOk,
    };
    let result = transform_send_result2put_result(Some(send_result));
    assert_eq!(result.put_message_status(), PutMessageStatus::PutOk);
}

#[test]
fn transform_send_result2put_result_handles_flush_disk_timeout() {
    let send_result = SendResult {
        send_status: SendStatus::FlushDiskTimeout,
    };
    let result = transform_send_result2put_result(Some(send_result));
    assert_eq!(
        result.put_message_status(),
        PutMessageStatus::FlushDiskTimeout
    );
}

#[test]
fn transform_send_result2put_result_handles_flush_slave_timeout() {
    let send_result = SendResult {
        send_status: SendStatus::FlushSlaveTimeout,
    };
    let result = transform_send_result2put_result(Some(send_result));
    assert_eq!(
        result.put_message_status(),
        PutMessageStatus::FlushSlaveTimeout
    );
}

#[test]
fn transform_send_result2put_result_handles_slave_not_available() {
    let send_result = SendResult {
        send_status: SendStatus::SlaveNotAvailable,
    };
    let result = transform_send_result2put_result(Some(send_result));
    assert_eq!(
        result.put_message_status(),
        PutMessageStatus::SlaveNotAvailable
    );
}

#[test]
fn every_forwarded_outcome_is_marked_remote() {
    assert!(transform_send_result2put_result(None).remote_put());
    for send_status in [
        SendStatus::SendOk,
        SendStatus::FlushDiskTimeout,
        SendStatus::FlushSlaveTimeout,
        SendStatus::SlaveNotAvailable,
    ] {
        let result = transform_send_result2put_result(Some(SendResult { send_status }));
        assert!(result.remote_put());
    }
}

#[test]
fn put_message_result_constructors() {
    let remote = PutMessageResult::new(PutMessageStatus::PutOk, true);
    assert_eq!(remote.put_message_status(), PutMessageStatus::PutOk);
    assert!(remote.remote_put());
    let local = PutMessageResult::new_default(PutMessageStatus::ServiceNotAvailable);
    assert_eq!(
        local.put_message_status(),
        PutMessageStatus::ServiceNotAvailable
    );
    assert!(!local.remote_put());
}

fn route_of(
    broker_id: u64,
    enable_slave_acting_master: bool,
    enable_remote_escape: bool,
) -> PutRoute {
    EscapeBridge::new(BrokerConfig {
        broker_id,
        enable_slave_acting_master,
        enable_remote_escape,
    })
    .put_message()
}

#[test]
fn master_persists_locally_whatever_the_switches() {
    for acting in [false, true] {
        for escape in [false, true] {
            assert!(matches!(route_of(MASTER_ID, acting, escape), PutRoute::Local));
            assert!(matches!(route_of(0, acting, escape), PutRoute::Local));
        }
    }
}

#[test]
fn slave_acting_as_master_forwards_when_escape_is_enabled() {
    for broker_id in [1u64, 2, u64::MAX] {
        match route_of(broker_id, true, true) {
            PutRoute::Remote {
                wait_store_msg_ok,
                broker_name_to_send,
                timeout_millis,
            } => {
                assert!(!wait_store_msg_ok);
                assert_eq!(broker_name_to_send, None);
                assert_eq!(timeout_millis, 3_000);
                assert_eq!(timeout_millis, SEND_TIMEOUT);
            }
            other => panic!("expected a forward, got {:?}", other),
        }
    }
}

#[test]
fn other_nodes_refuse_without_asking_anybody() {
    for (acting, escape) in [(false, false), (false, true), (true, false)] {
        match route_of(1, acting, escape) {
            PutRoute::Rejected(result) => {
                assert_eq!(
                    result.put_message_status(),
                    PutMessageStatus::ServiceNotAvailable
                );
                assert!(!result.remote_put());
            }
            other => panic!("expected a refusal, got {:?}", other),
        }
    }
}

#[test]
fn timeouts_have_their_reference_values() {
    assert_eq!(SEND_TIMEOUT, 3_000);
    assert_eq!(DEFAULT_PULL_TIMEOUT_MILLIS, 10_000);
    assert_eq!(MASTER_ID, 0);
}
