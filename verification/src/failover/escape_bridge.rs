//! Routing of a put request on a node that may not be the master: persist
//! locally, forward to another broker, or refuse; and the local status that
//! stands for each remote outcome.

use vstd::prelude::*;

verus! {

/// The broker identifier that marks the master role.
pub const MASTER_ID: u64 = 0;

/// How long a forwarded put may take, in milliseconds, before it counts as
/// having no result.
pub const SEND_TIMEOUT: u64 = 3_000;

/// How long forwards and pulls outside the escape path may take, in
/// milliseconds.
pub const DEFAULT_PULL_TIMEOUT_MILLIS: u64 = 10_000;

/// What a remote broker answered to a forwarded put.
#[derive(Clone, Copy, Debug, PartialEq, Eq, Structural)]
pub enum SendStatus {
    SendOk,
    FlushDiskTimeout,
    FlushSlaveTimeout,
    SlaveNotAvailable,
}

/// The result of a forwarded put, as far as routing reads it.
#[derive(Clone, Copy, Debug, PartialEq, Eq, Structural)]
pub struct SendResult {
    pub send_status: SendStatus,
}

/// The local status of a put request.
#[derive(Clone, Copy, Debug, PartialEq, Eq, Structural)]
pub enum PutMessageStatus {
    PutOk,
    FlushDiskTimeout,
    FlushSlaveTimeout,
    SlaveNotAvailable,
    ServiceNotAvailable,
    PutToRemoteBrokerFail,
}

/// The outcome of a put request: its status, and whether a remote broker
/// rather than the local store produced it.
#[derive(Clone, Copy, Debug, PartialEq, Eq, Structural)]
pub struct PutMessageResult {
    pub put_message_status: PutMessageStatus,
    pub remote_put: bool,
}

impl PutMessageResult {
    /// An outcome with the given status and origin.
    pub fn new(put_message_status: PutMessageStatus, remote_put: bool) -> (result: Self)
        ensures
            result == (PutMessageResult { put_message_status, remote_put }),
    {
        PutMessageResult { put_message_status, remote_put }
    }

    /// A local outcome with the given status.
    pub fn new_default(put_message_status: PutMessageStatus) -> (result: Self)
        ensures
            result == (PutMessageResult { put_message_status, remote_put: false }),
    {
        PutMessageResult { put_message_status, remote_put: false }
    }

    /// The status of this outcome.
    pub fn put_message_status(&self) -> (status: PutMessageStatus)
        ensures
            status == self.put_message_status,
    {
        self.put_message_status
    }

    /// Whether a remote broker produced this outcome.
    pub fn remote_put(&self) -> (remote: bool)
        ensures
            remote == self.remote_put,
    {
        self.remote_put
    }
}

/// The role and the two switches of a broker that decide where a put goes.
#[derive(Clone, Copy, Debug, PartialEq, Eq, Structural)]
pub struct BrokerConfig {
    pub broker_id: u64,
    pub enable_slave_acting_master: bool,
    pub enable_remote_escape: bool,
}

/// What is to be done with a put request.
#[derive(Debug)]
pub enum PutRoute {
    /// Hand the message to the local store and return its outcome unchanged.
    Local,
    /// Forward the message to a remote broker within `timeout_millis`, after
    /// setting on it whether the sender waits for the store (`wait_store_msg_ok`);
    /// `broker_name_to_send` names the target where the caller chose one.
    Remote { wait_store_msg_ok: bool, broker_name_to_send: Option<String>, timeout_millis: u64 },
    /// Answer with this outcome; neither the store nor a remote broker is asked.
    Rejected(PutMessageResult),
}

/// Whether the node holds the master role.
pub open spec fn is_master(config: BrokerConfig) -> bool {
    config.broker_id == MASTER_ID
}

/// Whether a node that is not the master may forward puts to another broker.
pub open spec fn may_escape(config: BrokerConfig) -> bool {
    config.enable_slave_acting_master && config.enable_remote_escape
}

/// The route of a put request under a configuration: the master persists
/// locally; a slave that acts as master with remote escape enabled forwards,
/// to no particular broker, without waiting for the store; any other node
/// refuses with `ServiceNotAvailable`.
pub open spec fn put_route(config: BrokerConfig) -> PutRoute {
    if is_master(config) {
        PutRoute::Local
    } else if may_escape(config) {
        PutRoute::Remote {
            wait_store_msg_ok: false,
            broker_name_to_send: None,
            timeout_millis: SEND_TIMEOUT,
        }
    } else {
        PutRoute::Rejected(
            PutMessageResult {
                put_message_status: PutMessageStatus::ServiceNotAvailable,
                remote_put: false,
            },
        )
    }
}

/// The local status that stands for the outcome of a forwarded put: no
/// result is a failure of the forward, `SendOk` is `PutOk`, and every other
/// status keeps its name.
pub open spec fn remote_put_status(send_result: Option<SendResult>) -> PutMessageStatus {
    match send_result {
        None => PutMessageStatus::PutToRemoteBrokerFail,
        Some(result) => match result.send_status {
            SendStatus::SendOk => PutMessageStatus::PutOk,
            SendStatus::FlushDiskTimeout => PutMessageStatus::FlushDiskTimeout,
            SendStatus::FlushSlaveTimeout => PutMessageStatus::FlushSlaveTimeout,
            SendStatus::SlaveNotAvailable => PutMessageStatus::SlaveNotAvailable,
        },
    }
}

/// The master's identifier as `rocketmq_common::common::mix_all::MASTER_ID`
/// gives it. Trusted: that constant is zero.
#[verifier::external_body]
fn master_id() -> (id: u64)
    ensures
        id == MASTER_ID,
{
    rocketmq_common::common::mix_all::MASTER_ID
}

/// Decides where put requests go when the local store may not take them.
#[derive(Debug)]
pub struct EscapeBridge {
    pub broker_config: BrokerConfig,
}

impl EscapeBridge {
    /// A bridge for a broker with the given configuration.
    pub fn new(broker_config: BrokerConfig) -> (bridge: Self)
        ensures
            bridge.broker_config == broker_config,
    {
        EscapeBridge { broker_config }
    }

    /// Decides the route of one put request. The caller carries it out: on
    /// `Local` it asks the store only, on `Remote` the remote broker only
    /// (and hands the answer to [`transform_send_result2put_result`]), on
    /// `Rejected` nobody.
    pub fn put_message(&self) -> (route: PutRoute)
        ensures
            route == put_route(self.broker_config),
            is_master(self.broker_config) ==> route is Local,
            !is_master(self.broker_config) && may_escape(self.broker_config) ==> route is Remote,
            !is_master(self.broker_config) && !may_escape(self.broker_config) ==> route
                == PutRoute::Rejected(
                PutMessageResult {
                    put_message_status: PutMessageStatus::ServiceNotAvailable,
                    remote_put: false,
                },
            ),
    {
        if self.broker_config.broker_id == master_id() {
            PutRoute::Local
        } else if self.broker_config.enable_slave_acting_master
            && self.broker_config.enable_remote_escape {
            PutRoute::Remote {
                wait_store_msg_ok: false,
                broker_name_to_send: None,
                timeout_millis: SEND_TIMEOUT,
            }
        } else {
            PutRoute::Rejected(PutMessageResult::new_default(PutMessageStatus::ServiceNotAvailable))
        }
    }
}

/// Turns the outcome of a forwarded put into the local outcome, which is
/// always marked as remote.
pub fn transform_send_result2put_result(send_result: Option<SendResult>) -> (result:
    PutMessageResult)
    ensures
        result.put_message_status == remote_put_status(send_result),
        result.remote_put,
{
    match send_result {
        None => PutMessageResult::new(PutMessageStatus::PutToRemoteBrokerFail, true),
        Some(result) => match result.send_status {
            SendStatus::SendOk => PutMessageResult::new(PutMessageStatus::PutOk, true),
            SendStatus::FlushDiskTimeout => PutMessageResult::new(
                PutMessageStatus::FlushDiskTimeout,
                true,
            ),
            SendStatus::FlushSlaveTimeout => PutMessageResult::new(
                PutMessageStatus::FlushSlaveTimeout,
                true,
            ),
            SendStatus::SlaveNotAvailable => PutMessageResult::new(
                PutMessageStatus::SlaveNotAvailable,
                true,
            ),
        },
    }
}

} // verus!
