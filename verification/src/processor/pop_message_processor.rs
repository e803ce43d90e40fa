//! Pop requests: the identifiers that correlate a delivery with its
//! acknowledgments and its checkpoint, and the steps around the scan of a
//! queue that keep it to one scan at a time.

use crate::processor::queue_lock_manager::after_sweep;
use crate::processor::queue_lock_manager::after_try_lock;
use crate::processor::queue_lock_manager::after_unlock;
use crate::processor::queue_lock_manager::can_lock;
use crate::processor::queue_lock_manager::lock_key;
use crate::processor::queue_lock_manager::QueueLockManager;
use crate::processor::timed_lock::Lease;
use crate::records::optional_text;
use crate::records::AckMsg;
use crate::records::AckMsgView;
use crate::records::BatchAckMsg;
use crate::records::BatchAckMsgView;
use crate::records::PopCheckPoint;
use crate::records::PopCheckPointView;
use crate::text::append_bracketed_list;
use crate::text::append_decimal;
use crate::text::bracketed_list;
use crate::text::decimal;
use crate::text::free_of;
use crate::text::lemma_bracketed_list_free_of;
use crate::text::lemma_bracketed_list_injective;
use crate::text::lemma_decimal_free_of;
use crate::text::lemma_decimal_injective;
use crate::text::lemma_last_field;
use vstd::prelude::*;
use vstd::string::*;

verus! {

/// The identifier of an acknowledgment: topic, queue, acknowledged offset,
/// consumer group, pop time and broker name, joined by `@` and closed by the
/// tag `ack`.
pub open spec fn ack_unique_id(ack: AckMsgView) -> Seq<char> {
    ack.topic + "@"@ + decimal(ack.queue_id) + "@"@ + decimal(ack.ack_offset) + "@"@
        + ack.consumer_group + "@"@ + decimal(ack.pop_time) + "@"@ + ack.broker_name + "@"@
        + "ack"@
}

/// The identifier of a batch acknowledgment: topic, queue, the bracketed
/// list of acknowledged offsets, consumer group and pop time, joined by `@`
/// and closed by the tag `bAck`. Neither the single offset nor the broker
/// name of the inner record takes part.
pub open spec fn batch_ack_unique_id(batch: BatchAckMsgView) -> Seq<char> {
    batch.ack_msg.topic + "@"@ + decimal(batch.ack_msg.queue_id) + "@"@ + bracketed_list(
        batch.ack_offset_list,
    ) + "@"@ + batch.ack_msg.consumer_group + "@"@ + decimal(batch.ack_msg.pop_time) + "@"@
        + "bAck"@
}

/// The broker name as a checkpoint identifier shows it: the name itself, or
/// `null` where the checkpoint has none.
pub open spec fn broker_name_or_null(broker_name: Option<Seq<char>>) -> Seq<char> {
    match broker_name {
        Some(name) => name,
        None => "null"@,
    }
}

/// The identifier of a checkpoint: topic, queue, start offset, consumer,
/// pop time and broker name (or `null`), joined by `@` and closed by the tag
/// `ck`.
pub open spec fn ck_unique_id(ck: PopCheckPointView) -> Seq<char> {
    ck.topic + "@"@ + decimal(ck.queue_id) + "@"@ + decimal(ck.start_offset) + "@"@ + ck.cid
        + "@"@ + decimal(ck.pop_time) + "@"@ + broker_name_or_null(ck.broker_name) + "@"@
        + "ck"@
}

/// Two acknowledgments have the same identifier only if they agree in
/// topic, queue, acknowledged offset, consumer group, pop time and broker
/// name, provided that no `@` occurs in the names of the consumer groups and
/// of the brokers.
pub proof fn lemma_ack_unique_id_injective(a: AckMsgView, b: AckMsgView)
    requires
        free_of(a.consumer_group, '@'),
        free_of(b.consumer_group, '@'),
        free_of(a.broker_name, '@'),
        free_of(b.broker_name, '@'),
        ack_unique_id(a) == ack_unique_id(b),
    ensures
        a.topic == b.topic,
        a.queue_id == b.queue_id,
        a.ack_offset == b.ack_offset,
        a.consumer_group == b.consumer_group,
        a.pop_time == b.pop_time,
        a.broker_name == b.broker_name,
{
    reveal_strlit("ack");
    let a1 = a.topic + "@"@ + decimal(a.queue_id);
    let b1 = b.topic + "@"@ + decimal(b.queue_id);
    let a2 = a1 + "@"@ + decimal(a.ack_offset);
    let b2 = b1 + "@"@ + decimal(b.ack_offset);
    let a3 = a2 + "@"@ + a.consumer_group;
    let b3 = b2 + "@"@ + b.consumer_group;
    let a4 = a3 + "@"@ + decimal(a.pop_time);
    let b4 = b3 + "@"@ + decimal(b.pop_time);
    let a5 = a4 + "@"@ + a.broker_name;
    let b5 = b4 + "@"@ + b.broker_name;
    lemma_last_field(a5, "ack"@, b5, "ack"@);
    lemma_last_field(a4, a.broker_name, b4, b.broker_name);
    lemma_decimal_free_of(a.pop_time, '@');
    lemma_decimal_free_of(b.pop_time, '@');
    lemma_last_field(a3, decimal(a.pop_time), b3, decimal(b.pop_time));
    lemma_decimal_injective(a.pop_time, b.pop_time);
    lemma_last_field(a2, a.consumer_group, b2, b.consumer_group);
    lemma_decimal_free_of(a.ack_offset, '@');
    lemma_decimal_free_of(b.ack_offset, '@');
    lemma_last_field(a1, decimal(a.ack_offset), b1, decimal(b.ack_offset));
    lemma_decimal_injective(a.ack_offset, b.ack_offset);
    lemma_decimal_free_of(a.queue_id, '@');
    lemma_decimal_free_of(b.queue_id, '@');
    lemma_last_field(a.topic, decimal(a.queue_id), b.topic, decimal(b.queue_id));
    lemma_decimal_injective(a.queue_id, b.queue_id);
}

/// Two batch acknowledgments have the same identifier only if they agree in
/// topic, queue, acknowledged offsets, consumer group and pop time, provided
/// that no `@` occurs in the names of the consumer groups.
pub proof fn lemma_batch_ack_unique_id_injective(a: BatchAckMsgView, b: BatchAckMsgView)
    requires
        free_of(a.ack_msg.consumer_group, '@'),
        free_of(b.ack_msg.consumer_group, '@'),
        batch_ack_unique_id(a) == batch_ack_unique_id(b),
    ensures
        a.ack_msg.topic == b.ack_msg.topic,
        a.ack_msg.queue_id == b.ack_msg.queue_id,
        a.ack_offset_list == b.ack_offset_list,
        a.ack_msg.consumer_group == b.ack_msg.consumer_group,
        a.ack_msg.pop_time == b.ack_msg.pop_time,
{
    reveal_strlit("bAck");
    let a1 = a.ack_msg.topic + "@"@ + decimal(a.ack_msg.queue_id);
    let b1 = b.ack_msg.topic + "@"@ + decimal(b.ack_msg.queue_id);
    let a2 = a1 + "@"@ + bracketed_list(a.ack_offset_list);
    let b2 = b1 + "@"@ + bracketed_list(b.ack_offset_list);
    let a3 = a2 + "@"@ + a.ack_msg.consumer_group;
    let b3 = b2 + "@"@ + b.ack_msg.consumer_group;
    let a4 = a3 + "@"@ + decimal(a.ack_msg.pop_time);
    let b4 = b3 + "@"@ + decimal(b.ack_msg.pop_time);
    lemma_last_field(a4, "bAck"@, b4, "bAck"@);
    lemma_decimal_free_of(a.ack_msg.pop_time, '@');
    lemma_decimal_free_of(b.ack_msg.pop_time, '@');
    lemma_last_field(a3, decimal(a.ack_msg.pop_time), b3, decimal(b.ack_msg.pop_time));
    lemma_decimal_injective(a.ack_msg.pop_time, b.ack_msg.pop_time);
    lemma_last_field(a2, a.ack_msg.consumer_group, b2, b.ack_msg.consumer_group);
    lemma_bracketed_list_free_of(a.ack_offset_list, '@');
    lemma_bracketed_list_free_of(b.ack_offset_list, '@');
    lemma_last_field(
        a1,
        bracketed_list(a.ack_offset_list),
        b1,
        bracketed_list(b.ack_offset_list),
    );
    lemma_bracketed_list_injective(a.ack_offset_list, b.ack_offset_list);
    lemma_decimal_free_of(a.ack_msg.queue_id, '@');
    lemma_decimal_free_of(b.ack_msg.queue_id, '@');
    lemma_last_field(
        a.ack_msg.topic,
        decimal(a.ack_msg.queue_id),
        b.ack_msg.topic,
        decimal(b.ack_msg.queue_id),
    );
    lemma_decimal_injective(a.ack_msg.queue_id, b.ack_msg.queue_id);
}

/// Two checkpoints have the same identifier only if they agree in topic,
/// queue, start offset, consumer, pop time and in the broker name as the
/// identifier shows it, provided that no `@` occurs in the names of the
/// consumers and of the brokers. A missing broker name and the name `null`
/// are shown alike; apart from that the broker names agree too.
pub proof fn lemma_ck_unique_id_injective(a: PopCheckPointView, b: PopCheckPointView)
    requires
        free_of(a.cid, '@'),
        free_of(b.cid, '@'),
        free_of(broker_name_or_null(a.broker_name), '@'),
        free_of(broker_name_or_null(b.broker_name), '@'),
        ck_unique_id(a) == ck_unique_id(b),
    ensures
        a.topic == b.topic,
        a.queue_id == b.queue_id,
        a.start_offset == b.start_offset,
        a.cid == b.cid,
        a.pop_time == b.pop_time,
        broker_name_or_null(a.broker_name) == broker_name_or_null(b.broker_name),
        a.broker_name != Some("null"@) && b.broker_name != Some("null"@) ==> a.broker_name
            == b.broker_name,
{
    reveal_strlit("ck");
    let a1 = a.topic + "@"@ + decimal(a.queue_id);
    let b1 = b.topic + "@"@ + decimal(b.queue_id);
    let a2 = a1 + "@"@ + decimal(a.start_offset);
    let b2 = b1 + "@"@ + decimal(b.start_offset);
    let a3 = a2 + "@"@ + a.cid;
    let b3 = b2 + "@"@ + b.cid;
    let a4 = a3 + "@"@ + decimal(a.pop_time);
    let b4 = b3 + "@"@ + decimal(b.pop_time);
    let a5 = a4 + "@"@ + broker_name_or_null(a.broker_name);
    let b5 = b4 + "@"@ + broker_name_or_null(b.broker_name);
    lemma_last_field(a5, "ck"@, b5, "ck"@);
    lemma_last_field(
        a4,
        broker_name_or_null(a.broker_name),
        b4,
        broker_name_or_null(b.broker_name),
    );
    lemma_decimal_free_of(a.pop_time, '@');
    lemma_decimal_free_of(b.pop_time, '@');
    lemma_last_field(a3, decimal(a.pop_time), b3, decimal(b.pop_time));
    lemma_decimal_injective(a.pop_time, b.pop_time);
    lemma_last_field(a2, a.cid, b2, b.cid);
    lemma_decimal_free_of(a.start_offset, '@');
    lemma_decimal_free_of(b.start_offset, '@');
    lemma_last_field(a1, decimal(a.start_offset), b1, decimal(b.start_offset));
    lemma_decimal_injective(a.start_offset, b.start_offset);
    lemma_decimal_free_of(a.queue_id, '@');
    lemma_decimal_free_of(b.queue_id, '@');
    lemma_last_field(a.topic, decimal(a.queue_id), b.topic, decimal(b.queue_id));
    lemma_decimal_injective(a.queue_id, b.queue_id);
}

/// Identifiers of different kinds differ, whatever the records hold: the
/// closing tag tells an acknowledgment, a batch acknowledgment and a
/// checkpoint apart.
pub proof fn lemma_kinds_have_different_ids(
    ack: AckMsgView,
    batch: BatchAckMsgView,
    ck: PopCheckPointView,
)
    ensures
        ack_unique_id(ack) != batch_ack_unique_id(batch),
        ack_unique_id(ack) != ck_unique_id(ck),
        batch_ack_unique_id(batch) != ck_unique_id(ck),
{
    reveal_strlit("ack");
    reveal_strlit("bAck");
    reveal_strlit("ck");
    let ack_front = ack.topic + "@"@ + decimal(ack.queue_id) + "@"@ + decimal(ack.ack_offset)
        + "@"@ + ack.consumer_group + "@"@ + decimal(ack.pop_time) + "@"@ + ack.broker_name;
    let batch_front = batch.ack_msg.topic + "@"@ + decimal(batch.ack_msg.queue_id) + "@"@
        + bracketed_list(batch.ack_offset_list) + "@"@ + batch.ack_msg.consumer_group + "@"@
        + decimal(batch.ack_msg.pop_time);
    let ck_front = ck.topic + "@"@ + decimal(ck.queue_id) + "@"@ + decimal(ck.start_offset)
        + "@"@ + ck.cid + "@"@ + decimal(ck.pop_time) + "@"@ + broker_name_or_null(
        ck.broker_name,
    );
    if ack_unique_id(ack) == batch_ack_unique_id(batch) {
        lemma_last_field(ack_front, "ack"@, batch_front, "bAck"@);
        assert("ack"@.len() != "bAck"@.len());
    }
    if ack_unique_id(ack) == ck_unique_id(ck) {
        lemma_last_field(ack_front, "ack"@, ck_front, "ck"@);
        assert("ack"@.len() != "ck"@.len());
    }
    if batch_ack_unique_id(batch) == ck_unique_id(ck) {
        lemma_last_field(batch_front, "bAck"@, ck_front, "ck"@);
        assert("bAck"@.len() != "ck"@.len());
    }
}

/// A decoded pop request: which queue of which topic a consumer group wants
/// messages from, how many at most, for how long they stay invisible to the
/// rest of the group, and how long the request may wait for messages.
#[derive(Debug)]
pub struct PopRequest {
    pub topic: String,
    pub consumer_group: String,
    pub queue_id: i32,
    pub max_msg_nums: u32,
    pub invisible_time: i64,
    pub poll_time: u64,
}

/// The right to scan one queue for one pop request. It is given out when the
/// lease of the queue was taken and handed back when the scan is over.
#[derive(Debug)]
#[must_use]
pub struct ScanPermit {
    topic: String,
    consumer_group: String,
    queue_id: i32,
    invisible_time: i64,
}

/// What a [`ScanPermit`] holds, as plain values.
pub struct ScanPermitView {
    pub topic: Seq<char>,
    pub consumer_group: Seq<char>,
    pub queue_id: int,
    pub invisible_time: int,
}

impl View for ScanPermit {
    type V = ScanPermitView;

    closed spec fn view(&self) -> ScanPermitView {
        ScanPermitView {
            topic: self.topic@,
            consumer_group: self.consumer_group@,
            queue_id: self.queue_id as int,
            invisible_time: self.invisible_time as int,
        }
    }
}

impl ScanPermitView {
    /// The key of the lease that the permit stands for.
    pub open spec fn lock_key(self) -> Seq<char> {
        lock_key(self.topic, self.consumer_group, self.queue_id)
    }
}

/// The first step of a pop request.
#[derive(Debug)]
#[must_use]
pub enum PopAdmission {
    /// The queue is the caller's to scan, until the permit is handed back.
    Scan(ScanPermit),
    /// Somebody else is scanning the queue: there is no message for this
    /// request now, and it may poll again.
    NoMessage,
}

/// What the store recorded of a batch that it delivered from one queue.
#[derive(Debug)]
pub struct DeliveredBatch {
    pub start_offset: i64,
    pub pop_time: i64,
    pub bit_map: u32,
    pub num: u8,
    pub queue_offset_diff: Vec<i32>,
    pub revive_offset: i64,
    pub re_put_times: Option<String>,
}

/// How the scan of a queue ended.
#[derive(Debug)]
pub enum ScanOutcome {
    /// The store delivered a batch.
    Delivered(DeliveredBatch),
    /// The queue has nothing for the consumer group.
    Empty,
    /// The store could not be read.
    Failed,
}

/// The answer to a pop request.
#[derive(Debug)]
pub enum PopReply {
    /// Messages were delivered; their checkpoint and its identifier.
    Delivered { check_point: PopCheckPoint, check_point_id: String },
    /// There is no message now; the request may poll again.
    NoMessage,
    /// The scan failed.
    Failed,
}

/// The checkpoint of a batch: the queue and the consumer group of the
/// request, its invisible time, the broker's name, and what the store
/// recorded of the batch.
pub open spec fn check_point_of(
    permit: ScanPermitView,
    batch: DeliveredBatch,
    broker_name: Option<Seq<char>>,
) -> PopCheckPointView {
    PopCheckPointView {
        start_offset: batch.start_offset as int,
        pop_time: batch.pop_time as int,
        invisible_time: permit.invisible_time,
        bit_map: batch.bit_map as nat,
        num: batch.num as nat,
        queue_id: permit.queue_id,
        topic: permit.topic,
        cid: permit.consumer_group,
        revive_offset: batch.revive_offset as int,
        queue_offset_diff: batch.queue_offset_diff@,
        broker_name: broker_name,
        re_put_times: optional_text(batch.re_put_times),
    }
}

/// Serves pop requests of consumers: whoever scans a queue for a consumer
/// group holds the lease of that queue, and nobody else scans it meanwhile.
pub struct PopMessageProcessor {
    queue_lock_manager: QueueLockManager,
    broker_name: Option<String>,
}

impl Default for PopMessageProcessor {
    fn default() -> (processor: Self)
        ensures
            processor.leases() == Map::<Seq<char>, Lease>::empty(),
            processor.broker_name() is None,
    {
        PopMessageProcessor { queue_lock_manager: QueueLockManager::new(), broker_name: None }
    }
}

fn clone_optional(text: &Option<String>) -> (copy: Option<String>)
    ensures
        optional_text(copy) == optional_text(*text),
{
    match text {
        Some(name) => Some(name.clone()),
        None => None,
    }
}

impl PopMessageProcessor {
    /// The leases of the queues, by key.
    pub closed spec fn leases(&self) -> Map<Seq<char>, Lease> {
        self.queue_lock_manager@
    }

    /// The name under which the broker writes checkpoints, if it has one.
    pub closed spec fn broker_name(&self) -> Option<Seq<char>> {
        optional_text(self.broker_name)
    }

    /// A processor without leases, for a broker of the given name.
    pub fn new(broker_name: Option<String>) -> (processor: Self)
        ensures
            processor.leases() == Map::<Seq<char>, Lease>::empty(),
            processor.broker_name() == optional_text(broker_name),
    {
        PopMessageProcessor { queue_lock_manager: QueueLockManager::new(), broker_name }
    }

    /// The registry of leases.
    pub fn queue_lock_manager(&self) -> (manager: &QueueLockManager)
        ensures
            manager@ == self.leases(),
    {
        &self.queue_lock_manager
    }

    /// Admits a pop request at the current time: takes the lease of its
    /// queue, or answers at once that there is no message where somebody
    /// else holds it.
    pub fn process_request(&mut self, request: &PopRequest) -> (admission: PopAdmission)
        ensures
            final(self).broker_name() == old(self).broker_name(),
            admission is Scan <==> can_lock(
                old(self).leases(),
                lock_key(request.topic@, request.consumer_group@, request.queue_id as int),
            ),
            admission matches PopAdmission::Scan(permit) ==> permit@ == (ScanPermitView {
                topic: request.topic@,
                consumer_group: request.consumer_group@,
                queue_id: request.queue_id as int,
                invisible_time: request.invisible_time as int,
            }),
            exists|now: u64|
                final(self).leases() == #[trigger] after_try_lock(
                    old(self).leases(),
                    lock_key(request.topic@, request.consumer_group@, request.queue_id as int),
                    now as nat,
                ),
    {
        let ghost before = self.leases();
        let ghost key = lock_key(
            request.topic@,
            request.consumer_group@,
            request.queue_id as int,
        );
        let acquired = self.queue_lock_manager.try_lock(
            request.topic.as_str(),
            request.consumer_group.as_str(),
            request.queue_id,
        );
        proof {
            let now = choose|now: u64|
                self.queue_lock_manager@ == #[trigger] after_try_lock(before, key, now as nat);
            assert(self.leases() == after_try_lock(before, key, now as nat));
        }
        Self::admission(request, acquired)
    }

    /// Admits a pop request at time `now`.
    pub fn process_request_at(&mut self, request: &PopRequest, now: u64) -> (admission:
        PopAdmission)
        ensures
            final(self).broker_name() == old(self).broker_name(),
            admission is Scan <==> can_lock(
                old(self).leases(),
                lock_key(request.topic@, request.consumer_group@, request.queue_id as int),
            ),
            admission matches PopAdmission::Scan(permit) ==> permit@ == (ScanPermitView {
                topic: request.topic@,
                consumer_group: request.consumer_group@,
                queue_id: request.queue_id as int,
                invisible_time: request.invisible_time as int,
            }),
            final(self).leases() == after_try_lock(
                old(self).leases(),
                lock_key(request.topic@, request.consumer_group@, request.queue_id as int),
                now as nat,
            ),
    {
        let acquired = self.queue_lock_manager.try_lock_at(
            request.topic.as_str(),
            request.consumer_group.as_str(),
            request.queue_id,
            now,
        );
        Self::admission(request, acquired)
    }

    fn admission(request: &PopRequest, acquired: bool) -> (admission: PopAdmission)
        ensures
            admission is Scan <==> acquired,
            admission matches PopAdmission::Scan(permit) ==> permit@ == (ScanPermitView {
                topic: request.topic@,
                consumer_group: request.consumer_group@,
                queue_id: request.queue_id as int,
                invisible_time: request.invisible_time as int,
            }),
    {
        if acquired {
            PopAdmission::Scan(
                ScanPermit {
                    topic: request.topic.clone(),
                    consumer_group: request.consumer_group.clone(),
                    queue_id: request.queue_id,
                    invisible_time: request.invisible_time,
                },
            )
        } else {
            PopAdmission::NoMessage
        }
    }

    /// Ends the scan that `permit` allowed: releases the lease of the queue,
    /// however the scan ended, and answers the request. A delivered batch is
    /// answered with its checkpoint and the checkpoint's identifier.
    pub fn complete_request(&mut self, permit: ScanPermit, outcome: ScanOutcome) -> (reply:
        PopReply)
        ensures
            final(self).broker_name() == old(self).broker_name(),
            final(self).leases() == after_unlock(old(self).leases(), permit@.lock_key()),
            match outcome {
                ScanOutcome::Delivered(batch) => reply matches PopReply::Delivered {
                    check_point,
                    check_point_id,
                } && check_point@ == check_point_of(permit@, batch, old(self).broker_name())
                    && check_point_id@ == ck_unique_id(check_point@),
                ScanOutcome::Empty => reply is NoMessage,
                ScanOutcome::Failed => reply is Failed,
            },
    {
        self.queue_lock_manager.unlock(
            permit.topic.as_str(),
            permit.consumer_group.as_str(),
            permit.queue_id,
        );
        match outcome {
            ScanOutcome::Delivered(batch) => {
                let check_point = PopCheckPoint {
                    start_offset: batch.start_offset,
                    pop_time: batch.pop_time,
                    invisible_time: permit.invisible_time,
                    bit_map: batch.bit_map,
                    num: batch.num,
                    queue_id: permit.queue_id,
                    topic: permit.topic,
                    cid: permit.consumer_group,
                    revive_offset: batch.revive_offset,
                    queue_offset_diff: batch.queue_offset_diff,
                    broker_name: clone_optional(&self.broker_name),
                    re_put_times: batch.re_put_times,
                };
                let check_point_id = Self::gen_ck_unique_id(&check_point);
                PopReply::Delivered { check_point, check_point_id }
            },
            ScanOutcome::Empty => PopReply::NoMessage,
            ScanOutcome::Failed => PopReply::Failed,
        }
    }

    /// Sweeps the leases at the current time: removes every lease that has
    /// been idle for more than `used_expire_millis`, held or not, and
    /// returns how many leases there were before.
    pub fn clean_unused_locks(&mut self, used_expire_millis: u64) -> (count: usize)
        ensures
            final(self).broker_name() == old(self).broker_name(),
            old(self).leases().dom().finite(),
            count == old(self).leases().len(),
            exists|now: u64|
                final(self).leases() == #[trigger] after_sweep(
                    old(self).leases(),
                    now as nat,
                    used_expire_millis as nat,
                ),
    {
        let ghost before = self.leases();
        let count = self.queue_lock_manager.clean_unused_locks(used_expire_millis);
        proof {
            let now = choose|now: u64|
                self.queue_lock_manager@ == #[trigger] after_sweep(
                    before,
                    now as nat,
                    used_expire_millis as nat,
                );
            assert(self.leases() == after_sweep(before, now as nat, used_expire_millis as nat));
        }
        count
    }

    /// Sweeps the leases at time `now`.
    pub fn clean_unused_locks_at(&mut self, now: u64, used_expire_millis: u64) -> (count: usize)
        ensures
            final(self).broker_name() == old(self).broker_name(),
            old(self).leases().dom().finite(),
            count == old(self).leases().len(),
            final(self).leases() == after_sweep(
                old(self).leases(),
                now as nat,
                used_expire_millis as nat,
            ),
    {
        self.queue_lock_manager.clean_unused_locks_at(now, used_expire_millis)
    }

    /// Builds the identifier of an acknowledgment.
    pub fn gen_ack_unique_id(ack_msg: &AckMsg) -> (id: String)
        ensures
            id@ == ack_unique_id(ack_msg@),
    {
        let mut id = String::from_str(ack_msg.topic.as_str());
        id.append("@");
        append_decimal(&mut id, ack_msg.queue_id as i64);
        id.append("@");
        append_decimal(&mut id, ack_msg.ack_offset);
        id.append("@");
        id.append(ack_msg.consumer_group.as_str());
        id.append("@");
        append_decimal(&mut id, ack_msg.pop_time);
        id.append("@");
        id.append(ack_msg.broker_name.as_str());
        id.append("@");
        id.append("ack");
        id
    }

    /// Builds the identifier of a batch acknowledgment.
    pub fn gen_batch_ack_unique_id(batch_ack_msg: &BatchAckMsg) -> (id: String)
        ensures
            id@ == batch_ack_unique_id(batch_ack_msg@),
    {
        let mut id = String::from_str(batch_ack_msg.ack_msg.topic.as_str());
        id.append("@");
        append_decimal(&mut id, batch_ack_msg.ack_msg.queue_id as i64);
        id.append("@");
        append_bracketed_list(&mut id, &batch_ack_msg.ack_offset_list);
        id.append("@");
        id.append(batch_ack_msg.ack_msg.consumer_group.as_str());
        id.append("@");
        append_decimal(&mut id, batch_ack_msg.ack_msg.pop_time);
        id.append("@");
        id.append("bAck");
        id
    }

    /// Builds the identifier of a checkpoint.
    pub fn gen_ck_unique_id(ck: &PopCheckPoint) -> (id: String)
        ensures
            id@ == ck_unique_id(ck@),
    {
        let mut id = String::from_str(ck.topic.as_str());
        id.append("@");
        append_decimal(&mut id, ck.queue_id as i64);
        id.append("@");
        append_decimal(&mut id, ck.start_offset);
        id.append("@");
        id.append(ck.cid.as_str());
        id.append("@");
        append_decimal(&mut id, ck.pop_time);
        id.append("@");
        match &ck.broker_name {
            Some(name) => {
                id.append(name.as_str());
            },
            None => {
                id.append("null");
            },
        }
        id.append("@");
        id.append("ck");
        id
    }
}

} // verus!
