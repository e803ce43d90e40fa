//! The records that pop consumption passes between delivery,
//! acknowledgment and revival, each with its mathematical view.

use vstd::prelude::*;

verus! {

/// The acknowledgment of one message from one pop delivery.
#[derive(Debug)]
pub struct AckMsg {
    pub ack_offset: i64,
    pub start_offset: i64,
    pub consumer_group: String,
    pub topic: String,
    pub queue_id: i32,
    pub pop_time: i64,
    pub broker_name: String,
}

/// What an [`AckMsg`] holds, as plain values.
pub struct AckMsgView {
    pub ack_offset: int,
    pub start_offset: int,
    pub consumer_group: Seq<char>,
    pub topic: Seq<char>,
    pub queue_id: int,
    pub pop_time: int,
    pub broker_name: Seq<char>,
}

impl View for AckMsg {
    type V = AckMsgView;

    open spec fn view(&self) -> AckMsgView {
        AckMsgView {
            ack_offset: self.ack_offset as int,
            start_offset: self.start_offset as int,
            consumer_group: self.consumer_group@,
            topic: self.topic@,
            queue_id: self.queue_id as int,
            pop_time: self.pop_time as int,
            broker_name: self.broker_name@,
        }
    }
}

/// The acknowledgment of several messages of one pop delivery at once.
#[derive(Debug)]
pub struct BatchAckMsg {
    pub ack_msg: AckMsg,
    pub ack_offset_list: Vec<i64>,
}

/// What a [`BatchAckMsg`] holds, as plain values.
pub struct BatchAckMsgView {
    pub ack_msg: AckMsgView,
    pub ack_offset_list: Seq<i64>,
}

impl View for BatchAckMsg {
    type V = BatchAckMsgView;

    open spec fn view(&self) -> BatchAckMsgView {
        BatchAckMsgView { ack_msg: self.ack_msg@, ack_offset_list: self.ack_offset_list@ }
    }
}

/// The metadata recorded when a batch is handed to a consumer, from which
/// unacknowledged messages are revived once their invisible time is over.
#[derive(Debug)]
pub struct PopCheckPoint {
    pub start_offset: i64,
    pub pop_time: i64,
    pub invisible_time: i64,
    pub bit_map: u32,
    pub num: u8,
    pub queue_id: i32,
    pub topic: String,
    pub cid: String,
    pub revive_offset: i64,
    pub queue_offset_diff: Vec<i32>,
    pub broker_name: Option<String>,
    pub re_put_times: Option<String>,
}

/// What a [`PopCheckPoint`] holds, as plain values.
pub struct PopCheckPointView {
    pub start_offset: int,
    pub pop_time: int,
    pub invisible_time: int,
    pub bit_map: nat,
    pub num: nat,
    pub queue_id: int,
    pub topic: Seq<char>,
    pub cid: Seq<char>,
    pub revive_offset: int,
    pub queue_offset_diff: Seq<i32>,
    pub broker_name: Option<Seq<char>>,
    pub re_put_times: Option<Seq<char>>,
}

/// The text of an optional string, where there is one.
pub open spec fn optional_text(s: Option<String>) -> Option<Seq<char>> {
    match s {
        Some(text) => Some(text@),
        None => None,
    }
}

impl View for PopCheckPoint {
    type V = PopCheckPointView;

    open spec fn view(&self) -> PopCheckPointView {
        PopCheckPointView {
            start_offset: self.start_offset as int,
            pop_time: self.pop_time as int,
            invisible_time: self.invisible_time as int,
            bit_map: self.bit_map as nat,
            num: self.num as nat,
            queue_id: self.queue_id as int,
            topic: self.topic@,
            cid: self.cid@,
            revive_offset: self.revive_offset as int,
            queue_offset_diff: self.queue_offset_diff@,
            broker_name: optional_text(self.broker_name),
            re_put_times: optional_text(self.re_put_times),
        }
    }
}

} // verus!
