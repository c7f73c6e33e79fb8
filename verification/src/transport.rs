//! Topic logic of the pub/sub transport: the broker's endpoint
//! configuration and the reader's frame discipline.
//!
//! The transport multiplexes a topic-announcement frame ahead of every
//! data frame. The reader must discard those announcement frames, or the
//! next parse works on topic text instead of a message.

use vstd::prelude::*;
use crate::message::Message;

verus! {

/// Leading byte of a topic-announcement frame: every topic starts with an
/// ASCII `T`.
pub const TOPIC_FRAME_MARKER: u8 = 84;

/// Whether a received frame is a topic-announcement frame rather than
/// data, judged by its leading byte.
pub fn is_topic_frame(frame: &Vec<u8>) -> (r: bool)
    ensures
        r == (frame@.len() > 0 && frame@[0] == TOPIC_FRAME_MARKER),
{
    frame.len() > 0 && frame[0] == TOPIC_FRAME_MARKER
}

/// The reader's frame discipline: a topic-announcement frame is discarded,
/// never handed on; any other frame becomes the next wire message, its
/// bytes taken verbatim.
pub fn accept_frame(frame: Vec<u8>) -> (r: Option<Message>)
    ensures
        frame@.len() > 0 && frame@[0] == TOPIC_FRAME_MARKER ==> r is None,
        !(frame@.len() > 0 && frame@[0] == TOPIC_FRAME_MARKER) ==> {
            &&& r is Some
            &&& r->0.data@ == frame@
        },
{
    if is_topic_frame(&frame) {
        None
    } else {
        Some(Message { data: frame })
    }
}

/// The broker's endpoints, built once at startup and handed to the relay
/// by ownership: nodes publish to the inbound endpoint, subscribe to the
/// outbound one, and a monitoring tap reads the capture endpoint.
pub struct BrokerConfig {
    pub inbound: String,
    pub outbound: String,
    pub capture: String,
}

impl BrokerConfig {
    /// The default topology: one inbound and one outbound TCP port and an
    /// in-process capture channel.
    pub fn new() -> (r: Self)
        ensures
            r.inbound@ == "tcp://*:6000"@,
            r.outbound@ == "tcp://*:5555"@,
            r.capture@ == "inproc://trace"@,
    {
        Self {
            inbound: "tcp://*:6000".to_owned(),
            outbound: "tcp://*:5555".to_owned(),
            capture: "inproc://trace".to_owned(),
        }
    }
}

} // verus!
