//! ZeroMQ messages: how an event is framed for the wire.
use vstd::prelude::*;
use zeromq::ZmqMessage;
use crate::event::{topic_of, ZmqTransportEvent};

verus! {

/// Makes `zeromq::ZmqMessage` known to the verifier, as an opaque type.
#[verifier::external_type_specification]
#[verifier::external_body]
pub struct ExZmqMessage(ZmqMessage);

/// The frames that a ZeroMQ message holds, in order, each as its bytes.
pub uninterp spec fn zmq_frames(m: ZmqMessage) -> Seq<Seq<u8>>;

/// Calls `ZmqMessage::from(Vec<u8>)`, which (through `Bytes::from`) makes a
/// message of exactly one frame holding the given bytes.
#[verifier::external_body]
fn zmq_message_from_frame(frame: Vec<u8>) -> (m: ZmqMessage)
    ensures
        zmq_frames(m) == seq![frame@],
{
    ZmqMessage::from(frame)
}

/// Calls `ZmqMessage::push_back`, which appends one frame (the given bytes,
/// turned into `Bytes`) after the frames the message already holds.
#[verifier::external_body]
fn zmq_message_push_back(m: &mut ZmqMessage, frame: Vec<u8>)
    ensures
        zmq_frames(*final(m)) == zmq_frames(*old(m)).push(frame@),
{
    m.push_back(frame.into())
}

/// Frames a message event for the wire: the first frame is the event's
/// topic, the second its payload. Only message events are framed; the
/// other events have no wire form.
pub fn event_to_zmq_message(event: ZmqTransportEvent) -> (m: ZmqMessage)
    requires
        event is Message,
    ensures
        zmq_frames(m) == seq![topic_of(event), event->Message_3@],
{
    let topic = event.topic();
    let mut msg = zmq_message_from_frame(topic);
    match event {
        ZmqTransportEvent::Message(_, _, _, bytes) => {
            zmq_message_push_back(&mut msg, bytes);
        },
        _ => {},
    }
    msg
}

} // verus!
