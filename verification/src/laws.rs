//! Properties that hold across the transport's operations.
use vstd::prelude::*;
use crate::event::{
    event_input, SequenceID, ZmqInputPortEvent, ZmqOutputPortRequest, ZmqTransportEvent,
};
use crate::port::{InputPortID, OutputPortID, PortError, PortState};
use crate::transport::{
    input_port_state, input_ready, input_worker_accepts, ZmqInputPortState, after_connect_replies, connect_publications, first_ack, input_worker_action, output_port_state, output_ready, recv_outcome, routable, routes, Delivery,
    InputWorkerAction, ZmqOutputPortState, ZmqTransportView,
};
use crate::worker::{
    lemma_message_numbers, send_worker_run, send_worker_step, sends_before, OutputSendWorker,
};

verus! {

/// A freshly opened output port reports `Open` and can neither send nor be
/// closed; once a connection attempt is acknowledged by an input port, it
/// reports `Connected`, can send and be closed, and is connected to the
/// input port that acknowledged.
pub proof fn lemma_connection_lifecycle(t: ZmqTransportView, o: OutputPortID, i: InputPortID)
    requires
        !t.outputs.contains_key(o@),
    ensures
        ({
            let opened = ZmqTransportView {
                outputs: t.outputs.insert(o@, ZmqOutputPortState::Open),
                inputs: t.inputs,
            };
            let connected = ZmqTransportView {
                outputs: opened.outputs.insert(o@, ZmqOutputPortState::Connected(i)),
                inputs: t.inputs,
            };
            &&& output_port_state(opened.outputs[o@]) == PortState::Open
            &&& output_ready(opened, o) == Err::<(), PortError>(PortError::Disconnected)
            &&& output_port_state(connected.outputs[o@]) == PortState::Connected
            &&& output_ready(connected, o) == Ok::<(), PortError>(())
            &&& connected.outputs[o@] == ZmqOutputPortState::Connected(i)
        }),
{
}

/// Connecting an open output port: the loop publishes only connection
/// attempts `Connect(source, target)`, one before each reply it waits for;
/// while no reply acknowledges, the port stays open, so it cannot send and
/// no message from it is made; at the first acknowledgement the port
/// becomes connected to the input port that acknowledged, and the loop
/// ends.
pub proof fn lemma_connect_loop(
    t: ZmqTransportView,
    source: OutputPortID,
    target: InputPortID,
    replies: Seq<ZmqTransportEvent>,
)
    requires
        t.outputs.contains_key(source@),
        t.outputs[source@] is Open,
    ensures
        forall|k: int|
            0 <= k < connect_publications(source, target, replies).len() ==> #[trigger] connect_publications(
                source,
                target,
                replies,
            )[k] == ZmqTransportEvent::Connect(source, target),
        first_ack(replies) <= replies.len(),
        forall|k: int|
            0 <= k < first_ack(replies) ==> !(#[trigger] replies[k] is AckConnection),
        forall|k: int|
            0 <= k <= first_ack(replies) && k <= replies.len() ==> {
                let before = ZmqTransportView {
                    outputs: after_connect_replies(t.outputs, source, #[trigger] replies.take(k)),
                    inputs: t.inputs,
                };
                &&& before.outputs == t.outputs
                &&& output_ready(before, source) == Err::<(), PortError>(PortError::Disconnected)
            },
        first_ack(replies) < replies.len() ==> after_connect_replies(t.outputs, source, replies)
            == t.outputs.insert(
            source@,
            ZmqOutputPortState::Connected(replies[first_ack(replies) as int]->AckConnection_1),
        ),
        first_ack(replies) == replies.len() ==> after_connect_replies(t.outputs, source, replies)
            == t.outputs,
    decreases replies.len(),
{
    if replies.len() > 0 {
        let rest = replies.drop_first();
        if !(replies[0] is AckConnection) {
            lemma_connect_loop(t, source, target, rest);
            assert forall|k: int| 0 <= k < first_ack(replies) implies !(
            #[trigger] replies[k] is AckConnection) by {
                if k > 0 {
                    assert(replies[k] == rest[k - 1]);
                }
            }
            assert forall|k: int| 0 <= k <= first_ack(replies) && k <= replies.len() implies {
                let before = ZmqTransportView {
                    outputs: after_connect_replies(t.outputs, source, #[trigger] replies.take(k)),
                    inputs: t.inputs,
                };
                &&& before.outputs == t.outputs
                &&& output_ready(before, source) == Err::<(), PortError>(PortError::Disconnected)
            } by {
                if k > 0 {
                    assert(replies.take(k).drop_first() =~= rest.take(k - 1));
                }
            }
            if first_ack(replies) < replies.len() {
                assert(replies[first_ack(replies) as int] == rest[first_ack(rest) as int]);
            }
        } else {
            assert forall|k: int| 0 <= k <= first_ack(replies) && k <= replies.len() implies {
                let before = ZmqTransportView {
                    outputs: after_connect_replies(t.outputs, source, #[trigger] replies.take(k)),
                    inputs: t.inputs,
                };
                &&& before.outputs == t.outputs
                &&& output_ready(before, source) == Err::<(), PortError>(PortError::Disconnected)
            } by {
                assert(replies.take(k).len() == 0);
            }
        }
    } else {
        assert forall|k: int| 0 <= k <= first_ack(replies) && k <= replies.len() implies {
            let before = ZmqTransportView {
                outputs: after_connect_replies(t.outputs, source, #[trigger] replies.take(k)),
                inputs: t.inputs,
            };
            &&& before.outputs == t.outputs
            &&& output_ready(before, source) == Err::<(), PortError>(PortError::Disconnected)
        } by {
            assert(replies.take(k).len() == 0);
        }
    }
}

/// What an output port sends is what the input port at the other end
/// receives: the worker turns the payload into a message to its target,
/// the message is passed on to that input port alone, carrying the same
/// payload, and receiving it yields that payload.
pub proof fn lemma_payload_delivered(
    t: ZmqTransportView,
    w: OutputSendWorker,
    connected: InputPortID,
    payload: Vec<u8>,
)
    requires
        routable(t, send_worker_step(w, connected, ZmqOutputPortRequest::Send(payload)).1),
    ensures
        ({
            let e = send_worker_step(w, connected, ZmqOutputPortRequest::Send(payload)).1;
            &&& e == ZmqTransportEvent::Message(w.source, w.target, w.next_seq, payload)
            &&& routes(t, e) == seq![
                Delivery::ToInputPort(w.target, ZmqInputPortEvent::Message(payload)),
            ]
            &&& recv_outcome(Ok(ZmqInputPortEvent::Message(payload))) == Some(
                Ok::<Option<Vec<u8>>, PortError>(Some(payload)),
            )
        }),
{
}

/// Among requests that are all sends, the number of sends before the
/// `k`-th is `k`.
proof fn lemma_all_sends(reqs: Seq<ZmqOutputPortRequest>, k: int)
    requires
        0 <= k <= reqs.len(),
        forall|j: int| 0 <= j < reqs.len() ==> #[trigger] reqs[j] is Send,
    ensures
        sends_before(reqs, k) == k,
    decreases k,
{
    if k > 0 {
        assert(reqs[0] is Send);
        let rest = reqs.drop_first();
        assert forall|j: int| 0 <= j < rest.len() implies #[trigger] rest[j] is Send by {
            assert(rest[j] == reqs[j + 1]);
        }
        lemma_all_sends(rest, k - 1);
    }
}

/// The sends of a new connection carry the numbers 1, 2, 3, ... in order,
/// with no gap and no repeat: the `k`-th send (counting from 0) that a new
/// worker handles becomes the message numbered `k + 1`, to the connection's
/// target, with that send's payload.
pub proof fn lemma_sends_numbered_from_one(
    source: OutputPortID,
    target: InputPortID,
    connected: InputPortID,
    payloads: Seq<Vec<u8>>,
)
    requires
        payloads.len() < u64::MAX,
    ensures
        ({
            let w = OutputSendWorker { source, target, next_seq: 1 };
            let reqs = payloads.map_values(|p: Vec<u8>| ZmqOutputPortRequest::Send(p));
            forall|k: int|
                0 <= k < payloads.len() ==> #[trigger] send_worker_run(w, connected, reqs)[k]
                    == ZmqTransportEvent::Message(source, target, (k + 1) as u64, payloads[k])
        }),
{
    let w = OutputSendWorker { source, target, next_seq: 1 };
    let reqs = payloads.map_values(|p: Vec<u8>| ZmqOutputPortRequest::Send(p));
    assert forall|j: int| 0 <= j < reqs.len() implies #[trigger] reqs[j] is Send by {}
    lemma_all_sends(reqs, reqs.len() as int);
    lemma_message_numbers(w, connected, reqs);
    assert forall|k: int| 0 <= k < payloads.len() implies #[trigger] send_worker_run(
        w,
        connected,
        reqs,
    )[k] == ZmqTransportEvent::Message(source, target, (k + 1) as u64, payloads[k]) by {
        lemma_all_sends(reqs, k);
        assert(reqs[k] == ZmqOutputPortRequest::Send(payloads[k]));
    }
}

/// A connected input port receives a stream in order: when its worker gets
/// messages addressed to it and then the close of the input, each is passed
/// on to that port, in the same order, and receiving yields each message's
/// payload and then the end of the stream (`Ok(None)`).
pub proof fn lemma_stream_received_in_order(input: InputPortID, events: Seq<ZmqTransportEvent>)
    requires
        events.len() >= 1,
        forall|j: int|
            0 <= j < events.len() - 1 ==> (#[trigger] events[j] matches ZmqTransportEvent::Message(
                _,
                i,
                _,
                _,
            ) && i == input),
        events.last() == ZmqTransportEvent::CloseInput(input),
    ensures
        forall|j: int|
            0 <= j < events.len() ==> (#[trigger] input_worker_action(events[j]) matches InputWorkerAction::Deliver(
                port,
                report,
            ) && port == input && recv_outcome(Ok(report)) == if j < events.len() - 1 {
                Some(Ok::<Option<Vec<u8>>, PortError>(Some(events[j]->Message_3)))
            } else {
                Some(Ok::<Option<Vec<u8>>, PortError>(None))
            }),
{
    assert forall|j: int| 0 <= j < events.len() implies (#[trigger] input_worker_action(
        events[j],
    ) matches InputWorkerAction::Deliver(port, report) && port == input && recv_outcome(Ok(report))
        == if j < events.len() - 1 {
        Some(Ok::<Option<Vec<u8>>, PortError>(Some(events[j]->Message_3)))
    } else {
        Some(Ok::<Option<Vec<u8>>, PortError>(None))
    }) by {
        if j < events.len() - 1 {
            assert(events[j] is Message);
        } else {
            assert(events[j] == ZmqTransportEvent::CloseInput(input));
        }
    }
}

/// The worker of an input port acts on the events addressed to input
/// ports and on nothing else. A connection attempt connects the input port
/// it names; a message is passed on to the input port it names as exactly
/// its payload; the close of an input port is passed on to that port as the
/// end of its stream; acknowledgements and the close of an output port,
/// which are meant for output ports, are ignored.
pub proof fn lemma_input_worker_actions(
    o: OutputPortID,
    i: InputPortID,
    seq: SequenceID,
    payload: Vec<u8>,
)
    ensures
        input_worker_action(ZmqTransportEvent::Connect(o, i)) == InputWorkerAction::Connected(i),
        input_worker_action(ZmqTransportEvent::Message(o, i, seq, payload))
            == InputWorkerAction::Deliver(i, ZmqInputPortEvent::Message(payload)),
        input_worker_action(ZmqTransportEvent::CloseInput(i)) == InputWorkerAction::Deliver(
            i,
            ZmqInputPortEvent::Closed,
        ),
        input_worker_action(ZmqTransportEvent::AckConnection(o, i)) == InputWorkerAction::Ignore,
        input_worker_action(ZmqTransportEvent::AckMessage(o, i, seq)) == InputWorkerAction::Ignore,
        input_worker_action(ZmqTransportEvent::CloseOutput(o, i)) == InputWorkerAction::Ignore,
{
}

/// Whatever the input worker passes on goes to the input port that the
/// event names, and only a message or the close of that input is passed on;
/// a message is passed on with its payload unchanged, and only the close of
/// an input ends its stream.
pub proof fn lemma_input_worker_delivers_to_named_input(e: ZmqTransportEvent)
    ensures
        input_worker_action(e) matches InputWorkerAction::Deliver(port, report) ==> {
            &&& port == event_input(e)
            &&& (e is Message || e is CloseInput)
            &&& (report is Closed <==> e is CloseInput)
            &&& (e matches ZmqTransportEvent::Message(_, _, _, p) ==> report
                == ZmqInputPortEvent::Message(p))
        },
        input_worker_action(e) matches InputWorkerAction::Connected(port) ==> e is Connect && port
            == event_input(e),
        (e is AckConnection || e is AckMessage || e is CloseOutput) ==> input_worker_action(e)
            is Ignore,
{
}

/// The events the input worker handles without failing: a connection
/// attempt for an input port the transport knows, a message or a close for
/// one that is connected; events meant for output ports always.
pub proof fn lemma_input_worker_accepts(t: ZmqTransportView, e: ZmqTransportEvent)
    ensures
        (e is AckConnection || e is AckMessage || e is CloseOutput) ==> input_worker_accepts(t, e),
        e is Connect ==> (input_worker_accepts(t, e) <==> t.inputs.contains_key(event_input(e)@)),
        (e is Message || e is CloseInput) ==> (input_worker_accepts(t, e) <==> (t.inputs.contains_key(
            event_input(e)@,
        ) && t.inputs[event_input(e)@] is Connected)),
{
}

/// Which incoming events can be passed on. An acknowledgement of a
/// connection can when the output port it names is known and open, one of
/// a message when that port is known and connected; a connection attempt or
/// the close of an output can when the input port it names is known and
/// not closed; a message can when the input port it names is connected and
/// accepts messages from the output port that sent it.
pub proof fn lemma_routable_events(
    t: ZmqTransportView,
    o: OutputPortID,
    i: InputPortID,
    seq: SequenceID,
    payload: Vec<u8>,
)
    ensures
        routable(t, ZmqTransportEvent::AckConnection(o, i)) <==> (t.outputs.contains_key(o@)
            && t.outputs[o@] == ZmqOutputPortState::Open),
        routable(t, ZmqTransportEvent::AckMessage(o, i, seq)) <==> (t.outputs.contains_key(o@)
            && t.outputs[o@] is Connected),
        routable(t, ZmqTransportEvent::Connect(o, i)) <==> (t.inputs.contains_key(i@)
            && t.inputs[i@] != ZmqInputPortState::Closed),
        routable(t, ZmqTransportEvent::CloseOutput(o, i)) <==> (t.inputs.contains_key(i@)
            && t.inputs[i@] != ZmqInputPortState::Closed),
        routable(t, ZmqTransportEvent::Message(o, i, seq, payload)) <==> (t.inputs.contains_key(i@)
            && (t.inputs[i@] matches ZmqInputPortState::Connected(ids) && ids@.contains(o))),
{
}

/// The close of an input port can be passed on only when every output port
/// is connected to that input: one output port that is not connected, or is
/// connected to another input, makes it impossible.
pub proof fn lemma_close_input_routable(t: ZmqTransportView, i: InputPortID, k: isize)
    ensures
        routable(t, ZmqTransportEvent::CloseInput(i)) && t.outputs.contains_key(k) ==> t.outputs[k]
            == ZmqOutputPortState::Connected(i),
        t.outputs.contains_key(k) && t.outputs[k] != ZmqOutputPortState::Connected(i) ==> !routable(
            t,
            ZmqTransportEvent::CloseInput(i),
        ),
        (forall|j: isize| #[trigger]
            t.outputs.contains_key(j) ==> t.outputs[j] == ZmqOutputPortState::Connected(i))
            ==> routable(t, ZmqTransportEvent::CloseInput(i)),
{
}

/// Where a routable event goes. An acknowledgement goes to the worker of
/// the output port it names, and nowhere else. A connection attempt and the
/// close of an output go to the worker of the input port they name, and
/// nowhere else. A message goes to the input port it names, as exactly its
/// payload. The close of an input port goes to the worker of every output
/// port, each once, in the order of their identifiers, all of them
/// connected to that input.
pub proof fn lemma_route_destinations(t: ZmqTransportView, e: ZmqTransportEvent)
    requires
        routable(t, e),
        crate::transport::outputs_numbered(t.outputs),
        t.outputs.len() <= isize::MAX,
    ensures
        e matches ZmqTransportEvent::AckMessage(o, _, _) ==> routes(t, e) == seq![
            Delivery::ToOutputWorker(o, e),
        ],
        e matches ZmqTransportEvent::AckConnection(o, _) ==> routes(t, e) == seq![
            Delivery::ToOutputWorker(o, e),
        ],
        (e is Connect || e is CloseOutput) ==> routes(t, e) == seq![
            Delivery::ToInputWorker(event_input(e), e),
        ],
        e matches ZmqTransportEvent::Message(_, i, _, p) ==> routes(t, e) == seq![
            Delivery::ToInputPort(i, ZmqInputPortEvent::Message(p)),
        ],
        e matches ZmqTransportEvent::CloseInput(i) ==> {
            &&& routes(t, e).len() == t.outputs.len()
            &&& forall|j: int|
                0 <= j < routes(t, e).len() ==> (#[trigger] routes(t, e)[j] matches Delivery::ToOutputWorker(
                    port,
                    ev,
                ) && port@ == j + 1 && ev == ZmqTransportEvent::CloseInput(i)
                    && t.outputs.contains_key(port@) && t.outputs[port@]
                    == ZmqOutputPortState::Connected(i))
        },
{
    if let ZmqTransportEvent::CloseInput(i) = e {
        assert forall|j: int| 0 <= j < routes(t, e).len() implies (#[trigger] routes(
            t,
            e,
        )[j] matches Delivery::ToOutputWorker(port, ev) && port@ == j + 1 && ev
            == ZmqTransportEvent::CloseInput(i) && t.outputs.contains_key(port@) && t.outputs[port@]
            == ZmqOutputPortState::Connected(i)) by {
            let k: isize = (j + 1) as isize;
            assert(k == j + 1);
            crate::port::lemma_output_id_of(k);
            assert(t.outputs.contains_key(k));
            assert(routes(t, e)[j] == Delivery::ToOutputWorker(
                crate::port::output_id_of(k),
                ZmqTransportEvent::CloseInput(i),
            ));
        }
    }
}

/// Receiving skips every `Opened` and every `Connected` report, whatever
/// port it names; a message yields exactly its payload; only `Closed` ends
/// the stream; a failed receive yields its error text.
pub proof fn lemma_recv_outcomes(o: OutputPortID, payload: Vec<u8>, msg: String, r: Result<ZmqInputPortEvent, String>)
    ensures
        recv_outcome(Ok(ZmqInputPortEvent::Opened)) is None,
        recv_outcome(Ok(ZmqInputPortEvent::Connected(o))) is None,
        recv_outcome(Ok(ZmqInputPortEvent::Message(payload))) == Some(
            Ok::<Option<Vec<u8>>, PortError>(Some(payload)),
        ),
        recv_outcome(Ok(ZmqInputPortEvent::Closed)) == Some(Ok::<Option<Vec<u8>>, PortError>(None)),
        recv_outcome(Err(msg)) == Some(Err::<Option<Vec<u8>>, PortError>(PortError::Other(msg))),
        recv_outcome(r) == Some(Ok::<Option<Vec<u8>>, PortError>(None)) ==> r == Ok::<
            ZmqInputPortEvent,
            String,
        >(ZmqInputPortEvent::Closed),
        recv_outcome(r) is None <==> (r matches Ok(ev) && (ev is Opened || ev is Connected)),
{
}

/// A port is ready to send, receive or be closed exactly when the transport
/// knows it and it is connected; an unknown port is `Invalid`, a known one
/// that is not connected is `Disconnected`.
pub proof fn lemma_readiness(t: ZmqTransportView, o: OutputPortID, i: InputPortID)
    ensures
        output_ready(t, o) is Ok <==> (t.outputs.contains_key(o@) && t.outputs[o@] is Connected),
        !t.outputs.contains_key(o@) ==> output_ready(t, o) == Err::<(), PortError>(
            PortError::Invalid(crate::port::PortID::Output(o)),
        ),
        t.outputs.contains_key(o@) && !(t.outputs[o@] is Connected) ==> output_ready(t, o) == Err::<
            (),
            PortError,
        >(PortError::Disconnected),
        input_ready(t, i) is Ok <==> (t.inputs.contains_key(i@) && t.inputs[i@] is Connected),
        !t.inputs.contains_key(i@) ==> input_ready(t, i) == Err::<(), PortError>(
            PortError::Invalid(crate::port::PortID::Input(i)),
        ),
        t.inputs.contains_key(i@) && !(t.inputs[i@] is Connected) ==> input_ready(t, i) == Err::<
            (),
            PortError,
        >(PortError::Disconnected),
{
}

/// The life-cycle state that a port's state stands for.
pub proof fn lemma_port_states(i: InputPortID, ids: Vec<OutputPortID>)
    ensures
        output_port_state(ZmqOutputPortState::Open) == PortState::Open,
        output_port_state(ZmqOutputPortState::Connected(i)) == PortState::Connected,
        output_port_state(ZmqOutputPortState::Closed) == PortState::Closed,
        input_port_state(ZmqInputPortState::Open) == PortState::Open,
        input_port_state(ZmqInputPortState::Connected(ids)) == PortState::Connected,
        input_port_state(ZmqInputPortState::Closed) == PortState::Closed,
{
}

} // verus!
