//! The worker that turns an output port's requests into events on the wire.
use vstd::prelude::*;
use crate::event::{SequenceID, ZmqOutputPortRequest, ZmqTransportEvent};
use crate::port::{InputPortID, OutputPortID};
use crate::transport::ZmqTransport;

verus! {

/// The sending side of a connection from `source` to `target`: it numbers
/// the messages it sends, starting from `next_seq`.
#[derive(Clone, Copy, Debug)]
pub struct OutputSendWorker {
    pub source: OutputPortID,
    pub target: InputPortID,
    pub next_seq: SequenceID,
}

/// What handling one request does: a send becomes a message carrying the
/// next number, which then advances; a close becomes a `CloseOutput` to the
/// input port that the output is connected to.
pub open spec fn send_worker_step(
    w: OutputSendWorker,
    connected: InputPortID,
    r: ZmqOutputPortRequest,
) -> (OutputSendWorker, ZmqTransportEvent) {
    match r {
        ZmqOutputPortRequest::Send(bytes) => (
            OutputSendWorker { next_seq: (w.next_seq + 1) as u64, ..w },
            ZmqTransportEvent::Message(w.source, w.target, w.next_seq, bytes),
        ),
        ZmqOutputPortRequest::Close => (w, ZmqTransportEvent::CloseOutput(w.source, connected)),
    }
}

/// The events that a worker makes of a sequence of requests, in order.
pub open spec fn send_worker_run(
    w: OutputSendWorker,
    connected: InputPortID,
    reqs: Seq<ZmqOutputPortRequest>,
) -> Seq<ZmqTransportEvent>
    decreases reqs.len(),
{
    if reqs.len() == 0 {
        Seq::empty()
    } else {
        let (next, e) = send_worker_step(w, connected, reqs[0]);
        seq![e] + send_worker_run(next, connected, reqs.drop_first())
    }
}

/// The number of sends among the first `k` requests.
pub open spec fn sends_before(reqs: Seq<ZmqOutputPortRequest>, k: int) -> nat
    decreases k,
{
    if k <= 0 || reqs.len() == 0 {
        0
    } else {
        (if reqs[0] is Send {
            1nat
        } else {
            0nat
        }) + sends_before(reqs.drop_first(), k - 1)
    }
}

impl OutputSendWorker {
    /// The worker of a new connection: its first message is number 1.
    pub fn new(source: OutputPortID, target: InputPortID) -> (w: OutputSendWorker)
        ensures
            w.source == source,
            w.target == target,
            w.next_seq == 1,
    {
        OutputSendWorker { source, target, next_seq: 1 }
    }

    /// Handles one request of the output port `source`, which must be known
    /// to the transport and connected.
    pub fn handle(&mut self, transport: &ZmqTransport, request: ZmqOutputPortRequest) -> (e:
        ZmqTransportEvent)
        requires
            transport@.outputs.contains_key(old(self).source@),
            transport@.outputs[old(self).source@] is Connected,
            request is Send ==> old(self).next_seq < u64::MAX,
        ensures
            (*final(self), e) == send_worker_step(
                *old(self),
                transport@.outputs[old(self).source@]->Connected_0,
                request,
            ),
    {
        match request {
            ZmqOutputPortRequest::Send(bytes) => {
                let e = ZmqTransportEvent::Message(self.source, self.target, self.next_seq, bytes);
                self.next_seq = self.next_seq + 1;
                e
            },
            ZmqOutputPortRequest::Close => {
                let connected = transport.connected_input(self.source);
                ZmqTransportEvent::CloseOutput(self.source, connected)
            },
        }
    }
}

/// Messages on one connection are numbered consecutively: the event made
/// for the `k`-th request is, for a send, the message carrying the worker's
/// first number plus the number of sends before it, and, for a close, the
/// `CloseOutput` to the connected input port.
pub proof fn lemma_message_numbers(
    w: OutputSendWorker,
    connected: InputPortID,
    reqs: Seq<ZmqOutputPortRequest>,
)
    requires
        w.next_seq + sends_before(reqs, reqs.len() as int) <= u64::MAX,
    ensures
        send_worker_run(w, connected, reqs).len() == reqs.len(),
        forall|k: int|
            0 <= k < reqs.len() ==> #[trigger] send_worker_run(w, connected, reqs)[k] == match reqs[k] {
                ZmqOutputPortRequest::Send(bytes) => ZmqTransportEvent::Message(
                    w.source,
                    w.target,
                    (w.next_seq + sends_before(reqs, k)) as u64,
                    bytes,
                ),
                ZmqOutputPortRequest::Close => ZmqTransportEvent::CloseOutput(w.source, connected),
            },
    decreases reqs.len(),
{
    if reqs.len() > 0 {
        let (next, e) = send_worker_step(w, connected, reqs[0]);
        let rest = reqs.drop_first();
        assert(sends_before(reqs, reqs.len() as int) == (if reqs[0] is Send {
            1nat
        } else {
            0nat
        }) + sends_before(rest, rest.len() as int));
        lemma_message_numbers(next, connected, rest);
        let run = send_worker_run(w, connected, reqs);
        assert forall|k: int| 0 <= k < reqs.len() implies #[trigger] run[k] == match reqs[k] {
            ZmqOutputPortRequest::Send(bytes) => ZmqTransportEvent::Message(
                w.source,
                w.target,
                (w.next_seq + sends_before(reqs, k)) as u64,
                bytes,
            ),
            ZmqOutputPortRequest::Close => ZmqTransportEvent::CloseOutput(w.source, connected),
        } by {
            if k > 0 {
                assert(run[k] == send_worker_run(next, connected, rest)[k - 1]);
                assert(rest[k - 1] == reqs[k]);
            }
        }
    }
}

} // verus!
