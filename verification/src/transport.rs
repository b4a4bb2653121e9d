//! The state of a ZeroMQ transport's ports, and the decisions that the
//! transport takes on it. The channels, sockets and background tasks that
//! carry out those decisions live outside the library.
use vstd::prelude::*;
use std::collections::BTreeMap;
use crate::event::{ZmqInputPortEvent, ZmqOutputPortEvent, ZmqTransportEvent};
use crate::port::{
    lemma_output_id_eq, lemma_output_id_of, output_id_of, InputPortID, OutputPortID, PortError,
    PortID, PortState,
};

verus! {

broadcast use {vstd::std_specs::btree::group_btree_axioms, vstd::laws_cmp::group_laws_cmp};

/// What the transport knows of one of its output ports.
#[derive(Clone, Debug)]
pub enum ZmqOutputPortState {
    /// Opened, not yet connected.
    Open,
    /// Connected to the given input port.
    Connected(InputPortID),
    /// Closed.
    Closed,
}

/// What the transport knows of one of its input ports.
#[derive(Clone, Debug)]
pub enum ZmqInputPortState {
    /// Opened, not yet connected.
    Open,
    /// Connected; the output ports it accepts messages from.
    Connected(Vec<OutputPortID>),
    /// Closed.
    Closed,
}

/// The life-cycle state that an output port's state stands for.
pub open spec fn output_port_state(s: ZmqOutputPortState) -> PortState {
    match s {
        ZmqOutputPortState::Open => PortState::Open,
        ZmqOutputPortState::Connected(_) => PortState::Connected,
        ZmqOutputPortState::Closed => PortState::Closed,
    }
}

/// The life-cycle state that an input port's state stands for.
pub open spec fn input_port_state(s: ZmqInputPortState) -> PortState {
    match s {
        ZmqInputPortState::Open => PortState::Open,
        ZmqInputPortState::Connected(_) => PortState::Connected,
        ZmqInputPortState::Closed => PortState::Closed,
    }
}

impl ZmqOutputPortState {
    /// The life-cycle state that this state stands for.
    pub fn state(&self) -> (s: PortState)
        ensures
            s == output_port_state(*self),
    {
        match self {
            ZmqOutputPortState::Open => PortState::Open,
            ZmqOutputPortState::Connected(_) => PortState::Connected,
            ZmqOutputPortState::Closed => PortState::Closed,
        }
    }
}

impl ZmqInputPortState {
    /// The life-cycle state that this state stands for.
    pub fn state(&self) -> (s: PortState)
        ensures
            s == input_port_state(*self),
    {
        match self {
            ZmqInputPortState::Open => PortState::Open,
            ZmqInputPortState::Connected(_) => PortState::Connected,
            ZmqInputPortState::Closed => PortState::Closed,
        }
    }
}

/// The ports of a transport, each under the integer of its identifier.
pub struct ZmqTransport {
    outputs: BTreeMap<isize, ZmqOutputPortState>,
    inputs: BTreeMap<isize, ZmqInputPortState>,
}

/// The ports of a transport, as maps from identifiers to states.
pub struct ZmqTransportView {
    pub outputs: Map<isize, ZmqOutputPortState>,
    pub inputs: Map<isize, ZmqInputPortState>,
}

impl View for ZmqTransport {
    type V = ZmqTransportView;

    closed spec fn view(&self) -> ZmqTransportView {
        ZmqTransportView { outputs: self.outputs@, inputs: self.inputs@ }
    }
}

/// Output ports are numbered 1, 2, ... in the order they were opened.
pub open spec fn outputs_numbered(outputs: Map<isize, ZmqOutputPortState>) -> bool {
    forall|k: isize| #[trigger] outputs.contains_key(k) <==> 1 <= k <= outputs.len()
}

/// What waiting for an input port to open makes of one received event, or
/// of a failed receive (with its error text): the port's identifier once it
/// reports `Opened`, the error once receiving fails, and `None` (wait on)
/// for any other event.
pub fn open_input_step(id: InputPortID, received: Result<ZmqInputPortEvent, String>) -> (r: Option<
    Result<InputPortID, PortError>,
>)
    ensures
        r == match received {
            Ok(ZmqInputPortEvent::Opened) => Some(Ok(id)),
            Ok(_) => None,
            Err(msg) => Some(Err(PortError::Other(msg))),
        },
{
    match received {
        Ok(ZmqInputPortEvent::Opened) => Some(Ok(id)),
        Ok(_) => None,
        Err(msg) => Some(Err(PortError::Other(msg))),
    }
}

/// What waiting for an output port to close makes of one received event:
/// `true` once the port reports `Closed`, the error once receiving fails,
/// and `None` (wait on) for any other event.
pub fn close_output_step(received: Result<ZmqOutputPortEvent, String>) -> (r: Option<
    Result<bool, PortError>,
>)
    ensures
        r == match received {
            Ok(ZmqOutputPortEvent::Closed) => Some(Ok(true)),
            Ok(_) => None,
            Err(msg) => Some(Err(PortError::Other(msg))),
        },
{
    match received {
        Ok(ZmqOutputPortEvent::Closed) => Some(Ok(true)),
        Ok(_) => None,
        Err(msg) => Some(Err(PortError::Other(msg))),
    }
}

/// What waiting for a connection makes of one received event: `true` once
/// the port reports `Connected`, the error once receiving fails, and `None`
/// (wait on) for any other event.
pub fn connect_step(received: Result<ZmqOutputPortEvent, String>) -> (r: Option<
    Result<bool, PortError>,
>)
    ensures
        r == match received {
            Ok(ZmqOutputPortEvent::Connected(_)) => Some(Ok(true)),
            Ok(_) => None,
            Err(msg) => Some(Err(PortError::Other(msg))),
        },
{
    match received {
        Ok(ZmqOutputPortEvent::Connected(_)) => Some(Ok(true)),
        Ok(_) => None,
        Err(msg) => Some(Err(PortError::Other(msg))),
    }
}

/// What receiving on an input port makes of one received event: the
/// payload of a message, end of stream (`Ok(None)`) once the port reports
/// `Closed`, the error once receiving fails, and `None` (wait on) for the
/// `Opened` and `Connected` reports.
pub fn recv_step(received: Result<ZmqInputPortEvent, String>) -> (r: Option<
    Result<Option<Vec<u8>>, PortError>,
>)
    ensures
        r == recv_outcome(received),
{
    match received {
        Ok(ZmqInputPortEvent::Opened) => None,
        Ok(ZmqInputPortEvent::Connected(_)) => None,
        Ok(ZmqInputPortEvent::Closed) => Some(Ok(None)),
        Ok(ZmqInputPortEvent::Message(bytes)) => Some(Ok(Some(bytes))),
        Err(msg) => Some(Err(PortError::Other(msg))),
    }
}

/// What receiving on an input port makes of one received event (see
/// `recv_step`).
pub open spec fn recv_outcome(received: Result<ZmqInputPortEvent, String>) -> Option<
    Result<Option<Vec<u8>>, PortError>,
> {
    match received {
        Ok(ZmqInputPortEvent::Opened) => None,
        Ok(ZmqInputPortEvent::Connected(_)) => None,
        Ok(ZmqInputPortEvent::Closed) => Some(Ok(None)),
        Ok(ZmqInputPortEvent::Message(bytes)) => Some(Ok(Some(bytes))),
        Err(msg) => Some(Err(PortError::Other(msg))),
    }
}

/// The outcome of closing an input port, from the reply of its worker:
/// `true` when the worker confirms, the worker's error when it reports
/// one, and `Disconnected` when no reply comes.
pub fn close_input_result(reply: Option<Result<(), PortError>>) -> (r: Result<bool, PortError>)
    ensures
        r == match reply {
            Some(Ok(())) => Ok(true),
            Some(Err(e)) => Err(e),
            None => Err::<bool, PortError>(PortError::Disconnected),
        },
{
    match reply {
        Some(Ok(())) => Ok(true),
        Some(Err(e)) => Err(e),
        None => Err(PortError::Disconnected),
    }
}

/// The outcome of sending on an output port, from the acknowledgement of
/// its worker: the worker's answer, or `Disconnected` when none comes.
pub fn send_result(reply: Option<Result<(), PortError>>) -> (r: Result<(), PortError>)
    ensures
        r == match reply {
            Some(answer) => answer,
            None => Err::<(), PortError>(PortError::Disconnected),
        },
{
    match reply {
        Some(answer) => answer,
        None => Err(PortError::Disconnected),
    }
}

/// What the worker of an input port is to do about an event.
#[derive(Clone, Debug)]
pub enum InputWorkerAction {
    /// The input port has become connected: it needs its channels.
    Connected(InputPortID),
    /// Pass this report on to the input port.
    Deliver(InputPortID, ZmqInputPortEvent),
    /// Nothing: the event is meant for output ports.
    Ignore,
}

/// Where an incoming event is to be passed on.
#[derive(Clone, Debug)]
pub enum Delivery {
    /// To the worker of an input port.
    ToInputWorker(InputPortID, ZmqTransportEvent),
    /// To an input port itself, as a report it receives.
    ToInputPort(InputPortID, ZmqInputPortEvent),
    /// To the worker of an output port.
    ToOutputWorker(OutputPortID, ZmqTransportEvent),
}

/// The events that the worker of an input port can handle: a connection
/// attempt for a known port, and a message or a close for a connected one.
pub open spec fn input_worker_accepts(t: ZmqTransportView, e: ZmqTransportEvent) -> bool {
    match e {
        ZmqTransportEvent::Connect(_, i) => t.inputs.contains_key(i@),
        ZmqTransportEvent::Message(_, i, _, _) => t.inputs.contains_key(i@) && t.inputs[i@] is Connected,
        ZmqTransportEvent::CloseInput(i) => t.inputs.contains_key(i@) && t.inputs[i@] is Connected,
        _ => true,
    }
}

/// The event that an output port publishes to connect `source` to
/// `target`: before its first wait for a reply, and again after every reply
/// that does not acknowledge the connection.
pub fn connect_attempt(source: OutputPortID, target: InputPortID) -> (e: ZmqTransportEvent)
    ensures
        e == ZmqTransportEvent::Connect(source, target),
{
    ZmqTransportEvent::Connect(source, target)
}

/// The position of the first acknowledgement of a connection among the
/// replies, or their number when none acknowledges.
pub open spec fn first_ack(replies: Seq<ZmqTransportEvent>) -> nat
    decreases replies.len(),
{
    if replies.len() == 0 {
        0
    } else if replies[0] is AckConnection {
        0
    } else {
        1 + first_ack(replies.drop_first())
    }
}

/// The output ports after the connect loop of `source` has handled
/// `replies`: each reply that is not an acknowledgement changes nothing
/// (the attempt is published again); the first acknowledgement connects the
/// port to the input port that sent it, and ends the loop.
pub open spec fn after_connect_replies(
    outputs: Map<isize, ZmqOutputPortState>,
    source: OutputPortID,
    replies: Seq<ZmqTransportEvent>,
) -> Map<isize, ZmqOutputPortState>
    decreases replies.len(),
{
    if replies.len() == 0 {
        outputs
    } else if replies[0] is AckConnection {
        outputs.insert(source@, ZmqOutputPortState::Connected(replies[0]->AckConnection_1))
    } else {
        after_connect_replies(outputs, source, replies.drop_first())
    }
}

/// The events that the connect loop of `source` publishes while it handles
/// `replies`: one connection attempt before each reply it waits for, up to
/// and including the first acknowledgement.
pub open spec fn connect_publications(
    source: OutputPortID,
    target: InputPortID,
    replies: Seq<ZmqTransportEvent>,
) -> Seq<ZmqTransportEvent> {
    Seq::new(
        if first_ack(replies) < replies.len() {
            first_ack(replies) + 1
        } else {
            replies.len()
        },
        |k: int| ZmqTransportEvent::Connect(source, target),
    )
}

/// What the worker of an input port does about an event: a connection
/// attempt connects the port, a message is passed on to the port as its
/// payload, a close of the input is passed on as `Closed`, and events meant
/// for output ports are ignored.
pub open spec fn input_worker_action(e: ZmqTransportEvent) -> InputWorkerAction {
    match e {
        ZmqTransportEvent::Connect(_, i) => InputWorkerAction::Connected(i),
        ZmqTransportEvent::Message(_, i, _, bytes) => InputWorkerAction::Deliver(
            i,
            ZmqInputPortEvent::Message(bytes),
        ),
        ZmqTransportEvent::CloseInput(i) => InputWorkerAction::Deliver(i, ZmqInputPortEvent::Closed),
        _ => InputWorkerAction::Ignore,
    }
}

/// The incoming events that can be passed on: connection attempts and
/// closes of output ports go to a known input port that is not closed; a
/// message goes to a known, connected input port that accepts messages from
/// its sender; acknowledgements go to a known output port, open for a
/// connection and connected for a message; the close of an input port goes
/// to every output port, all of which must be connected to it.
pub open spec fn routable(t: ZmqTransportView, e: ZmqTransportEvent) -> bool {
    match e {
        ZmqTransportEvent::Connect(_, i) => t.inputs.contains_key(i@) && t.inputs[i@] !is Closed,
        ZmqTransportEvent::CloseOutput(_, i) => t.inputs.contains_key(i@) && t.inputs[i@] !is Closed,
        ZmqTransportEvent::Message(o, i, _, _) => {
            &&& t.inputs.contains_key(i@)
            &&& t.inputs[i@] matches ZmqInputPortState::Connected(ids)
            &&& ids@.contains(o)
        },
        ZmqTransportEvent::AckConnection(o, _) => t.outputs.contains_key(o@) && t.outputs[o@] is Open,
        ZmqTransportEvent::AckMessage(o, _, _) => t.outputs.contains_key(o@)
            && t.outputs[o@] is Connected,
        ZmqTransportEvent::CloseInput(i) => forall|k: isize| #[trigger]
            t.outputs.contains_key(k) ==> t.outputs[k] == ZmqOutputPortState::Connected(i),
    }
}

/// Where a routable incoming event goes: the event itself to the input
/// port's worker for a connection attempt or an output's close; the payload
/// to the input port for a message; the event to the output port's worker
/// for an acknowledgement; the close of an input port to the worker of
/// every output port, in the order of their identifiers.
pub open spec fn routes(t: ZmqTransportView, e: ZmqTransportEvent) -> Seq<Delivery> {
    match e {
        ZmqTransportEvent::Connect(_, i) => seq![Delivery::ToInputWorker(i, e)],
        ZmqTransportEvent::CloseOutput(_, i) => seq![Delivery::ToInputWorker(i, e)],
        ZmqTransportEvent::Message(_, i, _, bytes) => seq![
            Delivery::ToInputPort(i, ZmqInputPortEvent::Message(bytes)),
        ],
        ZmqTransportEvent::AckConnection(o, _) => seq![Delivery::ToOutputWorker(o, e)],
        ZmqTransportEvent::AckMessage(o, _, _) => seq![Delivery::ToOutputWorker(o, e)],
        ZmqTransportEvent::CloseInput(i) => Seq::new(
            t.outputs.len(),
            |j: int|
                Delivery::ToOutputWorker(
                    output_id_of((j + 1) as isize),
                    ZmqTransportEvent::CloseInput(i),
                ),
        ),
    }
}

/// Whether an input port is ready to receive or to be closed.
pub open spec fn input_ready(t: ZmqTransportView, input: InputPortID) -> Result<(), PortError> {
    if !t.inputs.contains_key(input@) {
        Err(PortError::Invalid(PortID::Input(input)))
    } else if t.inputs[input@] is Connected {
        Ok(())
    } else {
        Err(PortError::Disconnected)
    }
}

/// Whether an output port is ready to send or to be closed.
pub open spec fn output_ready(t: ZmqTransportView, output: OutputPortID) -> Result<(), PortError> {
    if !t.outputs.contains_key(output@) {
        Err(PortError::Invalid(PortID::Output(output)))
    } else if t.outputs[output@] is Connected {
        Ok(())
    } else {
        Err(PortError::Disconnected)
    }
}

impl ZmqTransport {
    #[verifier::type_invariant]
    closed spec fn well_formed(self) -> bool {
        &&& outputs_numbered(self.outputs@)
        &&& self.outputs@.len() <= isize::MAX
    }

    /// A transport with no ports.
    pub fn new() -> (t: ZmqTransport)
        ensures
            t@.outputs == Map::<isize, ZmqOutputPortState>::empty(),
            t@.inputs == Map::<isize, ZmqInputPortState>::empty(),
    {
        ZmqTransport { outputs: BTreeMap::new(), inputs: BTreeMap::new() }
    }

    /// The output ports are numbered 1, 2, ... up to their number.
    pub fn output_count(&self) -> (n: usize)
        ensures
            n == self@.outputs.len(),
            outputs_numbered(self@.outputs),
    {
        proof {
            use_type_invariant(self);
        }
        self.outputs.len()
    }

    /// The number of input ports.
    pub fn input_count(&self) -> (n: usize)
        ensures
            n == self@.inputs.len(),
    {
        self.inputs.len()
    }

    /// The life-cycle state of an input port, or `Invalid` when the
    /// transport has no such port.
    pub fn input_state(&self, input: InputPortID) -> (r: Result<PortState, PortError>)
        ensures
            match r {
                Ok(s) => self@.inputs.contains_key(input@) && s == input_port_state(
                    self@.inputs[input@],
                ),
                Err(e) => !self@.inputs.contains_key(input@) && e == PortError::Invalid(
                    PortID::Input(input),
                ),
            },
    {
        match self.inputs.get(&input.value()) {
            Some(port) => Ok(port.state()),
            None => Err(PortError::Invalid(PortID::Input(input))),
        }
    }

    /// The life-cycle state of an output port, or `Invalid` when the
    /// transport has no such port.
    pub fn output_state(&self, output: OutputPortID) -> (r: Result<PortState, PortError>)
        ensures
            match r {
                Ok(s) => self@.outputs.contains_key(output@) && s == output_port_state(
                    self@.outputs[output@],
                ),
                Err(e) => !self@.outputs.contains_key(output@) && e == PortError::Invalid(
                    PortID::Output(output),
                ),
            },
    {
        match self.outputs.get(&output.value()) {
            Some(port) => Ok(port.state()),
            None => Err(PortError::Invalid(PortID::Output(output))),
        }
    }

    /// Opens a new output port: it gets the next number after those already
    /// given out, and starts open.
    pub fn open_output(&mut self) -> (r: Result<OutputPortID, PortError>)
        requires
            old(self)@.outputs.len() < isize::MAX,
        ensures
            r is Ok,
            r matches Ok(id) ==> {
                &&& id@ == old(self)@.outputs.len() + 1
                &&& !old(self)@.outputs.contains_key(id@)
                &&& final(self)@.outputs == old(self)@.outputs.insert(
                    id@,
                    ZmqOutputPortState::Open,
                )
            },
            final(self)@.inputs == old(self)@.inputs,
    {
        proof {
            use_type_invariant(&*self);
        }
        let n: usize = self.outputs.len();
        let next: isize = n as isize + 1;
        match OutputPortID::try_from(next) {
            Ok(new_id) => {
                let mut outputs: BTreeMap<isize, ZmqOutputPortState> = BTreeMap::new();
                std::mem::swap(&mut outputs, &mut self.outputs);
                outputs.insert(next, ZmqOutputPortState::Open);
                proof {
                    assert(!old(self).outputs@.contains_key(next));
                    assert(outputs@.len() == old(self).outputs@.len() + 1);
                    assert forall|k: isize| #[trigger]
                        outputs@.contains_key(k) <==> 1 <= k <= outputs@.len() by {
                        if k != next {
                            assert(outputs@.contains_key(k) == old(self).outputs@.contains_key(k));
                        }
                    }
                }
                self.outputs = outputs;
                Ok(new_id)
            },
            Err(e) => Err(PortError::Other(e.to_string())),
        }
    }

    /// The identifier that the next input port to be opened gets: the
    /// negative of one more than the number of input ports.
    pub fn open_input_id(&self) -> (r: Result<InputPortID, PortError>)
        requires
            self@.inputs.len() < isize::MAX,
        ensures
            r matches Ok(id) && id@ == -(self@.inputs.len() + 1),
    {
        let n: usize = self.inputs.len();
        let next: isize = -(n as isize + 1);
        match InputPortID::try_from(next) {
            Ok(id) => Ok(id),
            Err(e) => Err(PortError::Other(e.to_string())),
        }
    }

    /// Whether an input port may be closed: it must exist (else `Invalid`)
    /// and be connected (else `Disconnected`).
    pub fn close_input_check(&self, input: InputPortID) -> (r: Result<(), PortError>)
        ensures
            r == input_ready(self@, input),
    {
        match self.inputs.get(&input.value()) {
            None => Err(PortError::Invalid(PortID::Input(input))),
            Some(ZmqInputPortState::Connected(_)) => Ok(()),
            Some(_) => Err(PortError::Disconnected),
        }
    }

    /// Whether an input port may receive: it must exist (else `Invalid`)
    /// and be connected (else `Disconnected`).
    pub fn recv_check(&self, input: InputPortID) -> (r: Result<(), PortError>)
        ensures
            r == input_ready(self@, input),
    {
        self.close_input_check(input)
    }

    /// Whether an output port may send: it must exist (else `Invalid`) and
    /// be connected (else `Disconnected`).
    pub fn send_check(&self, output: OutputPortID) -> (r: Result<(), PortError>)
        ensures
            r == output_ready(self@, output),
    {
        match self.outputs.get(&output.value()) {
            None => Err(PortError::Invalid(PortID::Output(output))),
            Some(ZmqOutputPortState::Connected(_)) => Ok(()),
            Some(_) => Err(PortError::Disconnected),
        }
    }

    /// The event that closes an output port: `CloseOutput` from the port to
    /// the input port it is connected to. The port must exist (else
    /// `Invalid`) and be connected (else `Disconnected`).
    pub fn close_output_event(&self, output: OutputPortID) -> (r: Result<ZmqTransportEvent, PortError>)
        ensures
            match r {
                Ok(e) => output_ready(self@, output) is Ok && e == ZmqTransportEvent::CloseOutput(
                    output,
                    self@.outputs[output@]->Connected_0,
                ),
                Err(err) => output_ready(self@, output) == Err::<(), PortError>(err),
            },
    {
        match self.outputs.get(&output.value()) {
            None => Err(PortError::Invalid(PortID::Output(output))),
            Some(ZmqOutputPortState::Connected(input)) => Ok(
                ZmqTransportEvent::CloseOutput(output, *input),
            ),
            Some(_) => Err(PortError::Disconnected),
        }
    }

    /// Whether an output port may be connected: a known port must still be
    /// open (else `Invalid`); an unknown one may be connected.
    pub fn connect_check(&self, source: OutputPortID) -> (r: Result<(), PortError>)
        ensures
            r is Ok <==> !(self@.outputs.contains_key(source@) && self@.outputs[source@]
                !is Open),
            r matches Err(e) ==> e == PortError::Invalid(PortID::Output(source)),
    {
        match self.outputs.get(&source.value()) {
            Some(state) => {
                if state.state().is_open() {
                    Ok(())
                } else {
                    Err(PortError::Invalid(PortID::Output(source)))
                }
            },
            None => Ok(()),
        }
    }

    /// Records that an output port's connection attempt was acknowledged:
    /// on `AckConnection` the port, which must still be open, becomes connected to the input port
    /// that acknowledged, and `true` is returned; any other event changes
    /// nothing (the attempt is repeated) and `false` is returned.
    pub fn connect_acknowledged(&mut self, source: OutputPortID, event: &ZmqTransportEvent) -> (connected: bool)
        requires
            event is AckConnection ==> old(self)@.outputs.contains_key(source@) && old(
                self,
            )@.outputs[source@] is Open,
        ensures
            connected == event is AckConnection,
            event matches ZmqTransportEvent::AckConnection(_, input) ==> final(self)@.outputs
                == old(self)@.outputs.insert(source@, ZmqOutputPortState::Connected(*input)),
            !(event is AckConnection) ==> final(self)@.outputs == old(self)@.outputs,
            final(self)@.inputs == old(self)@.inputs,
    {
        proof {
            use_type_invariant(&*self);
        }
        match event {
            ZmqTransportEvent::AckConnection(_, input) => {
                let mut outputs: BTreeMap<isize, ZmqOutputPortState> = BTreeMap::new();
                std::mem::swap(&mut outputs, &mut self.outputs);
                outputs.insert(source.value(), ZmqOutputPortState::Connected(*input));
                proof {
                    assert(outputs@.dom() =~= old(self).outputs@.dom());
                }
                self.outputs = outputs;
                true
            },
            _ => false,
        }
    }

    /// Handles one event at the worker of an input port. A connection
    /// attempt makes the port connected, accepting messages from no output
    /// port yet; a message is passed on to the port; a close of the input
    /// is passed on as `Closed`; events meant for output ports are ignored.
    pub fn input_worker_step(&mut self, event: ZmqTransportEvent) -> (a: InputWorkerAction)
        requires
            input_worker_accepts(old(self)@, event),
        ensures
            a == input_worker_action(event),
            final(self)@.outputs == old(self)@.outputs,
            match event {
                ZmqTransportEvent::Connect(_, i) => {
                    &&& final(self)@.inputs == old(self)@.inputs.insert(i@, final(self)@.inputs[i@])
                    &&& final(self)@.inputs[i@] matches ZmqInputPortState::Connected(ids)
                    &&& ids@.len() == 0
                },
                _ => final(self)@.inputs == old(self)@.inputs,
            },
    {
        proof {
            use_type_invariant(&*self);
        }
        match event {
            ZmqTransportEvent::Connect(_, i) => {
                let mut inputs: BTreeMap<isize, ZmqInputPortState> = BTreeMap::new();
                std::mem::swap(&mut inputs, &mut self.inputs);
                inputs.insert(i.value(), ZmqInputPortState::Connected(Vec::new()));
                self.inputs = inputs;
                InputWorkerAction::Connected(i)
            },
            ZmqTransportEvent::Message(_, i, _, bytes) => InputWorkerAction::Deliver(
                i,
                ZmqInputPortEvent::Message(bytes),
            ),
            ZmqTransportEvent::CloseInput(i) => InputWorkerAction::Deliver(i, ZmqInputPortEvent::Closed),
            _ => InputWorkerAction::Ignore,
        }
    }

    /// Whether an incoming event can be passed on (see `routable`).
    pub fn can_route(&self, event: &ZmqTransportEvent) -> (b: bool)
        ensures
            b == routable(self@, *event),
    {
        proof {
            use_type_invariant(self);
        }
        match event {
            ZmqTransportEvent::Connect(_, i) | ZmqTransportEvent::CloseOutput(_, i) => {
                match self.inputs.get(&i.value()) {
                    Some(ZmqInputPortState::Closed) => false,
                    Some(_) => true,
                    None => false,
                }
            },
            ZmqTransportEvent::Message(o, i, _, _) => {
                match self.inputs.get(&i.value()) {
                    Some(ZmqInputPortState::Connected(ids)) => {
                        let mut k: usize = 0;
                        while k < ids.len()
                            invariant
                                k <= ids@.len(),
                                self@.inputs.contains_key(i@),
                                self@.inputs[i@] == ZmqInputPortState::Connected(*ids),
                                *event == ZmqTransportEvent::Message(*o, *i, event->Message_2, event->Message_3),
                                forall|j: int| 0 <= j < k ==> ids@[j] != *o,
                            decreases ids@.len() - k,
                        {
                            if ids[k] == *o {
                                assert(ids@[k as int] == *o);
                                assert(ids@.contains(*o));
                                return true;
                            }
                            k = k + 1;
                        }
                        false
                    },
                    _ => false,
                }
            },
            ZmqTransportEvent::AckConnection(o, _) => {
                match self.outputs.get(&o.value()) {
                    Some(ZmqOutputPortState::Open) => true,
                    _ => false,
                }
            },
            ZmqTransportEvent::AckMessage(o, _, _) => {
                match self.outputs.get(&o.value()) {
                    Some(ZmqOutputPortState::Connected(_)) => true,
                    _ => false,
                }
            },
            ZmqTransportEvent::CloseInput(i) => {
                let n: usize = self.outputs.len();
                let mut k: usize = 1;
                while k <= n
                    invariant
                        1 <= k <= n + 1,
                        n == self@.outputs.len(),
                        n <= isize::MAX,
                        outputs_numbered(self@.outputs),
                        *event == ZmqTransportEvent::CloseInput(*i),
                        forall|j: isize| 1 <= j < k ==> self@.outputs[j]
                            == ZmqOutputPortState::Connected(*i),
                    decreases n + 1 - k,
                {
                    match self.outputs.get(&(k as isize)) {
                        Some(ZmqOutputPortState::Connected(id)) => {
                            if *id != *i {
                                assert(self@.outputs.contains_key(k as isize));
                                assert(self@.outputs[k as isize] != ZmqOutputPortState::Connected(*i));
                                return false;
                            }
                        },
                        _ => {
                            assert(self@.outputs.contains_key(k as isize));
                            assert(self@.outputs[k as isize] != ZmqOutputPortState::Connected(*i));
                            return false;
                        },
                    }
                    k = k + 1;
                }
                true
            },
        }
    }

    /// Where an incoming event is to be passed on (see `routes`).
    pub fn route(&self, event: ZmqTransportEvent) -> (d: Vec<Delivery>)
        requires
            routable(self@, event),
        ensures
            d@ == routes(self@, event),
            outputs_numbered(self@.outputs),
            self@.outputs.len() <= isize::MAX,
    {
        proof {
            use_type_invariant(self);
        }
        match event {
            ZmqTransportEvent::Connect(_, i) => {
                let mut d: Vec<Delivery> = Vec::new();
                d.push(Delivery::ToInputWorker(i, event));
                d
            },
            ZmqTransportEvent::CloseOutput(_, i) => {
                let mut d: Vec<Delivery> = Vec::new();
                d.push(Delivery::ToInputWorker(i, event));
                d
            },
            ZmqTransportEvent::Message(_, i, _, bytes) => {
                let mut d: Vec<Delivery> = Vec::new();
                d.push(Delivery::ToInputPort(i, ZmqInputPortEvent::Message(bytes)));
                d
            },
            ZmqTransportEvent::AckConnection(o, _) => {
                let mut d: Vec<Delivery> = Vec::new();
                d.push(Delivery::ToOutputWorker(o, event));
                d
            },
            ZmqTransportEvent::AckMessage(o, _, _) => {
                let mut d: Vec<Delivery> = Vec::new();
                d.push(Delivery::ToOutputWorker(o, event));
                d
            },
            ZmqTransportEvent::CloseInput(i) => {
                let n: usize = self.outputs.len();
                let mut d: Vec<Delivery> = Vec::new();
                let mut k: usize = 1;
                while k <= n
                    invariant
                        1 <= k <= n + 1,
                        n == self@.outputs.len(),
                        n <= isize::MAX,
                        event == ZmqTransportEvent::CloseInput(i),
                        d@ == routes(self@, event).subrange(0, k - 1),
                        routes(self@, event).len() == n,
                    decreases n + 1 - k,
                {
                    let id = match OutputPortID::try_from(k as isize) {
                        Ok(id) => id,
                        Err(_) => vstd::pervasive::unreached(),
                    };
                    proof {
                        lemma_output_id_of(k as isize);
                        lemma_output_id_eq(id, output_id_of(k as isize));
                        let j: int = k - 1;
                        assert((j + 1) as isize == k as isize);
                        assert(routes(self@, event) == Seq::new(
                            n as nat,
                            |j: int|
                                Delivery::ToOutputWorker(
                                    output_id_of((j + 1) as isize),
                                    ZmqTransportEvent::CloseInput(i),
                                ),
                        ));
                    }
                    d.push(Delivery::ToOutputWorker(id, ZmqTransportEvent::CloseInput(i)));
                    proof {
                        assert(routes(self@, event)[k - 1] == Delivery::ToOutputWorker(
                            id,
                            ZmqTransportEvent::CloseInput(i),
                        ));
                        assert(d@ =~= routes(self@, event).subrange(0, k as int));
                    }
                    k = k + 1;
                }
                proof {
                    assert(routes(self@, event).subrange(0, n as int) =~= routes(self@, event));
                }
                d
            },
        }
    }

    /// The input port that a connected output port is connected to.
    pub fn connected_input(&self, output: OutputPortID) -> (input: InputPortID)
        requires
            self@.outputs.contains_key(output@),
            self@.outputs[output@] is Connected,
        ensures
            input == self@.outputs[output@]->Connected_0,
    {
        match self.outputs.get(&output.value()) {
            Some(ZmqOutputPortState::Connected(input)) => *input,
            _ => vstd::pervasive::unreached(),
        }
    }
}

} // verus!
