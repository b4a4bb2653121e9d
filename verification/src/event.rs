//! The events exchanged between ports, and their topics on the wire.
use vstd::prelude::*;
use crate::decimal::{
    int_decimal, is_digit_byte, lemma_int_decimal_injective, lemma_int_decimal_shape,
    lemma_nat_decimal_digits, lemma_nat_decimal_injective, nat_decimal, push_int_decimal,
    push_nat_decimal,
};
use crate::port::{lemma_input_id_eq, lemma_output_id_eq, InputPortID, OutputPortID};

verus! {

/// The number of a message within one connection.
pub type SequenceID = u64;

/// What goes over the wire, from an output port to an input port or back.
#[derive(Clone, Debug)]
pub enum ZmqTransportEvent {
    Connect(OutputPortID, InputPortID),
    AckConnection(OutputPortID, InputPortID),
    Message(OutputPortID, InputPortID, SequenceID, Vec<u8>),
    AckMessage(OutputPortID, InputPortID, SequenceID),
    CloseOutput(OutputPortID, InputPortID),
    CloseInput(InputPortID),
}

/// What the background worker of an output port reports to the port.
#[derive(Clone, Debug)]
pub enum ZmqOutputPortEvent {
    Opened,
    Connected(InputPortID),
    Ack(SequenceID),
    Closed,
}

/// What the background worker of an input port reports to the port.
#[derive(Clone, Debug)]
pub enum ZmqInputPortEvent {
    Opened,
    Connected(OutputPortID),
    Message(Vec<u8>),
    Closed,
}

/// A request from an output port to its background worker.
#[derive(Clone, Debug)]
pub enum ZmqOutputPortRequest {
    Close,
    Send(Vec<u8>),
}

/// A request from an input port to its background worker.
#[derive(Clone, Debug)]
pub enum ZmqInputPortRequest {
    Close,
}

/// The ASCII text `:conn:`.
pub open spec fn tag_conn() -> Seq<u8> {
    seq![58u8, 99u8, 111u8, 110u8, 110u8, 58u8]
}

/// The ASCII text `:ackConn:`.
pub open spec fn tag_ack_conn() -> Seq<u8> {
    seq![58u8, 97u8, 99u8, 107u8, 67u8, 111u8, 110u8, 110u8, 58u8]
}

/// The ASCII text `:msg:`.
pub open spec fn tag_msg() -> Seq<u8> {
    seq![58u8, 109u8, 115u8, 103u8, 58u8]
}

/// The ASCII text `:ackMsg:`.
pub open spec fn tag_ack_msg() -> Seq<u8> {
    seq![58u8, 97u8, 99u8, 107u8, 77u8, 115u8, 103u8, 58u8]
}

/// The ASCII text `:closeOut:`.
pub open spec fn tag_close_out() -> Seq<u8> {
    seq![58u8, 99u8, 108u8, 111u8, 115u8, 101u8, 79u8, 117u8, 116u8, 58u8]
}

/// The ASCII text `:closeIn`.
pub open spec fn tag_close_in() -> Seq<u8> {
    seq![58u8, 99u8, 108u8, 111u8, 115u8, 101u8, 73u8, 110u8]
}

/// The ASCII text `:`.
pub open spec fn tag_colon() -> Seq<u8> {
    seq![58u8]
}

/// The input port that an event is addressed to or comes from.
pub open spec fn event_input(e: ZmqTransportEvent) -> InputPortID {
    match e {
        ZmqTransportEvent::Connect(_, i) => i,
        ZmqTransportEvent::AckConnection(_, i) => i,
        ZmqTransportEvent::Message(_, i, _, _) => i,
        ZmqTransportEvent::AckMessage(_, i, _) => i,
        ZmqTransportEvent::CloseOutput(_, i) => i,
        ZmqTransportEvent::CloseInput(i) => i,
    }
}

/// The topic of an event: the input port first, then the kind of event,
/// then the output port and the sequence number where the event has them.
/// For example `-1:conn:1`, `-2:msg:3:7` or `-1:closeIn`.
pub open spec fn topic_of(e: ZmqTransportEvent) -> Seq<u8> {
    match e {
        ZmqTransportEvent::Connect(o, i) => int_decimal(i@ as int) + tag_conn() + int_decimal(
            o@ as int,
        ),
        ZmqTransportEvent::AckConnection(o, i) => int_decimal(i@ as int) + tag_ack_conn()
            + int_decimal(o@ as int),
        ZmqTransportEvent::Message(o, i, seq, _) => int_decimal(i@ as int) + tag_msg()
            + int_decimal(o@ as int) + tag_colon() + nat_decimal(seq as nat),
        ZmqTransportEvent::AckMessage(o, i, seq) => int_decimal(i@ as int) + tag_ack_msg()
            + int_decimal(o@ as int) + tag_colon() + nat_decimal(seq as nat),
        ZmqTransportEvent::CloseOutput(o, i) => int_decimal(i@ as int) + tag_close_out()
            + int_decimal(o@ as int),
        ZmqTransportEvent::CloseInput(i) => int_decimal(i@ as int) + tag_close_in(),
    }
}

/// The topic that an input port subscribes to: its identifier and a colon.
pub open spec fn subscription_of(input: InputPortID) -> Seq<u8> {
    int_decimal(input@ as int) + tag_colon()
}

/// The text after the input port in a topic: it always starts with a colon.
pub open spec fn topic_rest(e: ZmqTransportEvent) -> Seq<u8> {
    match e {
        ZmqTransportEvent::Connect(o, i) => tag_conn() + int_decimal(o@ as int),
        ZmqTransportEvent::AckConnection(o, i) => tag_ack_conn() + int_decimal(o@ as int),
        ZmqTransportEvent::Message(o, i, seq, _) => tag_msg() + int_decimal(o@ as int) + tag_colon()
            + nat_decimal(seq as nat),
        ZmqTransportEvent::AckMessage(o, i, seq) => tag_ack_msg() + int_decimal(o@ as int)
            + tag_colon() + nat_decimal(seq as nat),
        ZmqTransportEvent::CloseOutput(o, i) => tag_close_out() + int_decimal(o@ as int),
        ZmqTransportEvent::CloseInput(i) => tag_close_in(),
    }
}

proof fn lemma_topic_split(e: ZmqTransportEvent)
    ensures
        topic_of(e) == int_decimal(event_input(e)@ as int) + topic_rest(e),
        topic_rest(e).len() >= 1,
        topic_rest(e)[0] == 58u8,
{
    assert(topic_of(e) =~= int_decimal(event_input(e)@ as int) + topic_rest(e));
}

/// When `d + rest` starts with `int_decimal(x)` followed by a colon, and
/// `rest` itself starts with a colon, then `d` is `int_decimal(x)`.
proof fn lemma_decimal_before_colon(x: int, y: int, rest: Seq<u8>)
    requires
        rest.len() >= 1,
        rest[0] == 58u8,
        (int_decimal(x) + tag_colon()).is_prefix_of(int_decimal(y) + rest),
    ensures
        x == y,
{
    let dx = int_decimal(x);
    let dy = int_decimal(y);
    let t = dy + rest;
    lemma_int_decimal_shape(x);
    lemma_int_decimal_shape(y);
    let p = dx + tag_colon();
    assert(p.len() <= t.len());
    assert(forall|k: int| 0 <= k < p.len() ==> p[k] == #[trigger] t[k]);
    if dx.len() < dy.len() {
        let k = dx.len() as int;
        assert(p[k] == 58u8);
        assert(t[k] == dy[k]);
        assert(is_digit_byte(dy[k]));
    } else if dx.len() > dy.len() {
        let k = dy.len() as int;
        assert(t[k] == rest[0]);
        assert(p[k] == dx[k]);
        assert(is_digit_byte(dx[k]));
    } else {
        assert(dx =~= dy) by {
            assert forall|k: int| 0 <= k < dx.len() implies dx[k] == dy[k] by {
                assert(p[k] == dx[k]);
                assert(t[k] == dy[k]);
            }
        }
        lemma_int_decimal_injective(x, y);
    }
}

/// An input port's subscription matches every event addressed to it: the
/// subscription is a prefix of the event's topic.
pub proof fn lemma_subscription_matches_own_events(e: ZmqTransportEvent)
    ensures
        subscription_of(event_input(e)).is_prefix_of(topic_of(e)),
{
    lemma_topic_split(e);
    let d = int_decimal(event_input(e)@ as int);
    let t = topic_of(e);
    let p = subscription_of(event_input(e));
    assert(p.len() <= t.len());
    assert forall|k: int| 0 <= k < p.len() implies p[k] == t[k] by {
        if k < d.len() {
            assert(p[k] == d[k]);
            assert(t[k] == d[k]);
        } else {
            assert(p[k] == 58u8);
            assert(t[k] == topic_rest(e)[0]);
        }
    }
}

/// An input port's subscription matches no event addressed to another input
/// port: whenever the subscription of `input` is a prefix of an event's
/// topic, the event is addressed to `input`.
pub proof fn lemma_subscription_matches_only_own_events(input: InputPortID, e: ZmqTransportEvent)
    requires
        subscription_of(input).is_prefix_of(topic_of(e)),
    ensures
        event_input(e) == input,
{
    lemma_topic_split(e);
    lemma_decimal_before_colon(input@ as int, event_input(e)@ as int, topic_rest(e));
    lemma_input_id_eq(input, event_input(e));
}

/// Two events have the same header: the same kind, the same ports and,
/// where they have one, the same number; only the payloads of two messages
/// may differ.
pub open spec fn same_header(a: ZmqTransportEvent, b: ZmqTransportEvent) -> bool {
    match (a, b) {
        (ZmqTransportEvent::Connect(o1, i1), ZmqTransportEvent::Connect(o2, i2)) => o1 == o2 && i1
            == i2,
        (ZmqTransportEvent::AckConnection(o1, i1), ZmqTransportEvent::AckConnection(o2, i2)) => o1
            == o2 && i1 == i2,
        (ZmqTransportEvent::Message(o1, i1, s1, _), ZmqTransportEvent::Message(o2, i2, s2, _)) => o1
            == o2 && i1 == i2 && s1 == s2,
        (ZmqTransportEvent::AckMessage(o1, i1, s1), ZmqTransportEvent::AckMessage(o2, i2, s2)) => o1
            == o2 && i1 == i2 && s1 == s2,
        (ZmqTransportEvent::CloseOutput(o1, i1), ZmqTransportEvent::CloseOutput(o2, i2)) => o1 == o2
            && i1 == i2,
        (ZmqTransportEvent::CloseInput(i1), ZmqTransportEvent::CloseInput(i2)) => i1 == i2,
        _ => false,
    }
}

/// The bytes of a topic's rest that tell the kinds of event apart.
proof fn lemma_rest_marks(e: ZmqTransportEvent)
    ensures
        topic_rest(e).len() >= 7,
        e is Connect ==> topic_rest(e)[1] == 99u8 && topic_rest(e)[2] == 111u8,
        e is AckConnection ==> topic_rest(e)[1] == 97u8 && topic_rest(e)[4] == 67u8,
        e is Message ==> topic_rest(e)[1] == 109u8,
        e is AckMessage ==> topic_rest(e)[1] == 97u8 && topic_rest(e)[4] == 77u8,
        e is CloseOutput ==> topic_rest(e)[1] == 99u8 && topic_rest(e)[2] == 108u8 && topic_rest(
            e,
        )[6] == 79u8,
        e is CloseInput ==> topic_rest(e)[1] == 99u8 && topic_rest(e)[2] == 108u8 && topic_rest(
            e,
        )[6] == 73u8,
{
    match e {
        ZmqTransportEvent::Connect(o, _) => {
            lemma_int_decimal_shape(o@ as int);
        },
        ZmqTransportEvent::AckConnection(o, _) => {
            lemma_int_decimal_shape(o@ as int);
        },
        ZmqTransportEvent::Message(o, _, n, _) => {
            lemma_int_decimal_shape(o@ as int);
        },
        ZmqTransportEvent::AckMessage(o, _, n) => {
            lemma_int_decimal_shape(o@ as int);
        },
        ZmqTransportEvent::CloseOutput(o, _) => {
            lemma_int_decimal_shape(o@ as int);
        },
        ZmqTransportEvent::CloseInput(_) => {},
    }
}

/// Equal texts that start with the same tag are equal after it.
proof fn lemma_after_tag(tag: Seq<u8>, x: Seq<u8>, y: Seq<u8>)
    requires
        tag + x == tag + y,
    ensures
        x == y,
{
    assert(x =~= (tag + x).subrange(tag.len() as int, (tag + x).len() as int));
    assert(y =~= (tag + y).subrange(tag.len() as int, (tag + y).len() as int));
}

/// A port number, a colon and a sequence number, written out, determine
/// both numbers.
proof fn lemma_port_then_number(x: int, y: int, n: nat, m: nat)
    requires
        int_decimal(x) + tag_colon() + nat_decimal(n) == int_decimal(y) + tag_colon() + nat_decimal(m),
    ensures
        x == y,
        n == m,
{
    let t = int_decimal(y) + tag_colon() + nat_decimal(m);
    let rest = tag_colon() + nat_decimal(m);
    assert(t =~= int_decimal(y) + rest);
    let p = int_decimal(x) + tag_colon();
    assert(p =~= (int_decimal(x) + tag_colon() + nat_decimal(n)).subrange(0, p.len() as int));
    assert(p.is_prefix_of(int_decimal(y) + rest));
    lemma_decimal_before_colon(x, y, rest);
    assert(int_decimal(x) + tag_colon() + nat_decimal(n) =~= (int_decimal(x) + tag_colon())
        + nat_decimal(n));
    lemma_after_tag(int_decimal(x) + tag_colon(), nat_decimal(n), nat_decimal(m));
    lemma_nat_decimal_injective(n, m);
}

/// Two events with the same topic have the same header: a topic can be
/// read back into the kind of event, its ports and its number.
pub proof fn lemma_topic_determines_header(a: ZmqTransportEvent, b: ZmqTransportEvent)
    requires
        topic_of(a) == topic_of(b),
    ensures
        same_header(a, b),
{
    lemma_topic_split(a);
    lemma_topic_split(b);
    lemma_subscription_matches_own_events(a);
    lemma_subscription_matches_only_own_events(event_input(a), b);
    let d = int_decimal(event_input(a)@ as int);
    assert(int_decimal(event_input(b)@ as int) == d);
    lemma_after_tag(d, topic_rest(a), topic_rest(b));
    let ra = topic_rest(a);
    let rb = topic_rest(b);
    lemma_rest_marks(a);
    lemma_rest_marks(b);
    assert(ra[1] == rb[1] && ra[2] == rb[2] && ra[4] == rb[4] && ra[6] == rb[6]);
    match (a, b) {
        (ZmqTransportEvent::Connect(o1, _), ZmqTransportEvent::Connect(o2, _)) => {
            lemma_after_tag(tag_conn(), int_decimal(o1@ as int), int_decimal(o2@ as int));
            lemma_int_decimal_injective(o1@ as int, o2@ as int);
            lemma_output_id_eq(o1, o2);
        },
        (ZmqTransportEvent::AckConnection(o1, _), ZmqTransportEvent::AckConnection(o2, _)) => {
            lemma_after_tag(tag_ack_conn(), int_decimal(o1@ as int), int_decimal(o2@ as int));
            lemma_int_decimal_injective(o1@ as int, o2@ as int);
            lemma_output_id_eq(o1, o2);
        },
        (ZmqTransportEvent::CloseOutput(o1, _), ZmqTransportEvent::CloseOutput(o2, _)) => {
            lemma_after_tag(tag_close_out(), int_decimal(o1@ as int), int_decimal(o2@ as int));
            lemma_int_decimal_injective(o1@ as int, o2@ as int);
            lemma_output_id_eq(o1, o2);
        },
        (ZmqTransportEvent::Message(o1, _, n1, _), ZmqTransportEvent::Message(o2, _, n2, _)) => {
            let x = int_decimal(o1@ as int) + tag_colon() + nat_decimal(n1 as nat);
            let y = int_decimal(o2@ as int) + tag_colon() + nat_decimal(n2 as nat);
            assert(ra =~= tag_msg() + x);
            assert(rb =~= tag_msg() + y);
            lemma_after_tag(tag_msg(), x, y);
            lemma_port_then_number(o1@ as int, o2@ as int, n1 as nat, n2 as nat);
            lemma_output_id_eq(o1, o2);
        },
        (ZmqTransportEvent::AckMessage(o1, _, n1), ZmqTransportEvent::AckMessage(o2, _, n2)) => {
            let x = int_decimal(o1@ as int) + tag_colon() + nat_decimal(n1 as nat);
            let y = int_decimal(o2@ as int) + tag_colon() + nat_decimal(n2 as nat);
            assert(ra =~= tag_ack_msg() + x);
            assert(rb =~= tag_ack_msg() + y);
            lemma_after_tag(tag_ack_msg(), x, y);
            lemma_port_then_number(o1@ as int, o2@ as int, n1 as nat, n2 as nat);
            lemma_output_id_eq(o1, o2);
        },
        _ => {},
    }
}

/// Appends the bytes of `bytes` to `out`.
pub fn push_all(out: &mut Vec<u8>, bytes: &[u8])
    ensures
        final(out)@ == old(out)@ + bytes@,
{
    let mut k: usize = 0;
    while k < bytes.len()
        invariant
            k <= bytes@.len(),
            out@ == old(out)@ + bytes@.subrange(0, k as int),
        decreases bytes@.len() - k,
    {
        out.push(bytes[k]);
        k = k + 1;
        assert(bytes@.subrange(0, k as int) == bytes@.subrange(0, (k - 1) as int).push(bytes@[k - 1]));
    }
    assert(bytes@.subrange(0, bytes@.len() as int) == bytes@);
}

/// The topic that `input` subscribes to, as `subscription_of` defines it.
pub fn subscription_topic(input: InputPortID) -> (t: Vec<u8>)
    ensures
        t@ == subscription_of(input),
{
    let mut t: Vec<u8> = Vec::new();
    push_int_decimal(&mut t, input.value());
    t.push(58u8);
    assert(Seq::<u8>::empty() + int_decimal(input@ as int) == int_decimal(input@ as int));
    t
}

impl ZmqTransportEvent {
    /// The input port that this event is addressed to or comes from.
    pub fn input(&self) -> (i: InputPortID)
        ensures
            i == event_input(*self),
    {
        match self {
            ZmqTransportEvent::Connect(_, i) => *i,
            ZmqTransportEvent::AckConnection(_, i) => *i,
            ZmqTransportEvent::Message(_, i, _, _) => *i,
            ZmqTransportEvent::AckMessage(_, i, _) => *i,
            ZmqTransportEvent::CloseOutput(_, i) => *i,
            ZmqTransportEvent::CloseInput(i) => *i,
        }
    }

    /// Whether this is a message; the event loop of an output port's worker
    /// takes nothing else.
    pub fn is_message(&self) -> (b: bool)
        ensures
            b == self is Message,
    {
        match self {
            ZmqTransportEvent::Message(_, _, _, _) => true,
            _ => false,
        }
    }

    /// The topic of this event, as `topic_of` defines it.
    pub fn topic(&self) -> (t: Vec<u8>)
        ensures
            t@ == topic_of(*self),
    {
        let mut t: Vec<u8> = Vec::new();
        self.write_topic(&mut t);
        assert(Seq::<u8>::empty() + topic_of(*self) == topic_of(*self));
        t
    }

    /// Writes the topic of this event, as `topic_of` defines it, after
    /// what `out` already holds.
    pub fn write_topic(&self, out: &mut Vec<u8>)
        ensures
            final(out)@ == old(out)@ + topic_of(*self),
    {
        match self {
            ZmqTransportEvent::Connect(o, i) => {
                push_int_decimal(out, i.value());
                push_all(out, &[58u8, 99u8, 111u8, 110u8, 110u8, 58u8]);
                push_int_decimal(out, o.value());
            },
            ZmqTransportEvent::AckConnection(o, i) => {
                push_int_decimal(out, i.value());
                push_all(out, &[58u8, 97u8, 99u8, 107u8, 67u8, 111u8, 110u8, 110u8, 58u8]);
                push_int_decimal(out, o.value());
            },
            ZmqTransportEvent::Message(o, i, seq, _) => {
                push_int_decimal(out, i.value());
                push_all(out, &[58u8, 109u8, 115u8, 103u8, 58u8]);
                push_int_decimal(out, o.value());
                out.push(58u8);
                push_nat_decimal(out, *seq);
            },
            ZmqTransportEvent::AckMessage(o, i, seq) => {
                push_int_decimal(out, i.value());
                push_all(out, &[58u8, 97u8, 99u8, 107u8, 77u8, 115u8, 103u8, 58u8]);
                push_int_decimal(out, o.value());
                out.push(58u8);
                push_nat_decimal(out, *seq);
            },
            ZmqTransportEvent::CloseOutput(o, i) => {
                push_int_decimal(out, i.value());
                push_all(out, &[58u8, 99u8, 108u8, 111u8, 115u8, 101u8, 79u8, 117u8, 116u8, 58u8]);
                push_int_decimal(out, o.value());
            },
            ZmqTransportEvent::CloseInput(i) => {
                push_int_decimal(out, i.value());
                push_all(out, &[58u8, 99u8, 108u8, 111u8, 115u8, 101u8, 73u8, 110u8]);
            },
        }
    }
}

} // verus!
