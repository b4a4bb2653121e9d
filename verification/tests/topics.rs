use protoflow::decimal::{push_int_decimal, push_nat_decimal};
use protoflow::event::{subscription_topic, ZmqTransportEvent};
use protoflow::port::{InputPortID, OutputPortID};
use protoflow::wire::event_to_zmq_message;

fn out(id: isize) -> OutputPortID {
    OutputPortID::try_from(id).unwrap()
}

fn inp(id: isize) -> InputPortID {
    InputPortID::try_from(id).unwrap()
}

fn text(bytes: Vec<u8>) -> String {
    String::from_utf8(bytes).unwrap()
}

#[test]
fn decimal_of_naturals() {
    let mut v = Vec::new();
    push_nat_decimal(&mut v, 0);
    assert_eq!(text(v), "0");
    let mut v = Vec::new();
    push_nat_decimal(&mut v, 1234567890);
    assert_eq!(text(v), "1234567890");
    let mut v = b"x=".to_vec();
    push_nat_decimal(&mut v, u64::MAX);
    assert_eq!(text(v), "x=18446744073709551615");
}

#[test]
fn decimal_of_integers() {
    let mut v = Vec::new();
    push_int_decimal(&mut v, -1);
    assert_eq!(text(v), "-1");
    let mut v = Vec::new();
    push_int_decimal(&mut v, 42);
    assert_eq!(text(v), "42");
    let mut v = Vec::new();
    push_int_decimal(&mut v, isize::MIN);
    assert_eq!(text(v), isize::MIN.to_string());
    let mut v = Vec::new();
    push_int_decimal(&mut v, isize::MAX);
    assert_eq!(text(v), isize::MAX.to_string());
}

#[test]
fn port_ids_have_a_sign() {
    assert!(InputPortID::try_from(0).is_err());
    assert!(InputPortID::try_from(5).is_err());
    assert_eq!(InputPortID::try_from(-5).unwrap().value(), -5);
    assert!(OutputPortID::try_from(0).is_err());
    assert!(OutputPortID::try_from(-5).is_err());
    assert_eq!(OutputPortID::try_from(5).unwrap().value(), 5);
}

#[test]
fn topics_of_every_event() {
    assert_eq!(text(ZmqTransportEvent::Connect(out(1), inp(-1)).topic()), "-1:conn:1");
    assert_eq!(text(ZmqTransportEvent::AckConnection(out(2), inp(-1)).topic()), "-1:ackConn:2");
    assert_eq!(
        text(ZmqTransportEvent::Message(out(2), inp(-3), 7, vec![1, 2]).topic()),
        "-3:msg:2:7"
    );
    assert_eq!(text(ZmqTransportEvent::AckMessage(out(2), inp(-3), 7).topic()), "-3:ackMsg:2:7");
    assert_eq!(text(ZmqTransportEvent::CloseOutput(out(10), inp(-1)).topic()), "-1:closeOut:10");
    assert_eq!(text(ZmqTransportEvent::CloseInput(inp(-5)).topic()), "-5:closeIn");
}

#[test]
fn write_topic_appends() {
    let mut v = b"pre/".to_vec();
    ZmqTransportEvent::CloseInput(inp(-7)).write_topic(&mut v);
    assert_eq!(text(v), "pre/-7:closeIn");
}

#[test]
fn subscription_is_prefix_of_own_topics_only() {
    let sub = subscription_topic(inp(-1));
    assert_eq!(text(sub.clone()), "-1:");
    let own = ZmqTransportEvent::Connect(out(1), inp(-1)).topic();
    assert!(own.starts_with(&sub));
    let other = ZmqTransportEvent::Connect(out(1), inp(-12)).topic();
    assert!(!other.starts_with(&sub));
    let sub12 = subscription_topic(inp(-12));
    assert!(other.starts_with(&sub12));
    assert!(!own.starts_with(&sub12));
}

#[test]
fn message_event_framed_as_topic_and_payload() {
    let e = ZmqTransportEvent::Message(out(4), inp(-2), 9, b"hello".to_vec());
    let msg = event_to_zmq_message(e);
    let frames: Vec<Vec<u8>> = msg.iter().map(|b| b.to_vec()).collect();
    assert_eq!(frames.len(), 2);
    assert_eq!(text(frames[0].clone()), "-2:msg:4:9");
    assert_eq!(frames[1], b"hello".to_vec());
}

#[test]
fn is_message_only_for_messages() {
    assert!(ZmqTransportEvent::Message(out(1), inp(-1), 1, vec![]).is_message());
    assert!(!ZmqTransportEvent::AckMessage(out(1), inp(-1), 1).is_message());
    assert_eq!(ZmqTransportEvent::AckMessage(out(1), inp(-4), 1).input().value(), -4);
}

#[test]
fn topics_tell_headers_apart() {
    let events = vec![
        ZmqTransportEvent::Connect(out(1), inp(-1)),
        ZmqTransportEvent::AckConnection(out(1), inp(-1)),
        ZmqTransportEvent::Message(out(1), inp(-1), 1, vec![]),
        ZmqTransportEvent::Message(out(1), inp(-1), 11, vec![]),
        ZmqTransportEvent::Message(out(11), inp(-1), 1, vec![]),
        ZmqTransportEvent::AckMessage(out(1), inp(-1), 1),
        ZmqTransportEvent::CloseOutput(out(1), inp(-1)),
        ZmqTransportEvent::CloseInput(inp(-1)),
        ZmqTransportEvent::CloseInput(inp(-11)),
    ];
    for (a, ea) in events.iter().enumerate() {
        for (b, eb) in events.iter().enumerate() {
            assert_eq!(a == b, ea.topic() == eb.topic());
        }
    }
    let p1 = ZmqTransportEvent::Message(out(3), inp(-2), 5, vec![1]).topic();
    let p2 = ZmqTransportEvent::Message(out(3), inp(-2), 5, vec![2, 3]).topic();
    assert_eq!(p1, p2);
}
