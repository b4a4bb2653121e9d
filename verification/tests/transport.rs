use protoflow::event::{
    ZmqInputPortEvent, ZmqOutputPortEvent, ZmqOutputPortRequest, ZmqTransportEvent,
};
use protoflow::port::{InputPortID, OutputPortID, PortError, PortID, PortState};
use protoflow::transport::{
    close_input_result, close_output_step, connect_step, open_input_step, recv_step, send_result,
    Delivery, InputWorkerAction, ZmqTransport,
};
use protoflow::worker::OutputSendWorker;

fn out(id: isize) -> OutputPortID {
    OutputPortID::try_from(id).unwrap()
}

fn inp(id: isize) -> InputPortID {
    InputPortID::try_from(id).unwrap()
}

fn connected_pair() -> (ZmqTransport, OutputPortID) {
    let mut t = ZmqTransport::new();
    let o = t.open_output().unwrap();
    assert!(t.connect_acknowledged(o, &ZmqTransportEvent::AckConnection(o, inp(-1))));
    (t, o)
}

#[test]
fn output_ports_numbered_in_order() {
    let mut t = ZmqTransport::new();
    assert_eq!(t.output_count(), 0);
    assert_eq!(t.open_output().unwrap(), out(1));
    assert_eq!(t.open_output().unwrap(), out(2));
    assert_eq!(t.open_output().unwrap(), out(3));
    assert_eq!(t.output_count(), 3);
    assert!(matches!(t.output_state(out(2)), Ok(PortState::Open)));
}

#[test]
fn unknown_ports_are_invalid() {
    let t = ZmqTransport::new();
    assert!(matches!(
        t.output_state(out(1)),
        Err(PortError::Invalid(PortID::Output(id))) if id == out(1)
    ));
    assert!(matches!(
        t.input_state(inp(-1)),
        Err(PortError::Invalid(PortID::Input(id))) if id == inp(-1)
    ));
    assert!(matches!(t.send_check(out(1)), Err(PortError::Invalid(_))));
    assert!(matches!(t.recv_check(inp(-1)), Err(PortError::Invalid(_))));
    assert!(matches!(t.close_input_check(inp(-1)), Err(PortError::Invalid(_))));
    assert!(matches!(t.close_output_event(out(1)), Err(PortError::Invalid(_))));
}

#[test]
fn first_input_port_is_minus_one() {
    let t = ZmqTransport::new();
    assert_eq!(t.open_input_id().unwrap(), inp(-1));
    assert_eq!(t.input_count(), 0);
}

#[test]
fn open_port_cannot_send_yet() {
    let mut t = ZmqTransport::new();
    let o = t.open_output().unwrap();
    assert!(matches!(t.send_check(o), Err(PortError::Disconnected)));
    assert!(matches!(t.close_output_event(o), Err(PortError::Disconnected)));
    assert!(t.connect_check(o).is_ok());
    assert!(t.connect_check(out(9)).is_ok());
}

#[test]
fn acknowledged_connection_connects() {
    let (t, o) = connected_pair();
    assert!(matches!(t.output_state(o), Ok(PortState::Connected)));
    assert!(t.send_check(o).is_ok());
    assert_eq!(t.connected_input(o), inp(-1));
    assert!(matches!(
        t.close_output_event(o),
        Ok(ZmqTransportEvent::CloseOutput(a, b)) if a == o && b == inp(-1)
    ));
    assert!(matches!(t.connect_check(o), Err(PortError::Invalid(PortID::Output(id))) if id == o));
}

#[test]
fn other_events_do_not_connect() {
    let mut t = ZmqTransport::new();
    let o = t.open_output().unwrap();
    assert!(!t.connect_acknowledged(o, &ZmqTransportEvent::Connect(o, inp(-1))));
    assert!(matches!(t.output_state(o), Ok(PortState::Open)));
}

#[test]
fn messages_numbered_from_one() {
    let (t, o) = connected_pair();
    let mut w = OutputSendWorker::new(o, inp(-1));
    for n in 1..=3u64 {
        let e = w.handle(&t, ZmqOutputPortRequest::Send(vec![n as u8]));
        assert!(matches!(e, ZmqTransportEvent::Message(a, b, seq, ref p)
            if a == o && b == inp(-1) && seq == n && *p == vec![n as u8]));
    }
    let e = w.handle(&t, ZmqOutputPortRequest::Close);
    assert!(matches!(e, ZmqTransportEvent::CloseOutput(a, b) if a == o && b == inp(-1)));
    let e = w.handle(&t, ZmqOutputPortRequest::Send(vec![]));
    assert!(matches!(e, ZmqTransportEvent::Message(_, _, 4, _)));
}

#[test]
fn acknowledgements_routed_to_output_workers() {
    let mut t = ZmqTransport::new();
    let o = t.open_output().unwrap();
    let ack = ZmqTransportEvent::AckConnection(o, inp(-1));
    assert!(t.can_route(&ack));
    let d = t.route(ack);
    assert_eq!(d.len(), 1);
    assert!(matches!(d[0], Delivery::ToOutputWorker(id, ZmqTransportEvent::AckConnection(_, _)) if id == o));
    let ack_msg = ZmqTransportEvent::AckMessage(o, inp(-1), 1);
    assert!(!t.can_route(&ack_msg));
}

#[test]
fn close_input_reaches_every_output() {
    let mut t = ZmqTransport::new();
    for _ in 0..3 {
        let o = t.open_output().unwrap();
        assert!(t.connect_acknowledged(o, &ZmqTransportEvent::AckConnection(o, inp(-2))));
    }
    let close = ZmqTransportEvent::CloseInput(inp(-2));
    assert!(t.can_route(&close));
    let d = t.route(close);
    assert_eq!(d.len(), 3);
    for (k, delivery) in d.iter().enumerate() {
        assert!(matches!(delivery, Delivery::ToOutputWorker(id, ZmqTransportEvent::CloseInput(i))
            if *id == out(k as isize + 1) && *i == inp(-2)));
    }
    assert!(!t.can_route(&ZmqTransportEvent::CloseInput(inp(-3))));
    let o = t.open_output().unwrap();
    assert_eq!(o, out(4));
    assert!(!t.can_route(&ZmqTransportEvent::CloseInput(inp(-2))));
}

#[test]
fn input_events_need_a_known_input() {
    let t = ZmqTransport::new();
    assert!(!t.can_route(&ZmqTransportEvent::Connect(out(1), inp(-1))));
    assert!(!t.can_route(&ZmqTransportEvent::CloseOutput(out(1), inp(-1))));
    assert!(!t.can_route(&ZmqTransportEvent::Message(out(1), inp(-1), 1, vec![])));
    assert!(t.can_route(&ZmqTransportEvent::CloseInput(inp(-1))));
    assert_eq!(t.route(ZmqTransportEvent::CloseInput(inp(-1))).len(), 0);
}

#[test]
fn input_worker_ignores_output_events() {
    let mut t = ZmqTransport::new();
    let a = t.input_worker_step(ZmqTransportEvent::AckConnection(out(1), inp(-1)));
    assert!(matches!(a, InputWorkerAction::Ignore));
    let a = t.input_worker_step(ZmqTransportEvent::CloseOutput(out(1), inp(-1)));
    assert!(matches!(a, InputWorkerAction::Ignore));
}

#[test]
fn recv_step_outcomes() {
    assert!(recv_step(Ok(ZmqInputPortEvent::Opened)).is_none());
    assert!(recv_step(Ok(ZmqInputPortEvent::Connected(out(1)))).is_none());
    assert!(matches!(recv_step(Ok(ZmqInputPortEvent::Closed)), Some(Ok(None))));
    assert!(matches!(
        recv_step(Ok(ZmqInputPortEvent::Message(vec![1, 2, 3]))),
        Some(Ok(Some(ref b))) if *b == vec![1, 2, 3]
    ));
    assert!(matches!(
        recv_step(Err("gone".to_string())),
        Some(Err(PortError::Other(ref m))) if m == "gone"
    ));
}

#[test]
fn waiting_steps() {
    assert!(matches!(connect_step(Ok(ZmqOutputPortEvent::Connected(inp(-1)))), Some(Ok(true))));
    assert!(connect_step(Ok(ZmqOutputPortEvent::Ack(1))).is_none());
    assert!(matches!(connect_step(Err("x".to_string())), Some(Err(PortError::Other(_)))));
    assert!(matches!(close_output_step(Ok(ZmqOutputPortEvent::Closed)), Some(Ok(true))));
    assert!(close_output_step(Ok(ZmqOutputPortEvent::Opened)).is_none());
    assert!(matches!(open_input_step(inp(-1), Ok(ZmqInputPortEvent::Opened)), Some(Ok(id)) if id == inp(-1)));
    assert!(open_input_step(inp(-1), Ok(ZmqInputPortEvent::Closed)).is_none());
}

#[test]
fn replies_become_results() {
    assert!(matches!(close_input_result(Some(Ok(()))), Ok(true)));
    assert!(matches!(close_input_result(None), Err(PortError::Disconnected)));
    assert!(matches!(
        close_input_result(Some(Err(PortError::Other("no".to_string())))),
        Err(PortError::Other(_))
    ));
    assert!(send_result(Some(Ok(()))).is_ok());
    assert!(matches!(send_result(None), Err(PortError::Disconnected)));
}

#[test]
fn port_state_predicates() {
    assert!(PortState::Open.is_open());
    assert!(!PortState::Connected.is_open());
    assert!(PortState::Connected.is_connected());
    assert!(PortState::Closed.is_closed());
    assert!(!PortState::Open.is_closed());
}

#[test]
fn sent_payload_is_received_payload() {
    let (t, o) = connected_pair();
    let mut w = OutputSendWorker::new(o, inp(-1));
    let e = w.handle(&t, ZmqOutputPortRequest::Send(b"payload".to_vec()));
    let bytes = match e {
        ZmqTransportEvent::Message(a, b, 1, bytes) if a == o && b == inp(-1) => bytes,
        _ => panic!("expected the first message"),
    };
    assert!(matches!(
        recv_step(Ok(ZmqInputPortEvent::Message(bytes))),
        Some(Ok(Some(ref b))) if *b == b"payload".to_vec()
    ));
}

#[test]
fn stream_reports_received_in_order() {
    let reports = vec![
        ZmqInputPortEvent::Message(b"a".to_vec()),
        ZmqInputPortEvent::Message(b"b".to_vec()),
        ZmqInputPortEvent::Closed,
    ];
    let received: Vec<_> = reports.into_iter().map(|r| recv_step(Ok(r))).collect();
    assert!(matches!(&received[0], Some(Ok(Some(b))) if *b == b"a".to_vec()));
    assert!(matches!(&received[1], Some(Ok(Some(b))) if *b == b"b".to_vec()));
    assert!(matches!(&received[2], Some(Ok(None))));
}

#[test]
fn acknowledgement_of_open_port_only() {
    let mut t = ZmqTransport::new();
    let o = t.open_output().unwrap();
    assert!(matches!(t.output_state(o), Ok(PortState::Open)));
    assert!(t.connect_acknowledged(o, &ZmqTransportEvent::AckConnection(o, inp(-7))));
    assert_eq!(t.connected_input(o), inp(-7));
}

#[test]
fn connect_attempt_is_connect_event() {
    let e = protoflow::transport::connect_attempt(out(2), inp(-3));
    assert!(matches!(e, ZmqTransportEvent::Connect(a, b) if a == out(2) && b == inp(-3)));
}

#[test]
fn connect_loop_waits_for_acknowledgement() {
    let mut t = ZmqTransport::new();
    let o = t.open_output().unwrap();
    let replies = vec![
        ZmqTransportEvent::Connect(o, inp(-1)),
        ZmqTransportEvent::AckMessage(o, inp(-1), 1),
        ZmqTransportEvent::AckConnection(o, inp(-5)),
    ];
    let mut published = 0;
    for reply in replies.iter() {
        published += 1;
        assert!(matches!(t.send_check(o), Err(PortError::Disconnected)));
        if t.connect_acknowledged(o, reply) {
            break;
        }
    }
    assert_eq!(published, 3);
    assert_eq!(t.connected_input(o), inp(-5));
    assert!(t.send_check(o).is_ok());
}
