use protoflow::output_port::{Message, OutputPort, Port, System};
use protoflow::port::{OutputPortID, PortID, PortState};

#[derive(Debug)]
struct Text(#[allow(dead_code)] String);

impl Message for Text {}

#[test]
fn system_hands_out_output_ids_from_one() {
    let mut system = System::new();
    assert_eq!(system.next_output_id(), 1);
    let a: OutputPort<Text> = OutputPort::new(&mut system);
    let b: OutputPort<Text> = OutputPort::new(&mut system);
    assert_eq!(system.next_output_id(), 3);
    assert!(matches!(a.id(), Some(PortID::Output(id)) if id == OutputPortID::try_from(1).unwrap()));
    assert!(matches!(b.id(), Some(PortID::Output(id)) if id == OutputPortID::try_from(2).unwrap()));
    assert_ne!(a.id(), b.id());
}

#[test]
fn output_port_operations() {
    let mut system = System::new();
    let mut port: OutputPort<Text> = OutputPort::new(&mut system);
    assert!(port.send(&Text("hello".to_string())).is_ok());
    assert!(port.close().is_ok());
    assert_eq!(port.state(), PortState::Closed);
    assert_eq!(port.name(), "");
    assert_eq!(port.label(), None);
    let copy = port.clone();
    assert_eq!(copy.id(), port.id());
}

#[test]
fn output_port_display_text() {
    let mut system = System::new();
    let _first: OutputPort<Text> = OutputPort::new(&mut system);
    let second: OutputPort<Text> = OutputPort::new(&mut system);
    assert_eq!(String::from_utf8(second.display_text()).unwrap(), "2→");
}
