//! The typed output port of a block.
use vstd::prelude::*;
use std::marker::PhantomData;
use crate::decimal::{int_decimal, push_int_decimal};
use crate::port::{valid_output_id, BlockError, OutputPortID, PortID, PortState};

verus! {

/// What a port can carry.
pub trait Message {

}

/// The system that blocks and their ports belong to; it hands out the
/// identifiers of output ports, counting up from 1.
pub struct System {
    next_output: isize,
}

impl View for System {
    type V = isize;

    /// The identifier that the next output port of this system gets.
    closed spec fn view(&self) -> isize {
        self.next_output
    }
}

impl System {
    #[verifier::type_invariant]
    closed spec fn well_formed(self) -> bool {
        valid_output_id(self.next_output as int)
    }

    /// An empty system: its first output port gets identifier 1.
    pub fn new() -> (s: System)
        ensures
            s@ == 1,
    {
        System { next_output: 1 }
    }

    /// The identifier that the next output port of this system gets; it is
    /// always a valid output port identifier.
    pub fn next_output_id(&self) -> (id: isize)
        ensures
            id == self@,
            valid_output_id(id as int),
    {
        proof {
            use_type_invariant(self);
        }
        self.next_output
    }
}

/// What making an output port from a system does: the port gets the
/// system's next identifier, and the system moves on to the one after.
pub open spec fn output_port_made<T: Message>(before: System, port: OutputPort<T>, after: System) -> bool {
    &&& port@@ == before@
    &&& after@ == before@ + 1
}

/// Output ports made one after the other from one system have distinct
/// identifiers: the system's counter only moves up, from one port to the
/// next.
pub proof fn lemma_output_ports_distinct<T: Message>(
    before_first: System,
    first: OutputPort<T>,
    after_first: System,
    before_second: System,
    second: OutputPort<T>,
    after_second: System,
)
    requires
        output_port_made(before_first, first, after_first),
        after_first@ <= before_second@,
        output_port_made(before_second, second, after_second),
    ensures
        first@ != second@,
{
}

/// What every port tells about itself.
pub trait Port {
    /// The port's identifier, where it has one.
    fn id(&self) -> Option<PortID>;

    /// The port's life-cycle state.
    fn state(&self) -> PortState;

    /// The port's name.
    fn name(&self) -> &str;

    /// The port's label, where it has one.
    fn label(&self) -> Option<&str>;
}

/// A port through which a block sends messages of type `T`.
#[derive(Debug, PartialEq, Eq, PartialOrd, Ord)]
pub struct OutputPort<T: Message> {
    _phantom: PhantomData<T>,
    id: OutputPortID,
}

impl<T: Message> View for OutputPort<T> {
    type V = OutputPortID;

    closed spec fn view(&self) -> OutputPortID {
        self.id
    }
}

impl<T: Message> OutputPort<T> {
    /// A new output port of `system`: it gets the system's next output
    /// port identifier, and the system moves on to the one after.
    pub fn new(system: &mut System) -> (port: Self)
        requires
            old(system)@ < isize::MAX,
        ensures
            output_port_made(*old(system), port, *final(system)),
            port@@ == old(system)@,
            final(system)@ == old(system)@ + 1,
            valid_output_id(port@@ as int),
    {
        proof {
            use_type_invariant(&*system);
        }
        let next: isize = system.next_output;
        system.next_output = next + 1;
        match OutputPortID::try_from(next) {
            Ok(id) => OutputPort { _phantom: PhantomData, id },
            Err(_) => vstd::pervasive::unreached(),
        }
    }

    /// Closes the port; this always succeeds and leaves the port as it is.
    pub fn close(&mut self) -> (r: Result<(), BlockError>)
        ensures
            r is Ok,
            final(self)@ == old(self)@,
    {
        Ok(())
    }

    /// Sends a message through the port; this always succeeds.
    pub fn send(&self, _message: &T) -> (r: Result<(), BlockError>)
        ensures
            r is Ok,
    {
        Ok(())
    }

    /// The text that shows the port: its identifier followed by an arrow
    /// (`→`), in UTF-8.
    pub fn display_text(&self) -> (t: Vec<u8>)
        ensures
            t@ == int_decimal(self@@ as int) + seq![0xE2u8, 0x86u8, 0x92u8],
    {
        let mut t: Vec<u8> = Vec::new();
        push_int_decimal(&mut t, self.id.value());
        t.push(0xE2u8);
        t.push(0x86u8);
        t.push(0x92u8);
        assert(Seq::<u8>::empty() + int_decimal(self@@ as int) == int_decimal(self@@ as int));
        t
    }
}

impl<T: Message> Clone for OutputPort<T> {
    fn clone(&self) -> (c: Self)
        ensures
            c@ == self@,
    {
        OutputPort { _phantom: PhantomData, id: self.id }
    }
}

impl<T: Message> Port for OutputPort<T> {
    fn id(&self) -> (r: Option<PortID>)
        ensures
            r == Some(PortID::Output(self@)),
    {
        Some(PortID::Output(self.id))
    }

    fn state(&self) -> (s: PortState)
        ensures
            s == PortState::Closed,
    {
        PortState::Closed
    }

    fn name(&self) -> (n: &str)
        ensures
            n@.len() == 0,
    {
        proof {
            reveal_strlit("");
        }
        ""
    }

    fn label(&self) -> (l: Option<&str>)
        ensures
            l is None,
    {
        None
    }
}

} // verus!
