//! Port identifiers, port states and port errors.
use vstd::prelude::*;

verus! {

/// The integers that stand for input ports: the negative ones.
pub open spec fn valid_input_id(id: int) -> bool {
    id < 0
}

/// The integers that stand for output ports: the positive ones.
pub open spec fn valid_output_id(id: int) -> bool {
    id > 0
}

/// The identifier of an input port: a negative integer.
#[derive(Clone, Copy, Debug, PartialEq, Eq, Structural, PartialOrd, Ord, Hash)]
pub struct InputPortID {
    id: isize,
}

/// The identifier of an output port: a positive integer.
#[derive(Clone, Copy, Debug, PartialEq, Eq, Structural, PartialOrd, Ord, Hash)]
pub struct OutputPortID {
    id: isize,
}

impl View for InputPortID {
    type V = isize;

    closed spec fn view(&self) -> isize {
        self.id
    }
}

impl View for OutputPortID {
    type V = isize;

    closed spec fn view(&self) -> isize {
        self.id
    }
}

impl InputPortID {
    /// Makes an input port identifier; only negative integers are accepted.
    pub fn try_from(id: isize) -> (result: Result<InputPortID, &'static str>)
        ensures
            result is Ok <==> valid_input_id(id as int),
            result matches Ok(port) ==> port@ == id,
    {
        if id < 0 {
            Ok(InputPortID { id })
        } else {
            Err("input port IDs must be negative integers")
        }
    }

    /// The integer that this identifier stands for.
    pub fn value(&self) -> (v: isize)
        ensures
            v == self@,
    {
        self.id
    }
}

impl OutputPortID {
    /// Makes an output port identifier; only positive integers are accepted.
    pub fn try_from(id: isize) -> (result: Result<OutputPortID, &'static str>)
        ensures
            result is Ok <==> valid_output_id(id as int),
            result matches Ok(port) ==> port@ == id,
    {
        if id > 0 {
            Ok(OutputPortID { id })
        } else {
            Err("output port IDs must be positive integers")
        }
    }

    /// The integer that this identifier stands for.
    pub fn value(&self) -> (v: isize)
        ensures
            v == self@,
    {
        self.id
    }
}

/// Input port identifiers that stand for the same integer are the same.
pub proof fn lemma_input_id_eq(a: InputPortID, b: InputPortID)
    requires
        a@ == b@,
    ensures
        a == b,
{
}

/// Output port identifiers that stand for the same integer are the same.
pub proof fn lemma_output_id_eq(a: OutputPortID, b: OutputPortID)
    requires
        a@ == b@,
    ensures
        a == b,
{
}

/// The output port identifier that stands for `id`.
pub closed spec fn output_id_of(id: isize) -> OutputPortID {
    OutputPortID { id }
}

/// `output_id_of(id)` stands for `id`.
pub proof fn lemma_output_id_of(id: isize)
    ensures
        #[trigger] output_id_of(id)@ == id,
{
}

/// The identifier of a port of either direction.
#[derive(Clone, Copy, Debug, PartialEq, Eq, Structural)]
pub enum PortID {
    Input(InputPortID),
    Output(OutputPortID),
}

/// The life-cycle state of a port.
#[derive(Clone, Copy, Debug, PartialEq, Eq, Structural)]
pub enum PortState {
    Closed,
    Open,
    Connected,
}

impl PortState {
    /// Whether the port is open but not yet connected.
    pub fn is_open(&self) -> (b: bool)
        ensures
            b <==> *self == PortState::Open,
    {
        match self {
            PortState::Open => true,
            _ => false,
        }
    }

    /// Whether the port is connected.
    pub fn is_connected(&self) -> (b: bool)
        ensures
            b <==> *self == PortState::Connected,
    {
        match self {
            PortState::Connected => true,
            _ => false,
        }
    }

    /// Whether the port is closed.
    pub fn is_closed(&self) -> (b: bool)
        ensures
            b <==> *self == PortState::Closed,
    {
        match self {
            PortState::Closed => true,
            _ => false,
        }
    }
}

/// Why an operation on a port failed.
#[derive(Clone, Debug)]
pub enum PortError {
    /// No port with this identifier exists.
    Invalid(PortID),
    /// The port is not connected.
    Disconnected,
    /// A failure reported by the channel or socket underneath.
    Other(String),
}

/// The error of a block's own operations.
#[derive(Clone, Debug)]
pub enum BlockError {
    /// The block was asked to stop.
    Terminated,
    /// A port operation failed.
    PortError(PortError),
    /// Any other failure, described in words.
    Other(String),
}

} // verus!
