//! What blocks declare about themselves, and the (still empty) family of
//! mathematical blocks.
use vstd::prelude::*;

verus! {

/// The name of one of a block's input ports.
pub type InputPortName = String;

/// The name of one of a block's output ports.
pub type OutputPortName = String;

/// The connections of a block instance: for each of its ports, the port's
/// field name and, where it is connected, the name of the port at the
/// other end.
pub trait BlockConnections {
    /// The block's input ports and what each is connected to.
    fn input_connections(&self) -> Vec<(&'static str, Option<InputPortName>)>;

    /// The block's output ports and what each is connected to.
    fn output_connections(&self) -> Vec<(&'static str, Option<OutputPortName>)>;
}

/// The family of mathematical blocks.
pub trait MathBlocks {

}

} // verus!
