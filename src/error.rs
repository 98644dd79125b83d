//! The errors of the library.
use vstd::prelude::*;

verus! {

/// Why a frame or a message was refused.
#[derive(Clone, Copy, Debug, PartialEq, Eq, Structural)]
pub enum Error {
    /// The bytes or the value do not have the shape that the protocol asks for.
    InvalidData,
    /// A handler's task failed in a way that ends the connection.
    HandlerFailed,
}

} // verus!
