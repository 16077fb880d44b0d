//! The faults that the protocol engine reports to its caller.

use vstd::prelude::*;

verus! {

/// Why an operation of the engine did not do what was asked.
#[derive(Clone, Copy, Debug, PartialEq, Eq, Structural)]
pub enum Fault {
    /// The transport could not be opened, read or written.
    Transport,
    /// A peer sent something that the protocol does not allow.
    Protocol,
    /// Sealing or opening a ciphertext failed.
    Crypto,
}

} // verus!
