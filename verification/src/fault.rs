//! The fatal conditions a program can run into.

use vstd::prelude::*;

verus! {

/// A fatal condition. The operation that reports one leaves the machine as it
/// found it.
#[derive(Clone, Copy, Debug, PartialEq, Eq, Structural)]
pub enum Fault {
    /// A memory access whose byte range leaves the address space.
    AddressFault,
    /// An instruction word that is no instruction of the machine.
    DecodeFault,
    /// A return from a subroutine with an empty call stack.
    StackUnderflow,
}

} // verus!
