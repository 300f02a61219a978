use vstd::prelude::*;

verus! {

/// How an instruction locates its operand.  A closed tag set consumed by the
/// addressing resolver; the variants carry no state of their own.
#[derive(Clone, Copy, Debug, PartialEq, Eq, Structural)]
pub enum AddressingMode {
    Implicit,
    Accumulator,
    Immediate,
    ZeroPage,
    ZeroPageX,
    ZeroPageY,
    Relative,
    Absolute,
    AbsoluteX,
    AbsoluteY,
    IndirectX,
    IndirectY,
}

impl AddressingMode {
    /// Modes that resolve to a memory address.  Asking the resolver for an
    /// address in any other mode is a table-consistency error.
    pub open spec fn has_address(self) -> bool {
        !(self is Implicit || self is Accumulator)
    }

    /// Modes that resolve to an operand value, either from a memory address
    /// or directly from the accumulator.
    pub open spec fn has_value(self) -> bool {
        !(self is Implicit)
    }
}

} // verus!
