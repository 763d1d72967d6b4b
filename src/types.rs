//! Operand tags: what a tagged operand's payload means.
use vstd::prelude::*;

verus! {

/// The tag of a tagged operand. It alone decides how the payload is resolved.
#[derive(Debug, Clone, Copy, PartialEq, Eq, Structural)]
pub enum Types {
    TypeU8,
    TypeU64,
    TypeI8,
    TypeI64,
    TypeF32,
    TypeF64,
    TypeU128,
    TypeI128,
    /// A literal heap address.
    TypeAddr,
    /// The payload is a register index; resolves to that register's value.
    TypeReg,
    /// The payload is a jump-table index (or, after `FUNC`, an opaque label).
    TypeFunc,
    /// The payload is an opcode; only meaningful at the head of an instruction.
    TypeOp,
    /// The payload is a depth below the stack pointer; resolves to that stack byte.
    DerefStack,
    /// The payload is a register index whose value is a heap address;
    /// resolves to the heap byte there.
    DerefHeapReg,
    DerefStackReg,
    /// Fallback for an unknown tag byte: the payload is taken literally.
    NoType,
}

/// The wire code of a tag.
pub open spec fn type_code(t: Types) -> u8 {
    match t {
        Types::TypeU8 => 0x00,
        Types::TypeU64 => 0x01,
        Types::TypeI8 => 0x02,
        Types::TypeI64 => 0x03,
        Types::TypeF32 => 0x04,
        Types::TypeF64 => 0x05,
        Types::TypeU128 => 0x06,
        Types::TypeI128 => 0x07,
        Types::TypeAddr => 0x08,
        Types::TypeReg => 0x09,
        Types::TypeFunc => 0x0A,
        Types::TypeOp => 0x0B,
        Types::DerefStack => 0x0C,
        Types::DerefHeapReg => 0x0D,
        Types::DerefStackReg => 0x0E,
        Types::NoType => 0x0F,
    }
}

/// The tag that a wire code stands for; unknown codes degrade to `NoType`.
pub open spec fn type_of_code(b: u8) -> Types {
    if b == 0x00 {
        Types::TypeU8
    } else if b == 0x01 {
        Types::TypeU64
    } else if b == 0x02 {
        Types::TypeI8
    } else if b == 0x03 {
        Types::TypeI64
    } else if b == 0x04 {
        Types::TypeF32
    } else if b == 0x05 {
        Types::TypeF64
    } else if b == 0x06 {
        Types::TypeU128
    } else if b == 0x07 {
        Types::TypeI128
    } else if b == 0x08 {
        Types::TypeAddr
    } else if b == 0x09 {
        Types::TypeReg
    } else if b == 0x0A {
        Types::TypeFunc
    } else if b == 0x0B {
        Types::TypeOp
    } else if b == 0x0C {
        Types::DerefStack
    } else if b == 0x0D {
        Types::DerefHeapReg
    } else if b == 0x0E {
        Types::DerefStackReg
    } else {
        Types::NoType
    }
}

/// Every tag survives a trip through its wire code.
pub proof fn lemma_type_code_round_trip(t: Types)
    ensures
        type_of_code(type_code(t)) == t,
{
}

impl Types {
    /// The wire code of this tag.
    pub fn code(&self) -> (r: u8)
        ensures
            r == type_code(*self),
    {
        match self {
            Types::TypeU8 => 0x00,
            Types::TypeU64 => 0x01,
            Types::TypeI8 => 0x02,
            Types::TypeI64 => 0x03,
            Types::TypeF32 => 0x04,
            Types::TypeF64 => 0x05,
            Types::TypeU128 => 0x06,
            Types::TypeI128 => 0x07,
            Types::TypeAddr => 0x08,
            Types::TypeReg => 0x09,
            Types::TypeFunc => 0x0A,
            Types::TypeOp => 0x0B,
            Types::DerefStack => 0x0C,
            Types::DerefHeapReg => 0x0D,
            Types::DerefStackReg => 0x0E,
            Types::NoType => 0x0F,
        }
    }
}

impl From<u8> for Types {
    fn from(byte: u8) -> (r: Self) {
        match byte {
            0x00 => Types::TypeU8,
            0x01 => Types::TypeU64,
            0x02 => Types::TypeI8,
            0x03 => Types::TypeI64,
            0x04 => Types::TypeF32,
            0x05 => Types::TypeF64,
            0x06 => Types::TypeU128,
            0x07 => Types::TypeI128,
            0x08 => Types::TypeAddr,
            0x09 => Types::TypeReg,
            0x0A => Types::TypeFunc,
            0x0B => Types::TypeOp,
            0x0C => Types::DerefStack,
            0x0D => Types::DerefHeapReg,
            0x0E => Types::DerefStackReg,
            _ => Types::NoType,
        }
    }
}

impl vstd::std_specs::convert::FromSpecImpl<u8> for Types {
    open spec fn obeys_from_spec() -> bool {
        true
    }

    open spec fn from_spec(v: u8) -> Self {
        type_of_code(v)
    }
}

} // verus!
