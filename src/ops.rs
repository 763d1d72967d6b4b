//! Opcodes, operand-fetch modes, and the byte-valued data trait.
use vstd::prelude::*;

verus! {

/// An opcode: the payload of the `TypeOp` operand that heads an instruction.
#[derive(Debug, Clone, Copy, PartialEq, Eq, Structural)]
pub enum Operations {
    NOP,
    ADD,
    SUB,
    MUL,
    DIV,
    MOD,
    AND,
    OR,
    XOR,
    NOT,
    EQ,
    NEQ,
    LT,
    GT,
    PUSH,
    POP,
    DUP,
    SWAP,
    JMP,
    JZ,
    JNZ,
    LOAD,
    STORE,
    ALLOC,
    FREE,
    REALLOC,
    WRITE,
    READ,
    FLUSH,
    MOV,
    INC,
    DEC,
    FUNC,
    RET,
    CALL,
    WRACC,
    REACC,
}

/// The byte code of an opcode.
pub open spec fn op_code(op: Operations) -> u8 {
    match op {
        Operations::NOP => 0x00,
        Operations::ADD => 0x01,
        Operations::SUB => 0x02,
        Operations::MUL => 0x03,
        Operations::DIV => 0x04,
        Operations::MOD => 0x05,
        Operations::AND => 0x06,
        Operations::OR => 0x07,
        Operations::XOR => 0x08,
        Operations::NOT => 0x09,
        Operations::EQ => 0x0A,
        Operations::NEQ => 0x0B,
        Operations::LT => 0x0C,
        Operations::GT => 0x0D,
        Operations::PUSH => 0x0E,
        Operations::POP => 0x0F,
        Operations::DUP => 0x10,
        Operations::SWAP => 0x11,
        Operations::JMP => 0x12,
        Operations::JZ => 0x13,
        Operations::JNZ => 0x14,
        Operations::INC => 0x15,
        Operations::DEC => 0x16,
        Operations::LOAD => 0x17,
        Operations::STORE => 0x18,
        Operations::WRITE => 0x19,
        Operations::READ => 0x1A,
        Operations::MOV => 0x1B,
        Operations::ALLOC => 0x1C,
        Operations::FREE => 0x1D,
        Operations::REALLOC => 0x1E,
        Operations::FLUSH => 0x1F,
        Operations::FUNC => 0x64,
        Operations::RET => 0x65,
        Operations::CALL => 0x66,
        Operations::WRACC => 0x67,
        Operations::REACC => 0x68,
    }
}

/// The opcode with the given byte code, if there is one.
pub open spec fn op_of_code(b: u8) -> Option<Operations> {
    if exists|op: Operations| op_code(op) == b {
        Some(choose|op: Operations| op_code(op) == b)
    } else {
        None
    }
}

/// Distinct opcodes have distinct codes.
pub proof fn lemma_op_code_injective(a: Operations, b: Operations)
    ensures
        op_code(a) == op_code(b) ==> a == b,
{
}

/// Every opcode survives a trip through its byte code.
pub proof fn lemma_op_code_round_trip(op: Operations)
    ensures
        op_of_code(op_code(op)) == Some(op),
{
    let c = choose|o: Operations| op_code(o) == op_code(op);
    lemma_op_code_injective(c, op);
}

impl Operations {
    /// The byte code of this opcode.
    pub fn code(&self) -> (r: u8)
        ensures
            r == op_code(*self),
    {
        match self {
            Operations::NOP => 0x00,
            Operations::ADD => 0x01,
            Operations::SUB => 0x02,
            Operations::MUL => 0x03,
            Operations::DIV => 0x04,
            Operations::MOD => 0x05,
            Operations::AND => 0x06,
            Operations::OR => 0x07,
            Operations::XOR => 0x08,
            Operations::NOT => 0x09,
            Operations::EQ => 0x0A,
            Operations::NEQ => 0x0B,
            Operations::LT => 0x0C,
            Operations::GT => 0x0D,
            Operations::PUSH => 0x0E,
            Operations::POP => 0x0F,
            Operations::DUP => 0x10,
            Operations::SWAP => 0x11,
            Operations::JMP => 0x12,
            Operations::JZ => 0x13,
            Operations::JNZ => 0x14,
            Operations::INC => 0x15,
            Operations::DEC => 0x16,
            Operations::LOAD => 0x17,
            Operations::STORE => 0x18,
            Operations::WRITE => 0x19,
            Operations::READ => 0x1A,
            Operations::MOV => 0x1B,
            Operations::ALLOC => 0x1C,
            Operations::FREE => 0x1D,
            Operations::REALLOC => 0x1E,
            Operations::FLUSH => 0x1F,
            Operations::FUNC => 0x64,
            Operations::RET => 0x65,
            Operations::CALL => 0x66,
            Operations::WRACC => 0x67,
            Operations::REACC => 0x68,
        }
    }

    /// The opcode with byte code `code`; `None` for a byte that is no opcode.
    pub fn from_code(code: u8) -> (r: Option<Operations>)
        ensures
            r == op_of_code(code),
            r matches Some(op) ==> op_code(op) == code,
    {
        let r = match code {
            0x00 => Some(Operations::NOP),
            0x01 => Some(Operations::ADD),
            0x02 => Some(Operations::SUB),
            0x03 => Some(Operations::MUL),
            0x04 => Some(Operations::DIV),
            0x05 => Some(Operations::MOD),
            0x06 => Some(Operations::AND),
            0x07 => Some(Operations::OR),
            0x08 => Some(Operations::XOR),
            0x09 => Some(Operations::NOT),
            0x0A => Some(Operations::EQ),
            0x0B => Some(Operations::NEQ),
            0x0C => Some(Operations::LT),
            0x0D => Some(Operations::GT),
            0x0E => Some(Operations::PUSH),
            0x0F => Some(Operations::POP),
            0x10 => Some(Operations::DUP),
            0x11 => Some(Operations::SWAP),
            0x12 => Some(Operations::JMP),
            0x13 => Some(Operations::JZ),
            0x14 => Some(Operations::JNZ),
            0x15 => Some(Operations::INC),
            0x16 => Some(Operations::DEC),
            0x17 => Some(Operations::LOAD),
            0x18 => Some(Operations::STORE),
            0x19 => Some(Operations::WRITE),
            0x1A => Some(Operations::READ),
            0x1B => Some(Operations::MOV),
            0x1C => Some(Operations::ALLOC),
            0x1D => Some(Operations::FREE),
            0x1E => Some(Operations::REALLOC),
            0x1F => Some(Operations::FLUSH),
            0x64 => Some(Operations::FUNC),
            0x65 => Some(Operations::RET),
            0x66 => Some(Operations::CALL),
            0x67 => Some(Operations::WRACC),
            0x68 => Some(Operations::REACC),
            _ => None,
        };
        proof {
            match r {
                Some(op) => {
                    lemma_op_code_round_trip(op);
                },
                None => {
                    assert forall|op: Operations| op_code(op) != code by {
                        match op {
                            _ => {},
                        }
                    }
                },
            }
        }
        r
    }
}

/// A value that stands for one byte and can be rewritten from one.
pub trait ByteData: Sized {
    /// The byte this value stands for.
    spec fn byte_view(&self) -> u8;

    /// Whether `data` is a byte that some value of this type stands for.
    spec fn accepts(data: u8) -> bool;

    fn get(&self) -> (r: u8)
        ensures
            r == self.byte_view(),
    ;

    /// Becomes the value that `data` stands for; a byte that no value stands
    /// for leaves the value unchanged.
    fn set(&mut self, data: u8)
        ensures
            Self::accepts(data) ==> final(self).byte_view() == data,
            !Self::accepts(data) ==> *final(self) == *old(self),
    ;
}

impl ByteData for Operations {
    open spec fn byte_view(&self) -> u8 {
        op_code(*self)
    }

    open spec fn accepts(data: u8) -> bool {
        op_of_code(data) is Some
    }

    fn get(&self) -> (r: u8) {
        self.code()
    }

    fn set(&mut self, data: u8) {
        match Operations::from_code(data) {
            Some(op) => {
                *self = op;
            },
            None => {},
        }
    }
}

/// Which side of a two-operand arithmetic instruction is a constant and
/// which a register.
pub enum MathOperationSides {
    ConstConst,
    ConstReg,
    RegConst,
    RegReg,
}

/// The number interpretation of an arithmetic instruction.
pub enum MathOpTypes {
    Signed,
    Unsigned,
    Float,
}

/// How an instruction fetches one of its operands.
#[derive(Debug, Clone, Copy, PartialEq, Eq, Structural)]
pub enum ArgType {
    /// Read a whole tagged operand and resolve it through its tag.
    Typed,
    /// Read only the payload; use it literally.
    Untyped,
    /// Read the payload as a register index: a location, not a value.
    Dest,
    /// Read the payload as a jump-table index; resolves to a stream position.
    Func,
}

} // verus!
