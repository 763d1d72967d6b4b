//! The disassembler's text, and reading the text form of a stream back.
use vstd::prelude::*;
use crate::bytes::{Byte, ByteStream, decode, decode_spec, text_bytes};
use crate::ops::{Operations, op_of_code};
use crate::render::{op_name, push_number, push_op_name, push_str, radix_digits};
use crate::types::Types;

verus! {

/// Whether every `TypeOp` operand's low byte is a known opcode.
pub open spec fn ops_known(s: Seq<Byte>) -> bool {
    forall|i: int| 0 <= i < s.len() && #[trigger] s[i].tp == Types::TypeOp ==> op_of_code(s[i].data as u8) is Some
}

/// The disassembly of one operand: an opcode starts a new line with its
/// name; other operands show their payload in hexadecimal behind a prefix
/// that names the tag (a function index in decimal).
pub open spec fn operand_text(b: Byte) -> Seq<char> {
    let x = radix_digits(b.data as nat, 16);
    match b.tp {
        Types::TypeOp => "\n"@ + op_name(op_of_code(b.data as u8)->0) + " "@,
        Types::TypeReg => "["@ + x + "] "@,
        Types::TypeU64 => "64u"@ + x + " "@,
        Types::TypeU8 => "8u"@ + x + " "@,
        Types::TypeFunc => ":"@ + radix_digits(b.data as nat, 10) + " "@,
        Types::TypeAddr => "@"@ + x + " "@,
        Types::TypeI64 => "64i"@ + x + " "@,
        Types::TypeI128 => "128i"@ + x + " "@,
        Types::TypeU128 => "128u"@ + x + " "@,
        Types::TypeF32 => "32f"@ + x + " "@,
        Types::TypeF64 => "64f"@ + x + " "@,
        Types::DerefStack => "("@ + x + ") "@,
        Types::DerefHeapReg => "h"@ + x,
        Types::DerefStackReg => "s"@ + x + " "@,
        Types::NoType => x + " "@,
        Types::TypeI8 => x + " "@,
    }
}

/// The disassembly of a stream: its operands' texts in order.
pub open spec fn assembly_text(s: Seq<Byte>) -> Seq<char>
    decreases s.len(),
{
    if s.len() == 0 {
        Seq::empty()
    } else {
        assembly_text(s.drop_last()) + operand_text(s.last())
    }
}

fn push_operand_text(s: &mut String, b: Byte)
    requires
        b.tp == Types::TypeOp ==> op_of_code(b.data as u8) is Some,
    ensures
        final(s)@ == old(s)@ + operand_text(b),
{
    let ghost start = s@;
    let (prefix, suffix, base): (&str, &str, u64) = match b.tp {
        Types::TypeOp => {
            push_str(s, "\n");
            match Operations::from_code(b.data as u8) {
                Some(op) => push_op_name(s, op),
                None => {},
            }
            push_str(s, " ");
            assert(s@ =~= start + operand_text(b));
            return;
        },
        Types::TypeReg => ("[", "] ", 16),
        Types::TypeU64 => ("64u", " ", 16),
        Types::TypeU8 => ("8u", " ", 16),
        Types::TypeFunc => (":", " ", 10),
        Types::TypeAddr => ("@", " ", 16),
        Types::TypeI64 => ("64i", " ", 16),
        Types::TypeI128 => ("128i", " ", 16),
        Types::TypeU128 => ("128u", " ", 16),
        Types::TypeF32 => ("32f", " ", 16),
        Types::TypeF64 => ("64f", " ", 16),
        Types::DerefStack => ("(", ") ", 16),
        Types::DerefHeapReg => ("h", "", 16),
        Types::DerefStackReg => ("s", " ", 16),
        Types::NoType => ("", " ", 16),
        Types::TypeI8 => ("", " ", 16),
    };
    push_str(s, prefix);
    push_number(s, b.data, base, 0);
    push_str(s, suffix);
    proof {
        reveal_strlit("");
        assert(Seq::new(0, |i: int| '0') + radix_digits(b.data as nat, base as nat) =~= radix_digits(b.data as nat, base as nat));
        assert(s@ =~= start + operand_text(b));
    }
}

/// The disassembly of a stream, as the `asm` command prints it.
pub fn mkasm(stream: ByteStream) -> (r: String)
    requires
        ops_known(stream@),
    ensures
        r@ == assembly_text(stream@),
{
    let mut s = String::new();
    let mut i: usize = 0;
    while i < stream.bytes.len()
        invariant
            ops_known(stream@),
            i <= stream@.len(),
            s@ == assembly_text(stream@.subrange(0, i as int)),
        decreases stream@.len() - i,
    {
        let b = stream.bytes[i];
        push_operand_text(&mut s, b);
        proof {
            assert(stream@.subrange(0, i + 1).drop_last() =~= stream@.subrange(0, i as int));
        }
        i = i + 1;
    }
    assert(stream@.subrange(0, stream@.len() as int) =~= stream@);
    s
}

/// Reads the text form back: each char is cut to its low byte, and the bytes
/// are decoded as `decode` does.
pub fn rvasm(text: String) -> (r: ByteStream)
    ensures
        r@ == decode_spec(text_bytes(text@)),
{
    let s = text.as_str();
    let n = s.unicode_len();
    let mut raw: Vec<u8> = Vec::new();
    let mut i: usize = 0;
    while i < n
        invariant
            n == text@.len(),
            s@ == text@,
            i <= n,
            raw@ == text_bytes(text@).subrange(0, i as int),
        decreases n - i,
    {
        let c = s.get_char(i);
        raw.push(c as u8);
        i = i + 1;
        assert(raw@ =~= text_bytes(text@).subrange(0, i as int));
    }
    assert(raw@ =~= text_bytes(text@));
    decode(&raw)
}


} // verus!
