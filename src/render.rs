//! Text rendering: numbers in hexadecimal and decimal, and the names of tags
//! and opcodes, as the disassembler and the stream listing write them.
use vstd::prelude::*;
use crate::bytes::push_char;
use crate::ops::Operations;
use crate::types::Types;

verus! {

/// Relies on `String::push_str`: appends the text.
#[verifier::external_body]
pub(crate) fn push_str(s: &mut String, t: &str)
    ensures
        final(s)@ == old(s)@ + t@,
{
    s.push_str(t)
}

/// The lower-case digit for `d < 16`.
pub open spec fn digit_char(d: nat) -> char {
    (if d < 10 {
        48 + d
    } else {
        87 + d
    }) as u8 as char
}

/// The digits of `v` in base `base`, most significant first, with no
/// leading zeros (and one `0` for zero).
pub open spec fn radix_digits(v: nat, base: nat) -> Seq<char>
    decreases v,
    via radix_digits_decreases
{
    if base < 2 || v < base {
        seq![digit_char(v)]
    } else {
        radix_digits(v / base, base).push(digit_char(v % base))
    }
}

#[via_fn]
proof fn radix_digits_decreases(v: nat, base: nat) {
    if !(base < 2 || v < base) {
        assert(v / base < v) by (nonlinear_arith)
            requires
                base >= 2,
                v >= base,
        ;
    }
}

/// `v` in lower-case hexadecimal, padded with zeros to at least `width` digits.
pub open spec fn hex_padded(v: nat, width: nat) -> Seq<char> {
    let d = radix_digits(v, 16);
    if d.len() < width {
        Seq::new((width - d.len()) as nat, |i: int| '0') + d
    } else {
        d
    }
}

fn digit_char_exec(d: u64) -> (c: char)
    requires
        d < 16,
    ensures
        c == digit_char(d as nat),
{
    if d < 10 {
        (48 + d as u8) as char
    } else {
        (87 + d as u8) as char
    }
}

/// Appends `v` in base `base` (10 or 16), padded with zeros to `width` digits.
pub(crate) fn push_number(s: &mut String, v: u64, base: u64, width: usize)
    requires
        base == 10 || base == 16,
    ensures
        final(s)@ == old(s)@ + (if radix_digits(v as nat, base as nat).len() < width {
            Seq::new((width - radix_digits(v as nat, base as nat).len()) as nat, |i: int| '0')
                + radix_digits(v as nat, base as nat)
        } else {
            radix_digits(v as nat, base as nat)
        }),
{
    let mut digits: Vec<char> = Vec::new();
    let mut x: u64 = v;
    while x >= base
        invariant
            base == 10 || base == 16,
            radix_digits(v as nat, base as nat) == radix_digits(x as nat, base as nat) + digits@,
        decreases x,
    {
        let c = digit_char_exec(x % base);
        digits.insert(0, c);
        proof {
            assert(radix_digits(x as nat, base as nat) == radix_digits((x / base) as nat, base as nat).push(c));
            assert(radix_digits(v as nat, base as nat) =~= radix_digits((x / base) as nat, base as nat) + digits@);
        }
        x = x / base;
    }
    let c = digit_char_exec(x);
    digits.insert(0, c);
    proof {
        assert(radix_digits(v as nat, base as nat) =~= digits@);
    }
    let ghost start = s@;
    let mut pad: usize = 0;
    let n = digits.len();
    let zeros = if n < width {
        width - n
    } else {
        0
    };
    while pad < zeros
        invariant
            pad <= zeros,
            s@ == start + Seq::new(pad as nat, |i: int| '0'),
        decreases zeros - pad,
    {
        push_char(s, '0');
        pad = pad + 1;
        assert(s@ =~= start + Seq::new(pad as nat, |i: int| '0'));
    }
    let ghost mid = s@;
    let mut i: usize = 0;
    while i < n
        invariant
            n == digits@.len(),
            i <= n,
            s@ == mid + digits@.subrange(0, i as int),
        decreases n - i,
    {
        push_char(s, digits[i]);
        i = i + 1;
        assert(s@ =~= mid + digits@.subrange(0, i as int));
    }
    proof {
        assert(digits@.subrange(0, n as int) =~= digits@);
        if n < width {
            assert(s@ =~= start + (Seq::new((width - n) as nat, |i: int| '0') + digits@));
        } else {
            assert(Seq::new(0, |i: int| '0') + digits@ =~= digits@);
            assert(s@ =~= start + digits@);
        }
    }
}

/// The name of a tag, as its variant is spelled.
pub open spec fn tag_name(t: Types) -> Seq<char> {
    match t {
        Types::TypeU8 => "TypeU8"@,
        Types::TypeU64 => "TypeU64"@,
        Types::TypeI8 => "TypeI8"@,
        Types::TypeI64 => "TypeI64"@,
        Types::TypeF32 => "TypeF32"@,
        Types::TypeF64 => "TypeF64"@,
        Types::TypeU128 => "TypeU128"@,
        Types::TypeI128 => "TypeI128"@,
        Types::TypeAddr => "TypeAddr"@,
        Types::TypeReg => "TypeReg"@,
        Types::TypeFunc => "TypeFunc"@,
        Types::TypeOp => "TypeOp"@,
        Types::DerefStack => "DerefStack"@,
        Types::DerefHeapReg => "DerefHeapReg"@,
        Types::DerefStackReg => "DerefStackReg"@,
        Types::NoType => "NoType"@,
    }
}

/// Appends the name of a tag.
pub(crate) fn push_tag_name(s: &mut String, t: Types)
    ensures
        final(s)@ == old(s)@ + tag_name(t),
{
    let name = match t {
        Types::TypeU8 => "TypeU8",
        Types::TypeU64 => "TypeU64",
        Types::TypeI8 => "TypeI8",
        Types::TypeI64 => "TypeI64",
        Types::TypeF32 => "TypeF32",
        Types::TypeF64 => "TypeF64",
        Types::TypeU128 => "TypeU128",
        Types::TypeI128 => "TypeI128",
        Types::TypeAddr => "TypeAddr",
        Types::TypeReg => "TypeReg",
        Types::TypeFunc => "TypeFunc",
        Types::TypeOp => "TypeOp",
        Types::DerefStack => "DerefStack",
        Types::DerefHeapReg => "DerefHeapReg",
        Types::DerefStackReg => "DerefStackReg",
        Types::NoType => "NoType",
    };
    push_str(s, name);
}

/// The name of an opcode, as its variant is spelled.
pub open spec fn op_name(op: Operations) -> Seq<char> {
    match op {
        Operations::NOP => "NOP"@,
        Operations::ADD => "ADD"@,
        Operations::SUB => "SUB"@,
        Operations::MUL => "MUL"@,
        Operations::DIV => "DIV"@,
        Operations::MOD => "MOD"@,
        Operations::AND => "AND"@,
        Operations::OR => "OR"@,
        Operations::XOR => "XOR"@,
        Operations::NOT => "NOT"@,
        Operations::EQ => "EQ"@,
        Operations::NEQ => "NEQ"@,
        Operations::LT => "LT"@,
        Operations::GT => "GT"@,
        Operations::PUSH => "PUSH"@,
        Operations::POP => "POP"@,
        Operations::DUP => "DUP"@,
        Operations::SWAP => "SWAP"@,
        Operations::JMP => "JMP"@,
        Operations::JZ => "JZ"@,
        Operations::JNZ => "JNZ"@,
        Operations::LOAD => "LOAD"@,
        Operations::STORE => "STORE"@,
        Operations::ALLOC => "ALLOC"@,
        Operations::FREE => "FREE"@,
        Operations::REALLOC => "REALLOC"@,
        Operations::WRITE => "WRITE"@,
        Operations::READ => "READ"@,
        Operations::FLUSH => "FLUSH"@,
        Operations::MOV => "MOV"@,
        Operations::INC => "INC"@,
        Operations::DEC => "DEC"@,
        Operations::FUNC => "FUNC"@,
        Operations::RET => "RET"@,
        Operations::CALL => "CALL"@,
        Operations::WRACC => "WRACC"@,
        Operations::REACC => "REACC"@,
    }
}

/// Appends the name of an opcode.
pub(crate) fn push_op_name(s: &mut String, op: Operations)
    ensures
        final(s)@ == old(s)@ + op_name(op),
{
    let name = match op {
        Operations::NOP => "NOP",
        Operations::ADD => "ADD",
        Operations::SUB => "SUB",
        Operations::MUL => "MUL",
        Operations::DIV => "DIV",
        Operations::MOD => "MOD",
        Operations::AND => "AND",
        Operations::OR => "OR",
        Operations::XOR => "XOR",
        Operations::NOT => "NOT",
        Operations::EQ => "EQ",
        Operations::NEQ => "NEQ",
        Operations::LT => "LT",
        Operations::GT => "GT",
        Operations::PUSH => "PUSH",
        Operations::POP => "POP",
        Operations::DUP => "DUP",
        Operations::SWAP => "SWAP",
        Operations::JMP => "JMP",
        Operations::JZ => "JZ",
        Operations::JNZ => "JNZ",
        Operations::LOAD => "LOAD",
        Operations::STORE => "STORE",
        Operations::ALLOC => "ALLOC",
        Operations::FREE => "FREE",
        Operations::REALLOC => "REALLOC",
        Operations::WRITE => "WRITE",
        Operations::READ => "READ",
        Operations::FLUSH => "FLUSH",
        Operations::MOV => "MOV",
        Operations::INC => "INC",
        Operations::DEC => "DEC",
        Operations::FUNC => "FUNC",
        Operations::RET => "RET",
        Operations::CALL => "CALL",
        Operations::WRACC => "WRACC",
        Operations::REACC => "REACC",
    };
    push_str(s, name);
}

} // verus!
