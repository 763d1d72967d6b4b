//! Tagged operands, instruction streams, and their two serialised forms: raw
//! bytes (tag byte, payload byte) and text (tag char, payload char).
use vstd::prelude::*;
use crate::render::{hex_padded, push_number, push_str, push_tag_name, radix_digits, tag_name};
use crate::types::{Types, type_code, type_of_code};

verus! {

/// A tagged operand: a tag and a 64-bit payload.
#[derive(Debug, Clone, Copy, PartialEq, Eq, Structural)]
pub struct Byte {
    pub data: u64,
    pub pos: usize,
    pub tp: Types,
}

impl Byte {
    /// The payload.
    pub fn unwrap(&self) -> (r: u64)
        ensures
            r == self.data,
    {
        self.data
    }

    /// The payload in hexadecimal, at least two digits.
    pub fn stringify(&self) -> (r: String)
        ensures
            r@ == hex_padded(self.data as nat, 2),
    {
        let mut s = String::new();
        push_number(&mut s, self.data, 16, 2);
        s
    }

    /// The tag's name, then the payload in hexadecimal (at least two
    /// digits), then a space.
    pub fn assembly(&self) -> (r: String)
        ensures
            r@ == tag_name(self.tp) + hex_padded(self.data as nat, 2) + " "@,
    {
        let mut s = String::new();
        push_tag_name(&mut s, self.tp);
        push_number(&mut s, self.data, 16, 2);
        push_str(&mut s, " ");
        s
    }
}

/// The listing of one operand: its tag code in hexadecimal, its payload in
/// hexadecimal (at least two digits), a space.
pub open spec fn listing_entry(b: Byte) -> Seq<char> {
    radix_digits(type_code(b.tp) as nat, 16) + hex_padded(b.data as nat, 2) + " "@
}

/// The listing of a stream: its operands' entries in order.
pub open spec fn listing(s: Seq<Byte>) -> Seq<char>
    decreases s.len(),
{
    if s.len() == 0 {
        Seq::empty()
    } else {
        listing(s.drop_last()) + listing_entry(s.last())
    }
}

/// An operand that both serialised forms carry without loss: a payload of
/// one byte, and no position.
pub open spec fn is_wire_operand(b: Byte) -> bool {
    b.data < 256 && b.pos == 0
}

/// An instruction stream: tagged operands in order.
#[derive(Debug, Clone)]
pub struct ByteStream {
    /// A read cursor for tools that walk the stream; the engine does not use it.
    pub pos: usize,
    pub bytes: Vec<Byte>,
}

impl View for ByteStream {
    type V = Seq<Byte>;

    open spec fn view(&self) -> Seq<Byte> {
        self.bytes@
    }
}

/// The operand that raw bytes give at index `i`: the tag from byte `2i`, the
/// payload from byte `2i + 1`, or from byte `2i` again when the input ends
/// there.
pub open spec fn decoded_at(raw: Seq<u8>, i: int) -> Byte {
    Byte {
        data: (if 2 * i + 1 < raw.len() {
            raw[2 * i + 1]
        } else {
            raw[2 * i]
        }) as u64,
        pos: 0,
        tp: type_of_code(raw[2 * i]),
    }
}

/// The instruction stream that a raw byte sequence decodes to.
pub open spec fn decode_spec(raw: Seq<u8>) -> Seq<Byte> {
    Seq::new(((raw.len() + 1) / 2) as nat, |i: int| decoded_at(raw, i))
}

/// The raw bytes of an instruction stream: per operand, its tag code and the
/// low byte of its payload.
pub open spec fn encode_spec(s: Seq<Byte>) -> Seq<u8> {
    Seq::new(
        2 * s.len(),
        |j: int|
            if j % 2 == 0 {
                type_code(s[j / 2].tp)
            } else {
                (s[j / 2].data % 256) as u8
            },
    )
}

/// Whether `x` is a Unicode scalar value.
pub open spec fn is_scalar(x: u32) -> bool {
    x < 0xD800 || (0xE000 <= x && x <= 0x10FFFF)
}

/// The char with code `x`, or `'\0'` where `x` is no scalar value.
pub open spec fn char_or_nul(x: u32) -> char {
    if is_scalar(x) {
        x as char
    } else {
        '\0'
    }
}

/// The text form of an instruction stream: per operand, the char of its tag
/// code and the char of the low 32 bits of its payload.
pub open spec fn text_spec(s: Seq<Byte>) -> Seq<char> {
    Seq::new(
        2 * s.len(),
        |j: int|
            if j % 2 == 0 {
                char_or_nul(type_code(s[j / 2].tp) as u32)
            } else {
                char_or_nul(s[j / 2].data as u32)
            },
    )
}

/// The bytes that text stands for: each char cut to its low byte.
pub open spec fn text_bytes(t: Seq<char>) -> Seq<u8> {
    t.map_values(|c: char| c as u8)
}

/// Relies on `char::from_u32`: `Some` exactly for a scalar value, holding the
/// char with that code.
#[verifier::external_body]
fn char_from_u32(x: u32) -> (r: Option<char>)
    ensures
        r is Some <==> is_scalar(x),
        r matches Some(c) ==> c == x as char,
{
    char::from_u32(x)
}

/// Relies on `String::push`: appends one char.
#[verifier::external_body]
pub(crate) fn push_char(s: &mut String, c: char)
    ensures
        final(s)@ == old(s)@.push(c),
{
    s.push(c)
}

/// The char with code `x`, or `'\0'` where `x` is no scalar value.
fn char_or_nul_exec(x: u32) -> (r: char)
    ensures
        r == char_or_nul(x),
{
    match char_from_u32(x) {
        Some(c) => c,
        None => '\0',
    }
}

impl ByteStream {
    /// An empty stream.
    pub fn new() -> (r: ByteStream)
        ensures
            r@ == Seq::<Byte>::empty(),
            r.pos == 0,
    {
        ByteStream { pos: 0, bytes: Vec::new() }
    }

    /// A copy of this stream.
    pub fn duplicate(&self) -> (r: ByteStream)
        ensures
            r@ == self@,
    {
        let mut bytes: Vec<Byte> = Vec::new();
        let mut i: usize = 0;
        while i < self.bytes.len()
            invariant
                i <= self.bytes.len(),
                bytes@ == self.bytes@.subrange(0, i as int),
            decreases self.bytes.len() - i,
        {
            bytes.push(self.bytes[i]);
            i = i + 1;
        }
        ByteStream { pos: self.pos, bytes }
    }

    /// The number of operands.
    pub fn len(&self) -> (r: usize)
        ensures
            r == self@.len(),
    {
        self.bytes.len()
    }

    /// Appends one operand; returns a copy of the stream as it now stands.
    pub fn emit(&mut self, byte: Byte) -> (r: Self)
        ensures
            final(self)@ == old(self)@.push(byte),
            final(self).pos == old(self).pos,
            r@ == final(self)@,
    {
        self.bytes.push(byte);
        self.duplicate()
    }

    /// Appends every operand of `stream`, in order; returns a copy of the
    /// stream as it now stands.
    pub fn emitstream(&mut self, stream: ByteStream) -> (r: Self)
        ensures
            final(self)@ == old(self)@ + stream@,
            final(self).pos == old(self).pos,
            r@ == final(self)@,
    {
        let mut i: usize = 0;
        while i < stream.bytes.len()
            invariant
                self.pos == old(self).pos,
                i <= stream@.len(),
                self@ == old(self)@ + stream@.subrange(0, i as int),
            decreases stream@.len() - i,
        {
            self.bytes.push(stream.bytes[i]);
            i = i + 1;
        }
        self.duplicate()
    }

    /// The listing of the stream, as `view` prints it: per operand its tag
    /// code and payload in hexadecimal, then a space.
    pub fn render(&self) -> (r: String)
        ensures
            r@ == listing(self@),
    {
        let mut s = String::new();
        let mut i: usize = 0;
        while i < self.bytes.len()
            invariant
                i <= self@.len(),
                s@ == listing(self@.subrange(0, i as int)),
            decreases self@.len() - i,
        {
            let b = self.bytes[i];
            push_number(&mut s, b.tp.code() as u64, 16, 0);
            push_number(&mut s, b.data, 16, 2);
            push_str(&mut s, " ");
            proof {
                assert(self@.subrange(0, i + 1).drop_last() =~= self@.subrange(0, i as int));
                assert(s@ =~= listing(self@.subrange(0, i as int)) + listing_entry(b));
            }
            i = i + 1;
        }
        assert(self@.subrange(0, self@.len() as int) =~= self@);
        s
    }

    /// The text form: for each operand the char of its tag code, then the
    /// char of its payload's low 32 bits (`'\0'` where that is no char).
    pub fn stringify(&self) -> (r: String)
        ensures
            r@ == text_spec(self@),
    {
        let mut s = String::new();
        let mut i: usize = 0;
        while i < self.bytes.len()
            invariant
                i <= self@.len(),
                s@ == text_spec(self@).subrange(0, 2 * i as int),
            decreases self@.len() - i,
        {
            let b = self.bytes[i];
            let t = char_or_nul_exec(b.tp.code() as u32);
            let d = char_or_nul_exec(b.data as u32);
            push_char(&mut s, t);
            push_char(&mut s, d);
            i = i + 1;
            assert(s@ =~= text_spec(self@).subrange(0, 2 * i as int));
        }
        assert(s@ =~= text_spec(self@));
        s
    }
}

impl Default for ByteStream {
    fn default() -> (r: ByteStream)
        ensures
            r@ == Seq::<Byte>::empty(),
    {
        ByteStream::new()
    }
}

impl From<Vec<Byte>> for ByteStream {
    fn from(bytes: Vec<Byte>) -> (r: Self) {
        ByteStream { pos: 0, bytes }
    }
}

impl vstd::std_specs::convert::FromSpecImpl<Vec<Byte>> for ByteStream {
    open spec fn obeys_from_spec() -> bool {
        true
    }

    open spec fn from_spec(v: Vec<Byte>) -> Self {
        ByteStream { pos: 0, bytes: v }
    }
}

impl From<ByteStream> for Vec<Byte> {
    fn from(stream: ByteStream) -> (r: Self) {
        stream.bytes
    }
}

impl vstd::std_specs::convert::FromSpecImpl<ByteStream> for Vec<Byte> {
    open spec fn obeys_from_spec() -> bool {
        true
    }

    open spec fn from_spec(v: ByteStream) -> Self {
        v.bytes
    }
}

/// The operands of `streams`, one stream after another.
pub open spec fn joined(streams: Seq<ByteStream>) -> Seq<Byte>
    decreases streams.len(),
{
    if streams.len() == 0 {
        Seq::empty()
    } else {
        joined(streams.drop_last()) + streams.last()@
    }
}

impl ByteStream {
    /// A stream holding a copy of `bytes`.
    pub fn from_slice(bytes: &[Byte]) -> (r: ByteStream)
        ensures
            r@ == bytes@,
            r.pos == 0,
    {
        let mut out: Vec<Byte> = Vec::new();
        let mut i: usize = 0;
        while i < bytes.len()
            invariant
                i <= bytes@.len(),
                out@ == bytes@.subrange(0, i as int),
            decreases bytes@.len() - i,
        {
            out.push(bytes[i]);
            i = i + 1;
        }
        ByteStream { pos: 0, bytes: out }
    }

    /// One stream holding the operands of `streams` in order.
    pub fn concat(streams: &[ByteStream]) -> (r: ByteStream)
        ensures
            r@ == joined(streams@),
            r.pos == 0,
    {
        let mut out = ByteStream::new();
        let mut i: usize = 0;
        while i < streams.len()
            invariant
                i <= streams@.len(),
                out.pos == 0,
                out@ == joined(streams@.subrange(0, i as int)),
            decreases streams@.len() - i,
        {
            let piece = streams[i].duplicate();
            out.emitstream(piece);
            proof {
                assert(streams@.subrange(0, i + 1).drop_last() =~= streams@.subrange(0, i as int));
            }
            i = i + 1;
        }
        assert(streams@.subrange(0, streams@.len() as int) =~= streams@);
        out
    }

    /// The low byte of each operand's payload, in order; the tags are left out.
    pub fn payloads(&self) -> (r: Vec<u8>)
        ensures
            r@ == self@.map_values(|b: Byte| (b.data % 256) as u8),
    {
        let mut out: Vec<u8> = Vec::new();
        let mut i: usize = 0;
        while i < self.bytes.len()
            invariant
                i <= self@.len(),
                out@ == self@.subrange(0, i as int).map_values(|b: Byte| (b.data % 256) as u8),
            decreases self@.len() - i,
        {
            out.push((self.bytes[i].data % 256) as u8);
            i = i + 1;
            assert(out@ =~= self@.subrange(0, i as int).map_values(|b: Byte| (b.data % 256) as u8));
        }
        assert(self@.subrange(0, self@.len() as int) =~= self@);
        out
    }
}

/// Raw bytes to a stream, as `decode` reads them. A specification cannot
/// build a `ByteStream`'s vector, so this conversion states no result of its
/// own; `decode` carries the exact contract.
impl From<Vec<u8>> for ByteStream {
    fn from(raw: Vec<u8>) -> (r: Self) {
        decode(&raw)
    }
}

impl vstd::std_specs::convert::FromSpecImpl<Vec<u8>> for ByteStream {
    open spec fn obeys_from_spec() -> bool {
        false
    }

    open spec fn from_spec(v: Vec<u8>) -> Self {
        arbitrary()
    }
}

/// A stream to the low bytes of its payloads, as `payloads` gives them (which
/// carries the exact contract).
impl From<ByteStream> for Vec<u8> {
    fn from(stream: ByteStream) -> (r: Self) {
        stream.payloads()
    }
}

impl vstd::std_specs::convert::FromSpecImpl<ByteStream> for Vec<u8> {
    open spec fn obeys_from_spec() -> bool {
        false
    }

    open spec fn from_spec(v: ByteStream) -> Self {
        arbitrary()
    }
}

/// A copy of a slice of operands, as `ByteStream::from_slice` makes it (which
/// carries the exact contract).
impl From<&[Byte]> for ByteStream {
    fn from(bytes: &[Byte]) -> (r: Self) {
        ByteStream::from_slice(bytes)
    }
}

impl vstd::std_specs::convert::FromSpecImpl<&[Byte]> for ByteStream {
    open spec fn obeys_from_spec() -> bool {
        false
    }

    open spec fn from_spec(v: &[Byte]) -> Self {
        arbitrary()
    }
}

/// Streams joined in order, as `ByteStream::concat` joins them (which carries
/// the exact contract).
impl From<&[ByteStream]> for ByteStream {
    fn from(streams: &[ByteStream]) -> (r: Self) {
        ByteStream::concat(streams)
    }
}

impl vstd::std_specs::convert::FromSpecImpl<&[ByteStream]> for ByteStream {
    open spec fn obeys_from_spec() -> bool {
        false
    }

    open spec fn from_spec(v: &[ByteStream]) -> Self {
        arbitrary()
    }
}

/// Streams joined in order, as `ByteStream::concat` joins them (which carries
/// the exact contract).
impl From<Vec<ByteStream>> for ByteStream {
    fn from(streams: Vec<ByteStream>) -> (r: Self) {
        ByteStream::concat(streams.as_slice())
    }
}

impl vstd::std_specs::convert::FromSpecImpl<Vec<ByteStream>> for ByteStream {
    open spec fn obeys_from_spec() -> bool {
        false
    }

    open spec fn from_spec(v: Vec<ByteStream>) -> Self {
        arbitrary()
    }
}

/// Decodes raw bytes into an instruction stream: each pair of bytes is a tag
/// and a one-byte payload; an odd last byte is both. Unknown tags degrade to
/// `NoType`; opcodes are not checked here.
pub fn decode(raw: &Vec<u8>) -> (r: ByteStream)
    ensures
        r@ == decode_spec(raw@),
{
    let mut bytes: Vec<Byte> = Vec::new();
    let mut i: usize = 0;
    while i < raw.len()
        invariant
            i <= raw@.len(),
            i % 2 == 0 || i == raw@.len(),
            bytes@ == decode_spec(raw@).subrange(0, ((i + 1) / 2) as int),
        decreases raw@.len() - i,
    {
        let tag = raw[i];
        if i + 1 < raw.len() {
            bytes.push(Byte { data: raw[i + 1] as u64, pos: 0, tp: Types::from(tag) });
            i = i + 2;
        } else {
            bytes.push(Byte { data: tag as u64, pos: 0, tp: Types::from(tag) });
            i = i + 1;
        }
        assert(bytes@ =~= decode_spec(raw@).subrange(0, ((i + 1) / 2) as int));
    }
    assert(bytes@ =~= decode_spec(raw@));
    ByteStream { pos: 0, bytes }
}

/// Encodes an instruction stream as raw bytes: per operand, its tag code and
/// the low byte of its payload.
pub fn encode(stream: &ByteStream) -> (r: Vec<u8>)
    ensures
        r@ == encode_spec(stream@),
{
    let mut out: Vec<u8> = Vec::new();
    let mut i: usize = 0;
    while i < stream.bytes.len()
        invariant
            i <= stream@.len(),
            out@ == encode_spec(stream@).subrange(0, 2 * i as int),
        decreases stream@.len() - i,
    {
        let b = stream.bytes[i];
        out.push(b.tp.code());
        out.push((b.data % 256) as u8);
        i = i + 1;
        assert(out@ =~= encode_spec(stream@).subrange(0, 2 * i as int));
    }
    assert(out@ =~= encode_spec(stream@));
    out
}

/// Raw bytes decode back to the stream they were encoded from.
pub proof fn lemma_decode_encode(s: Seq<Byte>)
    requires
        forall|i: int| 0 <= i < s.len() ==> is_wire_operand(#[trigger] s[i]),
    ensures
        decode_spec(encode_spec(s)) == s,
{
    let e = encode_spec(s);
    assert forall|i: int| 0 <= i < s.len() implies #[trigger] decoded_at(e, i) == s[i] by {
        assert((2 * i) / 2 == i);
        assert((2 * i + 1) / 2 == i);
        assert((2 * i) % 2 == 0);
        assert((2 * i + 1) % 2 == 1);
        crate::types::lemma_type_code_round_trip(s[i].tp);
        assert(s[i].data % 256 == s[i].data);
    }
    assert(decode_spec(e) =~= s);
}

/// The text form reads back to the stream it was written from.
pub proof fn lemma_rvasm_stringify(s: Seq<Byte>)
    requires
        forall|i: int| 0 <= i < s.len() ==> is_wire_operand(#[trigger] s[i]),
    ensures
        decode_spec(text_bytes(text_spec(s))) == s,
{
    let t = text_bytes(text_spec(s));
    assert forall|j: int| 0 <= j < t.len() implies #[trigger] t[j] == encode_spec(s)[j] by {
        let b = s[j / 2];
        if j % 2 == 0 {
            let x = type_code(b.tp) as u32;
            assert(x < 256);
            assert(((x as char) as u8) == x);
        } else {
            let x = b.data as u32;
            assert(b.data < 256);
            assert(x == b.data);
            assert(((x as char) as u8) == x);
            assert(b.data % 256 == b.data);
        }
    }
    assert(t =~= encode_spec(s));
    lemma_decode_encode(s);
}

/// The number that bytes spell in base 256, most significant first.
pub open spec fn be_value(s: Seq<u8>) -> nat
    decreases s.len(),
{
    if s.len() == 0 {
        0
    } else {
        be_value(s.drop_last()) * 256 + s.last() as nat
    }
}

/// 256 to the power `n`.
pub open spec fn pow256(n: nat) -> nat
    decreases n,
{
    if n == 0 {
        1
    } else {
        256 * pow256((n - 1) as nat)
    }
}

proof fn lemma_pow256_bound(i: nat)
    requires
        i <= 8,
    ensures
        pow256(i) <= 0x1_0000_0000_0000_0000,
    decreases 8 - i,
{
    if i == 8 {
        reveal_with_fuel(pow256, 9);
    } else {
        lemma_pow256_bound(i + 1);
    }
}

/// A label's number: its chars, each cut to its low byte, read in base 256,
/// most significant first (so at most eight chars).
pub fn stringtohex(string: String) -> (r: u64)
    requires
        1 <= string@.len() <= 8,
    ensures
        r == be_value(text_bytes(string@)),
{
    let s = string.as_str();
    let n = s.unicode_len();
    let ghost t = text_bytes(string@);
    let mut acc: u64 = 0;
    let mut i: usize = 0;
    while i < n
        invariant
            n == string@.len(),
            s@ == string@,
            t == text_bytes(string@),
            n <= 8,
            i <= n,
            acc == be_value(t.subrange(0, i as int)),
            acc < pow256(i as nat),
        decreases n - i,
    {
        let b = s.get_char(i) as u8;
        proof {
            lemma_pow256_bound((i + 1) as nat);
            let p = pow256(i as nat);
            assert(acc * 256 + b < 256 * p) by (nonlinear_arith)
                requires
                    acc < p,
                    b < 256,
            ;
            assert(t.subrange(0, i + 1).drop_last() =~= t.subrange(0, i as int));
        }
        acc = acc * 256 + b as u64;
        i = i + 1;
    }
    assert(t.subrange(0, n as int) =~= t);
    acc
}

/// Byte `k` (0 is the most significant) of a 64-bit number.
pub open spec fn be_byte(v: u64, k: int) -> u8 {
    ((v >> ((7 - k) * 8) as u64) & 0xff) as u8
}

/// The UTF-8 form of the char whose code is the byte `b`.
pub open spec fn utf8_of_byte(b: u8) -> Seq<u8> {
    if b < 0x80 {
        seq![b]
    } else {
        seq![0xC0u8 | (b >> 6u8), 0x80u8 | (b & 0x3Fu8)]
    }
}

/// The UTF-8 form of the chars whose codes are the first `k` bytes of `v`.
pub open spec fn utf8_of_be_bytes(v: u64, k: int) -> Seq<u8>
    decreases k,
{
    if k <= 0 {
        Seq::empty()
    } else {
        utf8_of_be_bytes(v, k - 1) + utf8_of_byte(be_byte(v, k - 1))
    }
}

/// The eight bytes of `hex`, most significant first, each taken as the char
/// with that code, as UTF-8 text.
pub fn hextostring(hex: u64) -> (r: Vec<u8>)
    ensures
        r@ == utf8_of_be_bytes(hex, 8),
{
    let mut out: Vec<u8> = Vec::new();
    let mut k: u64 = 0;
    while k < 8
        invariant
            k <= 8,
            out@ == utf8_of_be_bytes(hex, k as int),
        decreases 8 - k,
    {
        let b = ((hex >> ((7 - k) * 8)) & 0xff) as u8;
        if b < 0x80 {
            out.push(b);
        } else {
            out.push(0xC0u8 | (b >> 6u8));
            out.push(0x80u8 | (b & 0x3Fu8));
        }
        k = k + 1;
        assert(out@ =~= utf8_of_be_bytes(hex, k as int));
    }
    out
}

} // verus!
