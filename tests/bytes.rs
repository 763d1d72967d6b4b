use cbvm_core::bytes::{decode, encode, hextostring, stringtohex, Byte, ByteStream};
use cbvm_core::disasm::{mkasm, rvasm};
use cbvm_core::ops::{ByteData, Operations};
use cbvm_core::types::Types;

fn operand(tp: Types, data: u64) -> Byte {
    Byte { data, pos: 0, tp }
}

fn sample() -> ByteStream {
    let mut s = ByteStream::new();
    s.emit(operand(Types::TypeOp, Operations::ADD.code() as u64));
    s.emit(operand(Types::TypeU8, 3));
    s.emit(operand(Types::TypeReg, 4));
    s.emit(operand(Types::NoType, 255));
    s.emit(operand(Types::DerefHeapReg, 0));
    s
}

fn same(a: &ByteStream, b: &ByteStream) -> bool {
    a.bytes.len() == b.bytes.len()
        && a.bytes.iter().zip(b.bytes.iter()).all(|(x, y)| x.tp == y.tp && x.data == y.data && x.pos == y.pos)
}

#[test]
fn decode_reads_tag_payload_pairs() {
    let s = decode(&vec![0x0B, 0x01, 0x00, 0x03, 0x09, 0x04]);
    assert_eq!(s.bytes.len(), 3);
    assert_eq!(s.bytes[0].tp, Types::TypeOp);
    assert_eq!(s.bytes[0].data, 1);
    assert_eq!(s.bytes[1].tp, Types::TypeU8);
    assert_eq!(s.bytes[1].data, 3);
    assert_eq!(s.bytes[2].tp, Types::TypeReg);
    assert_eq!(s.bytes[2].data, 4);
}

#[test]
fn decode_unknown_tag_degrades_to_notype() {
    let s = decode(&vec![0x42, 0x07]);
    assert_eq!(s.bytes[0].tp, Types::NoType);
    assert_eq!(s.bytes[0].data, 7);
}

#[test]
fn decode_odd_last_byte_is_tag_and_payload() {
    let s = decode(&vec![0x00, 0x05, 0x09]);
    assert_eq!(s.bytes.len(), 2);
    assert_eq!(s.bytes[1].tp, Types::TypeReg);
    assert_eq!(s.bytes[1].data, 9);
}

#[test]
fn decode_empty_is_empty() {
    assert_eq!(decode(&vec![]).bytes.len(), 0);
}

#[test]
fn encode_writes_tag_code_and_low_byte() {
    let mut s = ByteStream::new();
    s.emit(operand(Types::TypeU64, 0x1234));
    s.emit(operand(Types::NoType, 2));
    assert_eq!(encode(&s), vec![0x01, 0x34, 0x0F, 0x02]);
}

#[test]
fn decode_of_encode_round_trips() {
    let s = sample();
    assert!(same(&decode(&encode(&s)), &s));
}

#[test]
fn rvasm_of_stringify_round_trips() {
    let s = sample();
    let text = s.stringify();
    assert_eq!(text.chars().count(), 10);
    assert!(same(&rvasm(text), &s));
}

#[test]
fn stringify_puts_tag_char_then_payload_char() {
    let mut s = ByteStream::new();
    s.emit(operand(Types::TypeU8, 'm' as u64));
    s.emit(operand(Types::TypeU64, 0xD800));
    let text: Vec<char> = s.stringify().chars().collect();
    assert_eq!(text, vec!['\u{0}', 'm', '\u{1}', '\u{0}']);
}

#[test]
fn every_tag_round_trips_through_its_code() {
    for b in 0u8..=255 {
        let t = Types::from(b);
        if b <= 0x0F {
            assert_eq!(t.code(), b);
        } else {
            assert_eq!(t, Types::NoType);
        }
    }
}

#[test]
fn opcodes_round_trip_and_unknown_codes_are_refused() {
    for b in 0u8..=255 {
        match Operations::from_code(b) {
            Some(op) => assert_eq!(op.code(), b),
            None => assert!(!(b <= 0x1F || (0x64..=0x68).contains(&b))),
        }
    }
    assert_eq!(Operations::from_code(0x18), Some(Operations::STORE));
    assert_eq!(Operations::from_code(0x20), None);
}

#[test]
fn byte_data_set_accepts_only_opcodes() {
    let mut op = Operations::NOP;
    op.set(0x66);
    assert_eq!(op, Operations::CALL);
    assert_eq!(op.get(), 0x66);
    op.set(0x99);
    assert_eq!(op, Operations::CALL);
}

#[test]
fn emit_and_emitstream_append_in_order() {
    let mut a = ByteStream::new();
    let copy = a.emit(operand(Types::TypeU8, 1));
    assert_eq!(copy.bytes.len(), 1);
    let mut b = ByteStream::new();
    b.emit(operand(Types::TypeU8, 2));
    b.emit(operand(Types::TypeU8, 3));
    let all = a.emitstream(b);
    assert_eq!(all.bytes.iter().map(|x| x.data).collect::<Vec<_>>(), vec![1, 2, 3]);
    assert_eq!(a.bytes.len(), 3);
    assert_eq!(a.bytes[2].unwrap(), 3);
}

#[test]
fn stringtohex_reads_chars_big_endian() {
    assert_eq!(stringtohex("main".to_string()), 0x6d61696e);
    assert_eq!(stringtohex("a".to_string()), 0x61);
    assert_eq!(stringtohex("abcdefgh".to_string()), 0x6162636465666768);
}

#[test]
fn hextostring_gives_eight_chars_as_utf8() {
    assert_eq!(hextostring(0x6d61696e), vec![0, 0, 0, 0, b'm', b'a', b'i', b'n']);
    assert_eq!(hextostring(0xff), vec![0, 0, 0, 0, 0, 0, 0, 0xC3, 0xBF]);
}

#[test]
fn mkasm_renders_each_operand() {
    let mut s = ByteStream::new();
    s.emit(operand(Types::TypeOp, Operations::ADD.code() as u64));
    s.emit(operand(Types::TypeU8, 3));
    s.emit(operand(Types::TypeReg, 4));
    s.emit(operand(Types::TypeFunc, 12));
    s.emit(operand(Types::DerefHeapReg, 1));
    s.emit(operand(Types::NoType, 255));
    s.emit(operand(Types::TypeOp, Operations::FLUSH.code() as u64));
    s.emit(operand(Types::TypeAddr, 0x10));
    s.emit(operand(Types::DerefStack, 2));
    assert_eq!(mkasm(s), "\nADD 8u3 [4] :12 h1ff \nFLUSH @10 (2) ");
}

#[test]
fn byte_text_forms() {
    assert_eq!(operand(Types::TypeU8, 5).stringify(), "05");
    assert_eq!(operand(Types::TypeU8, 0x1ab).stringify(), "1ab");
    assert_eq!(operand(Types::TypeU8, 5).assembly(), "TypeU805 ");
    assert_eq!(operand(Types::DerefHeapReg, 0).assembly(), "DerefHeapReg00 ");
}

#[test]
fn render_lists_tag_code_and_payload() {
    let mut s = ByteStream::new();
    s.emit(operand(Types::TypeU64, 0x1234));
    s.emit(operand(Types::NoType, 2));
    assert_eq!(s.render(), "11234 f02 ");
    assert_eq!(ByteStream::new().render(), "");
}

#[test]
fn conversions_between_streams_bytes_and_vectors() {
    let raw = vec![0x0B, 0x01, 0x00, 0x03];
    let s = ByteStream::from(raw.clone());
    assert!(same(&s, &decode(&raw)));
    let payloads: Vec<u8> = Vec::from(sample());
    assert_eq!(payloads, vec![1, 3, 4, 255, 0]);
    let items = [operand(Types::TypeU8, 1), operand(Types::TypeU8, 2)];
    let a = ByteStream::from(&items[..]);
    assert_eq!(a.bytes.len(), 2);
    let joined = ByteStream::from(vec![a.duplicate(), sample()]);
    assert_eq!(joined.bytes.len(), 7);
    assert_eq!(joined.bytes[2].tp, Types::TypeOp);
    let also = ByteStream::from(&[a.duplicate(), a][..]);
    assert_eq!(also.bytes.iter().map(|b| b.data).collect::<Vec<_>>(), vec![1, 2, 1, 2]);
    let back: Vec<Byte> = Vec::from(ByteStream::from(vec![operand(Types::TypeReg, 9)]));
    assert_eq!(back[0].data, 9);
}
