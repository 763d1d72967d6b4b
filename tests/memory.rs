use cbvm_core::bytes::{Byte, ByteStream};
use cbvm_core::engine::{Engine, FaultKind, RunOutcome};
use cbvm_core::memory::{Heap, Stack, STACK_CAPACITY};
use cbvm_core::ops::Operations;
use cbvm_core::stdio::IO;
use cbvm_core::types::Types;

#[test]
fn first_allocation_starts_at_zero() {
    let mut h = Heap::new(16);
    assert_eq!(h.allocate(4), Ok(0));
    assert_eq!(h.allocate(4), Ok(4));
}

#[test]
fn two_five_byte_regions_do_not_fit_in_eight_bytes() {
    let mut h = Heap::new(8);
    assert_eq!(h.allocate(5), Ok(0));
    assert_eq!(h.allocate(5), Err(()));
}

#[test]
fn zero_byte_allocation_is_refused() {
    let mut h = Heap::new(8);
    assert_eq!(h.allocate(0), Err(()));
}

#[test]
fn allocation_takes_the_lowest_gap_that_fits() {
    let mut h = Heap::new(20);
    assert_eq!(h.allocate(4), Ok(0));
    assert_eq!(h.allocate(2), Ok(4));
    assert_eq!(h.allocate(4), Ok(6));
    assert_eq!(h.free(4), Ok(()));
    assert_eq!(h.allocate(3), Ok(10));
    assert_eq!(h.allocate(2), Ok(4));
}

#[test]
fn free_then_same_size_alloc_reuses_the_extent() {
    let mut h = Heap::new(32);
    assert_eq!(h.allocate(5), Ok(0));
    assert_eq!(h.allocate(7), Ok(5));
    assert_eq!(h.allocate(3), Ok(12));
    assert_eq!(h.free(6), Ok(()));
    assert_eq!(h.allocate(7), Ok(5));
}

#[test]
fn write_needs_a_live_extent() {
    let mut h = Heap::new(8);
    assert_eq!(h.write(2, 9), Err(()));
    assert_eq!(h.allocate(3), Ok(0));
    assert_eq!(h.write(2, 9), Ok(()));
    assert_eq!(h.write(3, 9), Err(()));
    assert_eq!(h.read(0, 4), Ok(vec![0, 0, 9, 0]));
}

#[test]
fn read_past_the_end_fails() {
    let h = Heap::new(8);
    assert_eq!(h.read(6, 2), Ok(vec![0, 0]));
    assert_eq!(h.read(6, 3), Err(()));
}

#[test]
fn sizeof_reports_the_extent_size_in_bits() {
    let mut h = Heap::new(16);
    assert_eq!(h.allocate(6), Ok(0));
    assert_eq!(h.sizeof(3), Ok(48));
    assert_eq!(h.sizeof(6), Err(()));
}

#[test]
fn free_zeroes_and_releases() {
    let mut h = Heap::new(8);
    assert_eq!(h.allocate(2), Ok(0));
    assert_eq!(h.write(1, 7), Ok(()));
    assert_eq!(h.free(1), Ok(()));
    assert_eq!(h.read(0, 2), Ok(vec![0, 0]));
    assert_eq!(h.free(1), Err(()));
}

#[test]
fn realloc_shrinks_in_place() {
    let mut h = Heap::new(16);
    assert_eq!(h.allocate(6), Ok(0));
    assert_eq!(h.write(5, 1), Ok(()));
    assert_eq!(h.realloc(0, 3), Ok(0));
    assert_eq!(h.sizeof(0), Ok(24));
    assert_eq!(h.read(5, 1), Ok(vec![0]));
}

#[test]
fn realloc_grows_in_place_when_room_follows() {
    let mut h = Heap::new(16);
    assert_eq!(h.allocate(4), Ok(0));
    assert_eq!(h.write(3, 8), Ok(()));
    assert_eq!(h.realloc(2, 10), Ok(0));
    assert_eq!(h.sizeof(9), Ok(80));
    assert_eq!(h.read(3, 1), Ok(vec![8]));
}

#[test]
fn realloc_moves_when_blocked() {
    let mut h = Heap::new(16);
    assert_eq!(h.allocate(2), Ok(0));
    assert_eq!(h.allocate(2), Ok(2));
    assert_eq!(h.write(0, 4), Ok(()));
    assert_eq!(h.write(1, 5), Ok(()));
    assert_eq!(h.realloc(0, 4), Ok(4));
    assert_eq!(h.read(0, 8), Ok(vec![0, 0, 0, 0, 4, 5, 0, 0]));
    assert_eq!(h.sizeof(0), Err(()));
    assert_eq!(h.sizeof(7), Ok(32));
}

#[test]
fn realloc_fails_without_room_or_extent() {
    let mut h = Heap::new(8);
    assert_eq!(h.realloc(0, 4), Err(()));
    assert_eq!(h.allocate(4), Ok(0));
    assert_eq!(h.allocate(4), Ok(4));
    assert_eq!(h.realloc(0, 5), Err(()));
    assert_eq!(h.realloc(0, 0), Err(()));
}

#[test]
fn stack_push_pop_peek_get() {
    let mut s = Stack::new();
    assert_eq!(s.pop(), Err(()));
    assert_eq!(s.peek(), Err(()));
    assert_eq!(s.push(1), Ok(()));
    assert_eq!(s.push(2), Ok(()));
    assert_eq!(s.peek(), Ok(2));
    assert_eq!(s.get(1), Ok(2));
    assert_eq!(s.get(2), Ok(1));
    assert_eq!(s.get(0), Err(()));
    assert_eq!(s.get(3), Err(()));
    assert_eq!(s.pop(), Ok(2));
    assert_eq!(s.depth(), 1);
}

#[test]
fn stack_swap_dup_drop() {
    let mut s = Stack::new();
    assert_eq!(s.swap(), Err(()));
    assert_eq!(s.dup(), Err(()));
    assert_eq!(s.drop(), Err(()));
    s.push(1).unwrap();
    s.push(2).unwrap();
    assert_eq!(s.swap(), Ok(()));
    assert_eq!(s.pop(), Ok(1));
    assert_eq!(s.dup(), Ok(()));
    assert_eq!(s.pop(), Ok(2));
    assert_eq!(s.drop(), Ok(()));
    assert_eq!(s.depth(), 0);
}

#[test]
fn stack_overflow_is_refused() {
    let mut s = Stack::new();
    for i in 0..STACK_CAPACITY {
        assert_eq!(s.push(i as u8), Ok(()));
    }
    assert_eq!(s.push(0), Err(()));
    assert_eq!(s.dup(), Err(()));
    assert_eq!(s.depth(), STACK_CAPACITY);
}

#[test]
fn io_read_takes_from_the_front_and_refuses_short_input() {
    let mut io = IO::new();
    io.in_buffer = vec![1, 2, 3];
    assert_eq!(io.read(2), Ok(vec![1, 2]));
    assert_eq!(io.in_buffer, vec![3]);
    assert_eq!(io.read(2), Err(()));
    assert_eq!(io.in_buffer, vec![3]);
}

#[test]
fn io_read_until_and_read_line() {
    let mut io = IO::new();
    io.in_buffer = b"ab;cd\nrest".to_vec();
    assert_eq!(io.read_until(b';'), b"ab".to_vec());
    assert_eq!(io.read_line(), "cd");
    assert_eq!(io.in_buffer, b"rest".to_vec());
    io.write(&[7, 8]);
    assert_eq!(io.take_output(), vec![7, 8]);
    assert!(io.out_buffer.is_empty());
}

#[test]
fn fresh_engine_stack_holds_stack_capacity_bytes() {
    let mut s = ByteStream::new();
    for _ in 0..=STACK_CAPACITY {
        s.emit(Byte { data: Operations::PUSH.code() as u64, pos: 0, tp: Types::TypeOp });
        s.emit(Byte { data: 1, pos: 0, tp: Types::TypeU8 });
    }
    let mut e = Engine::new();
    match e.run(s, 100_000) {
        RunOutcome::Faulted(f) => {
            assert_eq!(f.kind, FaultKind::StackFault);
            assert_eq!(f.position, 2 * STACK_CAPACITY);
        }
        _ => panic!("expected a fault"),
    }
}
