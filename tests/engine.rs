use cbvm_core::bytes::{Byte, ByteStream};
use cbvm_core::engine::{Engine, FaultKind, RunOutcome, Step};
use cbvm_core::ops::Operations;
use cbvm_core::types::Types;

fn op(o: Operations) -> Byte {
    Byte { data: o.code() as u64, pos: 0, tp: Types::TypeOp }
}

fn arg(tp: Types, data: u64) -> Byte {
    Byte { data, pos: 0, tp }
}

fn stream(items: Vec<Byte>) -> ByteStream {
    let mut s = ByteStream::new();
    for b in items {
        s.emit(b);
    }
    s
}

fn run_to_end(engine: &mut Engine, s: ByteStream) -> RunOutcome {
    engine.run(s, 10_000)
}

fn acc_after(o: Operations, l: u64, r: u64) -> u64 {
    let mut e = Engine::new();
    let out = run_to_end(&mut e, stream(vec![op(o), arg(Types::TypeU8, l), arg(Types::TypeU8, r)]));
    assert!(matches!(out, RunOutcome::Halted));
    e.accumulator
}

#[test]
fn add_sub_mod_of_immediates() {
    assert_eq!(acc_after(Operations::ADD, 3, 4), 7);
    assert_eq!(acc_after(Operations::SUB, 10, 3), 7);
    assert_eq!(acc_after(Operations::MOD, 10, 3), 1);
}

#[test]
fn mul_div_and_bitwise_ops() {
    assert_eq!(acc_after(Operations::MUL, 6, 7), 42);
    assert_eq!(acc_after(Operations::DIV, 10, 3), 3);
    assert_eq!(acc_after(Operations::AND, 12, 10), 8);
    assert_eq!(acc_after(Operations::OR, 12, 10), 14);
    assert_eq!(acc_after(Operations::XOR, 12, 10), 6);
}

#[test]
fn subtraction_wraps() {
    assert_eq!(acc_after(Operations::SUB, 3, 10), u64::MAX - 6);
}

#[test]
fn addition_wraps() {
    let mut e = Engine::new();
    let out = run_to_end(
        &mut e,
        stream(vec![op(Operations::ADD), arg(Types::TypeU64, u64::MAX), arg(Types::TypeU8, 2)]),
    );
    assert!(matches!(out, RunOutcome::Halted));
    assert_eq!(e.accumulator, 1);
}

#[test]
fn comparisons_leave_zero_or_one() {
    assert_eq!(acc_after(Operations::EQ, 5, 5), 1);
    assert_eq!(acc_after(Operations::EQ, 5, 6), 0);
    assert_eq!(acc_after(Operations::NEQ, 5, 6), 1);
    assert_eq!(acc_after(Operations::NEQ, 5, 5), 0);
    assert_eq!(acc_after(Operations::LT, 2, 9), 1);
    assert_eq!(acc_after(Operations::LT, 9, 2), 0);
    assert_eq!(acc_after(Operations::GT, 9, 2), 1);
    assert_eq!(acc_after(Operations::GT, 2, 2), 0);
}

#[test]
fn division_by_zero_faults() {
    let mut e = Engine::new();
    let out = run_to_end(&mut e, stream(vec![op(Operations::DIV), arg(Types::TypeU8, 4), arg(Types::TypeU8, 0)]));
    match out {
        RunOutcome::Faulted(f) => {
            assert_eq!(f.kind, FaultKind::ArithmeticFault);
            assert_eq!(f.position, 0);
        }
        _ => panic!("expected a fault"),
    }
    let out = run_to_end(&mut e, stream(vec![op(Operations::MOD), arg(Types::TypeU8, 4), arg(Types::TypeU8, 0)]));
    assert!(matches!(out, RunOutcome::Faulted(f) if f.kind == FaultKind::ArithmeticFault));
}

#[test]
fn unknown_opcode_faults() {
    let mut e = Engine::new();
    let out = run_to_end(&mut e, stream(vec![arg(Types::TypeOp, 0x50)]));
    match out {
        RunOutcome::Faulted(f) => {
            assert_eq!(f.kind, FaultKind::InvalidOpcode);
            assert_eq!(f.value, 0x50);
        }
        _ => panic!("expected a fault"),
    }
    let out = run_to_end(&mut e, stream(vec![arg(Types::TypeU8, 0)]));
    assert!(matches!(out, RunOutcome::Faulted(f) if f.kind == FaultKind::InvalidOpcode));
}

#[test]
fn empty_stream_halts_at_once() {
    let mut e = Engine::new();
    assert!(matches!(run_to_end(&mut e, ByteStream::new()), RunOutcome::Halted));
    assert!(matches!(e.step(), Step::Halted));
}

#[test]
fn truncated_instruction_faults() {
    let mut e = Engine::new();
    let out = run_to_end(&mut e, stream(vec![op(Operations::ADD), arg(Types::TypeU8, 1)]));
    match out {
        RunOutcome::Faulted(f) => {
            assert_eq!(f.kind, FaultKind::TruncatedInstruction);
            assert_eq!(f.value, 2);
        }
        _ => panic!("expected a fault"),
    }
}

#[test]
fn registers_resolve_through_reg_tag() {
    let mut e = Engine::new();
    let out = run_to_end(
        &mut e,
        stream(vec![
            op(Operations::MOV), arg(Types::TypeReg, 2), arg(Types::TypeU8, 40),
            op(Operations::ADD), arg(Types::TypeReg, 2), arg(Types::TypeU8, 2),
            op(Operations::REACC), arg(Types::TypeReg, 3),
            op(Operations::NOT), arg(Types::TypeReg, 4),
        ]),
    );
    assert!(matches!(out, RunOutcome::Halted));
    assert_eq!(e.accumulator, 42);
    assert_eq!(e.regs.data[2], 40);
    assert_eq!(e.regs.data[3], 42);
    assert_eq!(e.regs.data[4], u64::MAX);
}

#[test]
fn register_index_past_the_file_faults() {
    let mut e = Engine::new();
    let out = run_to_end(&mut e, stream(vec![op(Operations::MOV), arg(Types::TypeReg, 60), arg(Types::TypeU8, 1)]));
    match out {
        RunOutcome::Faulted(f) => {
            assert_eq!(f.kind, FaultKind::InvalidRegister);
            assert_eq!(f.value, 60);
        }
        _ => panic!("expected a fault"),
    }
}

#[test]
fn wracc_sets_the_accumulator() {
    let mut e = Engine::new();
    let out = run_to_end(&mut e, stream(vec![op(Operations::WRACC), arg(Types::TypeU64, 99)]));
    assert!(matches!(out, RunOutcome::Halted));
    assert_eq!(e.accumulator, 99);
}

#[test]
fn inc_and_dec_on_registers_and_heap() {
    let mut e = Engine::new_with_size(16);
    let out = run_to_end(
        &mut e,
        stream(vec![
            op(Operations::INC), arg(Types::TypeReg, 5),
            op(Operations::INC), arg(Types::TypeReg, 5),
            op(Operations::DEC), arg(Types::TypeReg, 6),
            op(Operations::ALLOC), arg(Types::TypeReg, 1), arg(Types::TypeU8, 4),
            op(Operations::INC), arg(Types::TypeAddr, 2),
            op(Operations::DEC), arg(Types::TypeAddr, 3),
        ]),
    );
    assert!(matches!(out, RunOutcome::Halted));
    assert_eq!(e.regs.data[5], 2);
    assert_eq!(e.regs.data[6], u64::MAX);
    assert_eq!(e.heap.read(2, 2), Ok(vec![1, 255]));
}

#[test]
fn inc_on_unallocated_heap_faults() {
    let mut e = Engine::new_with_size(16);
    let out = run_to_end(&mut e, stream(vec![op(Operations::INC), arg(Types::TypeAddr, 2)]));
    assert!(matches!(out, RunOutcome::Faulted(f) if f.kind == FaultKind::MemoryFault && f.value == 2));
}

#[test]
fn stack_instructions() {
    let mut e = Engine::new();
    let out = run_to_end(
        &mut e,
        stream(vec![
            op(Operations::PUSH), arg(Types::TypeU64, 0x107),
            op(Operations::PUSH), arg(Types::TypeU8, 9),
            op(Operations::SWAP),
            op(Operations::DUP),
            op(Operations::WRACC), arg(Types::DerefStack, 3),
            op(Operations::POP), arg(Types::TypeReg, 1),
            op(Operations::POP), arg(Types::TypeReg, 2),
            op(Operations::POP), arg(Types::TypeReg, 3),
        ]),
    );
    assert!(matches!(out, RunOutcome::Halted));
    assert_eq!(e.accumulator, 9);
    assert_eq!(e.regs.data[1], 7);
    assert_eq!(e.regs.data[2], 7);
    assert_eq!(e.regs.data[3], 9);
    assert_eq!(e.stack.depth(), 0);
}

#[test]
fn pop_on_empty_stack_faults() {
    let mut e = Engine::new();
    let out = run_to_end(&mut e, stream(vec![op(Operations::POP), arg(Types::TypeReg, 1)]));
    assert!(matches!(out, RunOutcome::Faulted(f) if f.kind == FaultKind::StackFault));
    let out = run_to_end(&mut e, stream(vec![op(Operations::WRACC), arg(Types::DerefStack, 1)]));
    assert!(matches!(out, RunOutcome::Faulted(f) if f.kind == FaultKind::StackFault));
}

#[test]
fn jz_and_jnz_with_accumulator_zero_and_three() {
    // 0: FUNC :0   2: WRACC acc   4: JZ/JNZ f0   6: WRACC 50   8: end
    for (acc, cond, taken) in [
        (0u64, Operations::JZ, true),
        (3, Operations::JZ, false),
        (0, Operations::JNZ, false),
        (3, Operations::JNZ, true),
    ] {
        let mut e = Engine::new();
        let s = stream(vec![
            op(Operations::FUNC), arg(Types::TypeFunc, 0),
            op(Operations::WRACC), arg(Types::TypeU8, acc),
            op(cond), arg(Types::TypeFunc, 0),
            op(Operations::WRACC), arg(Types::TypeU8, 50),
        ]);
        e.load(s);
        for _ in 0..3 {
            assert!(matches!(e.step(), Step::Continue));
        }
        assert_eq!(e.ip, if taken { 2 } else { 6 });
        assert_eq!(e.accumulator, acc);
    }
}

#[test]
fn jump_table_is_built_before_the_run() {
    let mut e = Engine::new();
    e.load(stream(vec![
        op(Operations::NOP),
        op(Operations::FUNC), arg(Types::TypeFunc, 7),
        op(Operations::NOP),
        op(Operations::FUNC), arg(Types::TypeU8, 1),
        op(Operations::FUNC), arg(Types::TypeFunc, 3),
    ]));
    assert_eq!(e.jumptable, vec![3, 8]);
    assert!(matches!(e.step(), Step::Continue));
    assert!(matches!(e.step(), Step::Continue));
    assert_eq!(e.jumptable, vec![3, 8, 3]);
}

#[test]
fn unknown_function_faults() {
    let mut e = Engine::new();
    let out = run_to_end(&mut e, stream(vec![op(Operations::CALL), arg(Types::TypeFunc, 0)]));
    assert!(matches!(out, RunOutcome::Faulted(f) if f.kind == FaultKind::UnknownFunction && f.value == 0));
}

#[test]
fn call_then_ret_resumes_after_the_call() {
    // 0: CALL f0   2: WRACC 1   4: JMP 100   6: FUNC :0   8: WRACC 5   10: RET
    let mut e = Engine::new();
    e.load(stream(vec![
        op(Operations::CALL), arg(Types::TypeFunc, 0),
        op(Operations::WRACC), arg(Types::TypeU8, 1),
        op(Operations::JMP), arg(Types::TypeU64, 100),
        op(Operations::FUNC), arg(Types::TypeFunc, 0),
        op(Operations::WRACC), arg(Types::TypeU8, 5),
        op(Operations::RET),
    ]));
    assert!(matches!(e.step(), Step::Continue));
    assert_eq!(e.ip, 8);
    assert_eq!(e.callstack, vec![2]);
    assert!(matches!(e.step(), Step::Continue));
    assert_eq!(e.accumulator, 5);
    assert!(matches!(e.step(), Step::Continue));
    assert_eq!(e.ip, 2);
    assert!(e.callstack.is_empty());
    assert!(matches!(e.resume(100), RunOutcome::Halted));
    assert_eq!(e.accumulator, 1);
}

#[test]
fn nested_calls_return_last_in_first_out() {
    // 0: CALL f0  2: JMP 100
    // 4: FUNC :0  6: CALL f1  8: RET
    // 9: FUNC :1  11: CALL f2  13: RET
    // 14: FUNC :2  16: RET
    let mut e = Engine::new();
    e.load(stream(vec![
        op(Operations::CALL), arg(Types::TypeFunc, 0),
        op(Operations::JMP), arg(Types::TypeU64, 100),
        op(Operations::FUNC), arg(Types::TypeFunc, 0),
        op(Operations::CALL), arg(Types::TypeFunc, 1),
        op(Operations::RET),
        op(Operations::FUNC), arg(Types::TypeFunc, 1),
        op(Operations::CALL), arg(Types::TypeFunc, 2),
        op(Operations::RET),
        op(Operations::FUNC), arg(Types::TypeFunc, 2),
        op(Operations::RET),
    ]));
    assert_eq!(e.jumptable, vec![6, 11, 16]);
    let mut trail = Vec::new();
    loop {
        match e.step() {
            Step::Continue => trail.push(e.ip),
            Step::Halted => break,
            _ => panic!("unexpected outcome"),
        }
    }
    assert_eq!(trail, vec![6, 11, 16, 13, 8, 2, 17]);
}

#[test]
fn ret_without_call_faults() {
    let mut e = Engine::new();
    let out = run_to_end(&mut e, stream(vec![op(Operations::RET)]));
    assert!(matches!(out, RunOutcome::Faulted(f) if f.kind == FaultKind::EmptyCallStack));
}

#[test]
fn second_five_byte_alloc_in_eight_byte_heap_faults() {
    let mut e = Engine::new_with_size(8);
    let out = run_to_end(
        &mut e,
        stream(vec![
            op(Operations::ALLOC), arg(Types::TypeReg, 1), arg(Types::TypeU8, 5),
            op(Operations::ALLOC), arg(Types::TypeReg, 2), arg(Types::TypeU8, 5),
        ]),
    );
    match out {
        RunOutcome::Faulted(f) => {
            assert_eq!(f.kind, FaultKind::MemoryFault);
            assert_eq!(f.position, 3);
        }
        _ => panic!("expected a fault"),
    }
    assert_eq!(e.regs.data[1], 0);
}

#[test]
fn free_then_alloc_of_same_size_reuses_the_extent() {
    let mut e = Engine::new_with_size(32);
    let out = run_to_end(
        &mut e,
        stream(vec![
            op(Operations::ALLOC), arg(Types::TypeReg, 1), arg(Types::TypeU8, 4),
            op(Operations::ALLOC), arg(Types::TypeReg, 2), arg(Types::TypeU8, 6),
            op(Operations::ALLOC), arg(Types::TypeReg, 3), arg(Types::TypeU8, 2),
            op(Operations::FREE), arg(Types::TypeReg, 2),
            op(Operations::ALLOC), arg(Types::TypeReg, 4), arg(Types::TypeU8, 6),
        ]),
    );
    assert!(matches!(out, RunOutcome::Halted));
    assert_eq!(e.regs.data[2], 4);
    assert_eq!(e.regs.data[4], 4);
}

#[test]
fn main_scenario_flushes_main_and_frees() {
    let mut e = Engine::new();
    let mut items = vec![
        op(Operations::FUNC), arg(Types::TypeFunc, 0),
        op(Operations::ALLOC), arg(Types::TypeReg, 1), arg(Types::TypeU8, 5),
        op(Operations::STORE), arg(Types::TypeReg, 1), arg(Types::TypeU8, 5),
    ];
    for c in "main\n".bytes() {
        items.push(arg(Types::TypeU8, c as u64));
    }
    items.extend(vec![
        op(Operations::WRITE), arg(Types::TypeReg, 1), arg(Types::TypeU8, 5),
        op(Operations::FLUSH),
        op(Operations::FREE), arg(Types::TypeReg, 1),
    ]);
    let out = e.run(stream(items), 1000);
    match out {
        RunOutcome::Flush(bytes) => assert_eq!(bytes, b"main\n".to_vec()),
        _ => panic!("expected a flush"),
    }
    assert!(e.io.out_buffer.is_empty());
    assert_eq!(e.heap.sizeof(e.regs.data[1] as usize), Ok(40));
    assert!(matches!(e.resume(1000), RunOutcome::Halted));
    assert_eq!(e.heap.sizeof(e.regs.data[1] as usize), Err(()));
    assert_eq!(e.heap.read(0, 5), Ok(vec![0, 0, 0, 0, 0]));
}

#[test]
fn store_outside_an_extent_faults_and_changes_nothing() {
    let mut e = Engine::new_with_size(8);
    let out = run_to_end(
        &mut e,
        stream(vec![
            op(Operations::ALLOC), arg(Types::TypeReg, 1), arg(Types::TypeU8, 2),
            op(Operations::STORE), arg(Types::TypeAddr, 1), arg(Types::TypeU8, 2), arg(Types::TypeU8, 7), arg(Types::TypeU8, 8),
        ]),
    );
    assert!(matches!(out, RunOutcome::Faulted(f) if f.kind == FaultKind::MemoryFault && f.value == 1));
    assert_eq!(e.heap.read(0, 3), Ok(vec![0, 0, 0]));
    assert_eq!(e.ip, 3);
}

#[test]
fn load_reads_a_heap_byte_and_deref_heap_reg_resolves() {
    let mut e = Engine::new_with_size(8);
    let out = run_to_end(
        &mut e,
        stream(vec![
            op(Operations::ALLOC), arg(Types::TypeReg, 1), arg(Types::TypeU8, 3),
            op(Operations::STORE), arg(Types::TypeReg, 1), arg(Types::TypeU8, 3),
            arg(Types::TypeU8, 1), arg(Types::TypeU8, 2), arg(Types::TypeU64, 0x1FF),
            op(Operations::LOAD), arg(Types::TypeReg, 2), arg(Types::TypeAddr, 2),
            op(Operations::MOV), arg(Types::TypeReg, 3), arg(Types::TypeU8, 1),
            op(Operations::WRACC), arg(Types::DerefHeapReg, 3),
        ]),
    );
    assert!(matches!(out, RunOutcome::Halted));
    assert_eq!(e.regs.data[2], 0xFF);
    assert_eq!(e.accumulator, 2);
}

#[test]
fn read_copies_input_into_the_heap() {
    let mut e = Engine::new_with_size(8);
    e.io.in_buffer = vec![4, 5, 6];
    let out = run_to_end(
        &mut e,
        stream(vec![
            op(Operations::ALLOC), arg(Types::TypeReg, 1), arg(Types::TypeU8, 4),
            op(Operations::READ), arg(Types::TypeReg, 1), arg(Types::TypeU8, 2),
        ]),
    );
    assert!(matches!(out, RunOutcome::Halted));
    assert_eq!(e.heap.read(0, 3), Ok(vec![4, 5, 0]));
    assert_eq!(e.io.in_buffer, vec![6]);
}

#[test]
fn read_past_the_input_faults() {
    let mut e = Engine::new_with_size(8);
    e.io.in_buffer = vec![4];
    let out = run_to_end(
        &mut e,
        stream(vec![
            op(Operations::ALLOC), arg(Types::TypeReg, 1), arg(Types::TypeU8, 4),
            op(Operations::READ), arg(Types::TypeReg, 1), arg(Types::TypeU8, 2),
        ]),
    );
    assert!(matches!(out, RunOutcome::Faulted(f) if f.kind == FaultKind::InputExhausted && f.value == 2));
    assert_eq!(e.io.in_buffer, vec![4]);
}

#[test]
fn realloc_instruction_moves_and_updates_the_register() {
    let mut e = Engine::new_with_size(16);
    let out = run_to_end(
        &mut e,
        stream(vec![
            op(Operations::ALLOC), arg(Types::TypeReg, 1), arg(Types::TypeU8, 2),
            op(Operations::ALLOC), arg(Types::TypeReg, 2), arg(Types::TypeU8, 2),
            op(Operations::STORE), arg(Types::TypeReg, 1), arg(Types::TypeU8, 2), arg(Types::TypeU8, 7), arg(Types::TypeU8, 8),
            op(Operations::REALLOC), arg(Types::TypeReg, 1), arg(Types::TypeU8, 5),
        ]),
    );
    assert!(matches!(out, RunOutcome::Halted));
    assert_eq!(e.regs.data[1], 4);
    assert_eq!(e.heap.read(0, 9), Ok(vec![0, 0, 0, 0, 7, 8, 0, 0, 0]));
    assert_eq!(e.heap.sizeof(4), Ok(40));
}

#[test]
fn write_past_the_heap_faults() {
    let mut e = Engine::new_with_size(4);
    let out = run_to_end(&mut e, stream(vec![op(Operations::WRITE), arg(Types::TypeAddr, 2), arg(Types::TypeU8, 3)]));
    assert!(matches!(out, RunOutcome::Faulted(f) if f.kind == FaultKind::MemoryFault && f.value == 2));
}

#[test]
fn jmp_past_the_end_halts() {
    let mut e = Engine::new();
    let out = run_to_end(
        &mut e,
        stream(vec![op(Operations::JMP), arg(Types::TypeU64, 9), op(Operations::WRACC), arg(Types::TypeU8, 1)]),
    );
    assert!(matches!(out, RunOutcome::Halted));
    assert_eq!(e.accumulator, 0);
    assert_eq!(e.ip, 4);
}

#[test]
fn step_budget_leaves_the_engine_running() {
    let mut e = Engine::new();
    let out = e.run(stream(vec![op(Operations::JMP), arg(Types::TypeU8, 0)]), 5);
    assert!(matches!(out, RunOutcome::Running));
    assert_eq!(e.ip, 0);
}

#[test]
fn engine_helpers_allocate_free_and_move() {
    let mut e = Engine::new_with_size(8);
    assert_eq!(e.allocate(3, 7), Ok(0));
    assert_eq!(e.regs.data[7], 0);
    e.move_reg(8, 11);
    assert_eq!(e.regs.data[8], 11);
    assert_eq!(e.realloc(0, 6), Ok(0));
    assert_eq!(e.free(5), Ok(()));
    assert_eq!(e.free(5), Err(()));
}
