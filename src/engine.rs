//! The execution engine: a fetch-decode-execute loop over an instruction
//! stream, with operand resolution through tags, a jump table built before
//! the run, and structured faults in place of aborts.
use vstd::prelude::*;
use crate::bytes::{Byte, ByteStream};
use crate::memory::{
    Heap,
    STACK_CAPACITY,
    Stack,
    extent_at,
    first_fit,
    is_live,
    realloc_model,
    zeroed,
};
use crate::ops::{ArgType, Operations, op_of_code};
use crate::regs::{REGISTER_COUNT, Registers};
use crate::stdio::IO;
use crate::types::Types;

verus! {

/// The code of the `FUNC` opcode, which marks a function's entry.
pub const FUNC_CODE: u64 = 0x64;

/// The kinds of fatal condition that end a run.
#[derive(Debug, Clone, Copy, PartialEq, Eq, Structural)]
pub enum FaultKind {
    /// The operand at the instruction pointer is no `TypeOp` operand with a
    /// known opcode.
    InvalidOpcode,
    /// A heap allocation found no room, or a heap access missed every live
    /// extent or the heap itself.
    MemoryFault,
    /// Division or remainder by zero.
    ArithmeticFault,
    /// A stack access beyond its contents or its capacity.
    StackFault,
    /// A register index past the register file.
    InvalidRegister,
    /// A jump-table index past the jump table.
    UnknownFunction,
    /// `RET` with no call to return from.
    EmptyCallStack,
    /// `READ` asked for more input than is buffered.
    InputExhausted,
    /// The stream ended inside an instruction.
    TruncatedInstruction,
}

/// A fault: its kind, the position of the instruction that raised it, and the
/// value involved (an opcode, address, register or function index, stack
/// offset or depth, byte count, or stream position).
#[derive(Debug, Clone, Copy, PartialEq, Eq, Structural)]
pub struct Fault {
    pub kind: FaultKind,
    pub position: usize,
    pub value: u64,
}

/// What one step of the engine did.
#[derive(Debug)]
pub enum Step {
    /// An instruction ran; the engine is still running.
    Continue,
    /// `FLUSH` ran: these bytes go to the output device.
    Flush(Vec<u8>),
    /// The instruction pointer is at or past the end of the stream.
    Halted,
    /// A fault ended the run; the engine is as it was before the instruction.
    Faulted(Fault),
}

/// How a bounded run ended.
#[derive(Debug)]
pub enum RunOutcome {
    /// The run reached the end of the stream.
    Halted,
    /// A fault ended the run.
    Faulted(Fault),
    /// `FLUSH` ran: these bytes go to the output device; resume to go on.
    Flush(Vec<u8>),
    /// The step budget ran out; resume to go on.
    Running,
}

/// The engine's state in mathematical form.
#[verifier::ext_equal]
pub struct Machine {
    pub acc: u64,
    pub regs: Seq<u64>,
    pub heap_bytes: Seq<u8>,
    pub extents: Set<(usize, usize)>,
    pub stack: Seq<u8>,
    pub stack_capacity: nat,
    pub input: Seq<u8>,
    pub output: Seq<u8>,
    pub ip: int,
    pub code: Seq<Byte>,
    pub jumps: Seq<usize>,
    pub calls: Seq<usize>,
}

/// What a step did, in mathematical form.
pub enum StepView {
    Continue,
    Flush(Seq<u8>),
    Halted,
    Faulted(Fault),
}

/// How a bounded run ended, in mathematical form.
pub enum OutcomeView {
    Halted,
    Faulted(Fault),
    Flush(Seq<u8>),
    Running,
}

impl View for Step {
    type V = StepView;

    open spec fn view(&self) -> StepView {
        match self {
            Step::Continue => StepView::Continue,
            Step::Flush(v) => StepView::Flush(v@),
            Step::Halted => StepView::Halted,
            Step::Faulted(f) => StepView::Faulted(*f),
        }
    }
}

impl View for RunOutcome {
    type V = OutcomeView;

    open spec fn view(&self) -> OutcomeView {
        match self {
            RunOutcome::Halted => OutcomeView::Halted,
            RunOutcome::Faulted(f) => OutcomeView::Faulted(*f),
            RunOutcome::Flush(v) => OutcomeView::Flush(v@),
            RunOutcome::Running => OutcomeView::Running,
        }
    }
}

/// Whether position `i` starts a function marker: a `FUNC` opcode followed
/// by a `TypeFunc` label.
pub open spec fn is_func_marker(code: Seq<Byte>, i: int) -> bool {
    &&& 0 <= i
    &&& i + 1 < code.len()
    &&& code[i].tp == Types::TypeOp
    &&& code[i].data == FUNC_CODE
    &&& code[i + 1].tp == Types::TypeFunc
}

/// The jump table that the first `n` operands give: for each function
/// marker, in order, the position right after its label.
pub open spec fn func_marks(code: Seq<Byte>, n: int) -> Seq<usize>
    decreases n,
{
    if n <= 0 {
        Seq::empty()
    } else if is_func_marker(code, n - 1) {
        func_marks(code, n - 1).push((n + 1) as usize)
    } else {
        func_marks(code, n - 1)
    }
}

/// A fault raised by the instruction at the machine's instruction pointer.
pub open spec fn fault(m: Machine, kind: FaultKind, value: u64) -> Fault {
    Fault { kind, position: m.ip as usize, value }
}

/// What a `Typed` operand resolves to.
pub open spec fn resolve(m: Machine, b: Byte) -> Result<u64, Fault> {
    match b.tp {
        Types::TypeReg => if b.data < REGISTER_COUNT {
            Ok(m.regs[b.data as int])
        } else {
            Err(fault(m, FaultKind::InvalidRegister, b.data))
        },
        Types::TypeFunc => if b.data < m.jumps.len() {
            Ok(m.jumps[b.data as int] as u64)
        } else {
            Err(fault(m, FaultKind::UnknownFunction, b.data))
        },
        Types::DerefStack => if 1 <= b.data <= m.stack.len() {
            Ok(m.stack[m.stack.len() - b.data] as u64)
        } else {
            Err(fault(m, FaultKind::StackFault, b.data))
        },
        Types::DerefHeapReg => if b.data < REGISTER_COUNT {
            let a = m.regs[b.data as int];
            if a < m.heap_bytes.len() {
                Ok(m.heap_bytes[a as int] as u64)
            } else {
                Err(fault(m, FaultKind::MemoryFault, a))
            }
        } else {
            Err(fault(m, FaultKind::InvalidRegister, b.data))
        },
        _ => Ok(b.data),
    }
}

/// The operand at position `k`, fetched in `mode`.
pub open spec fn fetch(m: Machine, k: int, mode: ArgType) -> Result<u64, Fault> {
    if k < 0 || k >= m.code.len() {
        Err(fault(m, FaultKind::TruncatedInstruction, k as u64))
    } else {
        let b = m.code[k];
        match mode {
            ArgType::Typed => resolve(m, b),
            ArgType::Untyped => Ok(b.data),
            ArgType::Dest => if b.data < REGISTER_COUNT {
                Ok(b.data)
            } else {
                Err(fault(m, FaultKind::InvalidRegister, b.data))
            },
            ArgType::Func => if b.data < m.jumps.len() {
                Ok(m.jumps[b.data as int] as u64)
            } else {
                Err(fault(m, FaultKind::UnknownFunction, b.data))
            },
        }
    }
}

/// The opcode of the instruction at the instruction pointer, if it is one.
pub open spec fn opcode_at(m: Machine) -> Option<Operations> {
    let b = m.code[m.ip];
    if b.tp == Types::TypeOp && b.data < 256 {
        op_of_code(b.data as u8)
    } else {
        None
    }
}

/// The accumulator value of a two-operand arithmetic, bitwise or comparison
/// opcode; `None` for division or remainder by zero.
pub open spec fn alu(op: Operations, l: u64, r: u64) -> Option<u64> {
    match op {
        Operations::ADD => Some(l.wrapping_add(r)),
        Operations::SUB => Some(l.wrapping_sub(r)),
        Operations::MUL => Some(l.wrapping_mul(r)),
        Operations::DIV => if r == 0 {
            None
        } else {
            Some(l / r)
        },
        Operations::MOD => if r == 0 {
            None
        } else {
            Some(l % r)
        },
        Operations::AND => Some(l & r),
        Operations::OR => Some(l | r),
        Operations::XOR => Some(l ^ r),
        Operations::EQ => Some(if l == r { 1 } else { 0 }),
        Operations::NEQ => Some(if l != r { 1 } else { 0 }),
        Operations::LT => Some(if l < r { 1 } else { 0 }),
        Operations::GT => Some(if l > r { 1 } else { 0 }),
        _ => None,
    }
}

/// The opcodes that set the accumulator from two `Typed` operands.
pub open spec fn is_alu_op(op: Operations) -> bool {
    match op {
        Operations::ADD | Operations::SUB | Operations::MUL | Operations::DIV | Operations::MOD
        | Operations::AND | Operations::OR | Operations::XOR | Operations::EQ | Operations::NEQ
        | Operations::LT | Operations::GT => true,
        _ => false,
    }
}

/// The machine with its instruction pointer moved to `ip`.
pub open spec fn goto(m: Machine, ip: int) -> Machine {
    Machine { ip, ..m }
}

/// The machine with register `r` set to `v` and the instruction pointer at `ip`.
pub open spec fn set_reg(m: Machine, r: u64, v: u64, ip: int) -> Machine {
    Machine { regs: m.regs.update(r as int, v), ip, ..m }
}

/// A step that ends in `f`, changing nothing.
pub open spec fn failed(m: Machine, f: Fault) -> (Machine, StepView) {
    (m, StepView::Faulted(f))
}

/// A step that continues in `m`.
pub open spec fn ran(m: Machine) -> (Machine, StepView) {
    (m, StepView::Continue)
}

/// `s` with the bytes from `a` on replaced by `vals`.
pub open spec fn written(s: Seq<u8>, a: int, vals: Seq<u8>) -> Seq<u8> {
    Seq::new(s.len(), |i: int| if a <= i < a + vals.len() { vals[i - a] } else { s[i] })
}

/// Whether every address `a <= i < a + n` is in a live extent.
pub open spec fn all_live(ext: Set<(usize, usize)>, a: int, n: int) -> bool {
    forall|i: int| a <= i < a + n ==> #[trigger] is_live(ext, i)
}

/// The low bytes of the `n` `Typed` operands from position `start` on, or the
/// fault of the first that does not resolve.
pub open spec fn store_values(m: Machine, start: int, n: nat) -> Result<Seq<u8>, Fault>
    decreases n,
{
    if n == 0 {
        Ok(Seq::empty())
    } else {
        match store_values(m, start, (n - 1) as nat) {
            Err(f) => Err(f),
            Ok(s) => match fetch(m, start + n - 1, ArgType::Typed) {
                Err(f) => Err(f),
                Ok(v) => Ok(s.push((v % 256) as u8)),
            },
        }
    }
}

/// What the instruction `op` at the instruction pointer does. Every
/// instruction resolves all of its operands before it changes anything, and
/// a fault leaves the machine as it was.
pub open spec fn op_spec(m: Machine, op: Operations) -> (Machine, StepView) {
    let at = m.ip;
    let n = m.code.len() as int;
    if is_alu_op(op) {
        match fetch(m, at + 1, ArgType::Typed) {
            Err(f) => failed(m, f),
            Ok(l) => match fetch(m, at + 2, ArgType::Typed) {
                Err(f) => failed(m, f),
                Ok(r) => match alu(op, l, r) {
                    None => failed(m, fault(m, FaultKind::ArithmeticFault, l)),
                    Some(v) => ran(Machine { acc: v, ip: at + 3, ..m }),
                },
            },
        }
    } else {
        match op {
            Operations::NOT => match fetch(m, at + 1, ArgType::Dest) {
                Err(f) => failed(m, f),
                Ok(d) => ran(set_reg(m, d, !m.regs[d as int], at + 2)),
            },
            Operations::PUSH => match fetch(m, at + 1, ArgType::Typed) {
                Err(f) => failed(m, f),
                Ok(v) => if m.stack.len() < m.stack_capacity {
                    ran(Machine { stack: m.stack.push((v % 256) as u8), ip: at + 2, ..m })
                } else {
                    failed(m, fault(m, FaultKind::StackFault, m.stack.len() as u64))
                },
            },
            Operations::POP => match fetch(m, at + 1, ArgType::Dest) {
                Err(f) => failed(m, f),
                Ok(d) => if m.stack.len() > 0 {
                    ran(
                        Machine {
                            regs: m.regs.update(d as int, m.stack.last() as u64),
                            stack: m.stack.drop_last(),
                            ip: at + 2,
                            ..m
                        },
                    )
                } else {
                    failed(m, fault(m, FaultKind::StackFault, 0))
                },
            },
            Operations::DUP => if 0 < m.stack.len() < m.stack_capacity {
                ran(Machine { stack: m.stack.push(m.stack.last()), ip: at + 1, ..m })
            } else {
                failed(m, fault(m, FaultKind::StackFault, m.stack.len() as u64))
            },
            Operations::SWAP => if m.stack.len() >= 2 {
                let c = m.stack;
                let k = c.len() as int;
                ran(Machine { stack: c.update(k - 1, c[k - 2]).update(k - 2, c[k - 1]), ip: at + 1, ..m })
            } else {
                failed(m, fault(m, FaultKind::StackFault, m.stack.len() as u64))
            },
            Operations::JMP => match fetch(m, at + 1, ArgType::Typed) {
                Err(f) => failed(m, f),
                Ok(t) => ran(goto(m, if t < n { t as int } else { n })),
            },
            Operations::JZ => match fetch(m, at + 1, ArgType::Func) {
                Err(f) => failed(m, f),
                Ok(p) => ran(goto(m, if m.acc == 0 { p as int } else { at + 2 })),
            },
            Operations::JNZ => match fetch(m, at + 1, ArgType::Func) {
                Err(f) => failed(m, f),
                Ok(p) => ran(goto(m, if m.acc != 0 { p as int } else { at + 2 })),
            },
            Operations::CALL => match fetch(m, at + 1, ArgType::Func) {
                Err(f) => failed(m, f),
                Ok(p) => ran(Machine { calls: m.calls.push((at + 2) as usize), ip: p as int, ..m }),
            },
            Operations::RET => if m.calls.len() == 0 {
                failed(m, fault(m, FaultKind::EmptyCallStack, 0))
            } else {
                ran(Machine { ip: m.calls.last() as int, calls: m.calls.drop_last(), ..m })
            },
            Operations::FUNC => if at + 1 >= n {
                failed(m, fault(m, FaultKind::TruncatedInstruction, (at + 1) as u64))
            } else {
                ran(Machine { jumps: m.jumps.push((at + 2) as usize), ip: at + 2, ..m })
            },
            Operations::LOAD => match fetch(m, at + 1, ArgType::Dest) {
                Err(f) => failed(m, f),
                Ok(d) => match fetch(m, at + 2, ArgType::Typed) {
                    Err(f) => failed(m, f),
                    Ok(a) => if a < m.heap_bytes.len() {
                        ran(set_reg(m, d, m.heap_bytes[a as int] as u64, at + 3))
                    } else {
                        failed(m, fault(m, FaultKind::MemoryFault, a))
                    },
                },
            },
            Operations::STORE => match fetch(m, at + 1, ArgType::Typed) {
                Err(f) => failed(m, f),
                Ok(a) => match fetch(m, at + 2, ArgType::Typed) {
                    Err(f) => failed(m, f),
                    Ok(len) => match store_values(m, at + 3, len as nat) {
                        Err(f) => failed(m, f),
                        Ok(vals) => if all_live(m.extents, a as int, len as int) {
                            ran(Machine { heap_bytes: written(m.heap_bytes, a as int, vals), ip: at + 3 + len, ..m })
                        } else {
                            failed(m, fault(m, FaultKind::MemoryFault, a))
                        },
                    },
                },
            },
            Operations::WRITE => match fetch(m, at + 1, ArgType::Typed) {
                Err(f) => failed(m, f),
                Ok(a) => match fetch(m, at + 2, ArgType::Typed) {
                    Err(f) => failed(m, f),
                    Ok(len) => if a + len <= m.heap_bytes.len() {
                        ran(
                            Machine {
                                output: m.output + m.heap_bytes.subrange(a as int, a + len),
                                ip: at + 3,
                                ..m
                            },
                        )
                    } else {
                        failed(m, fault(m, FaultKind::MemoryFault, a))
                    },
                },
            },
            Operations::READ => match fetch(m, at + 1, ArgType::Typed) {
                Err(f) => failed(m, f),
                Ok(a) => match fetch(m, at + 2, ArgType::Typed) {
                    Err(f) => failed(m, f),
                    Ok(len) => if len > m.input.len() {
                        failed(m, fault(m, FaultKind::InputExhausted, len))
                    } else if all_live(m.extents, a as int, len as int) {
                        ran(
                            Machine {
                                heap_bytes: written(m.heap_bytes, a as int, m.input.subrange(0, len as int)),
                                input: m.input.subrange(len as int, m.input.len() as int),
                                ip: at + 3,
                                ..m
                            },
                        )
                    } else {
                        failed(m, fault(m, FaultKind::MemoryFault, a))
                    },
                },
            },
            Operations::FLUSH => (Machine { output: Seq::empty(), ip: at + 1, ..m }, StepView::Flush(m.output)),
            Operations::MOV => match fetch(m, at + 1, ArgType::Dest) {
                Err(f) => failed(m, f),
                Ok(d) => match fetch(m, at + 2, ArgType::Typed) {
                    Err(f) => failed(m, f),
                    Ok(v) => ran(set_reg(m, d, v, at + 3)),
                },
            },
            Operations::WRACC => match fetch(m, at + 1, ArgType::Typed) {
                Err(f) => failed(m, f),
                Ok(v) => ran(Machine { acc: v, ip: at + 2, ..m }),
            },
            Operations::REACC => match fetch(m, at + 1, ArgType::Dest) {
                Err(f) => failed(m, f),
                Ok(d) => ran(set_reg(m, d, m.acc, at + 2)),
            },
            Operations::INC | Operations::DEC => if at + 1 >= n {
                failed(m, fault(m, FaultKind::TruncatedInstruction, (at + 1) as u64))
            } else {
                let b = m.code[at + 1];
                if b.tp == Types::TypeReg {
                    if b.data < REGISTER_COUNT {
                        let x = m.regs[b.data as int];
                        ran(set_reg(m, b.data, if op == Operations::INC { x.wrapping_add(1) } else { x.wrapping_sub(1) }, at + 2))
                    } else {
                        failed(m, fault(m, FaultKind::InvalidRegister, b.data))
                    }
                } else {
                    match resolve(m, b) {
                        Err(f) => failed(m, f),
                        Ok(a) => if is_live(m.extents, a as int) {
                            let x = m.heap_bytes[a as int];
                            ran(
                                Machine {
                                    heap_bytes: m.heap_bytes.update(a as int, if op == Operations::INC { x.wrapping_add(1) } else { x.wrapping_sub(1) }),
                                    ip: at + 2,
                                    ..m
                                },
                            )
                        } else {
                            failed(m, fault(m, FaultKind::MemoryFault, a))
                        },
                    }
                }
            },
            Operations::ALLOC => match fetch(m, at + 1, ArgType::Dest) {
                Err(f) => failed(m, f),
                Ok(d) => match fetch(m, at + 2, ArgType::Typed) {
                    Err(f) => failed(m, f),
                    Ok(size) => match first_fit(m.extents, m.heap_bytes.len(), size as int) {
                        None => failed(m, fault(m, FaultKind::MemoryFault, size)),
                        Some(a) => ran(
                            Machine {
                                regs: m.regs.update(d as int, a as u64),
                                extents: m.extents.insert((a as usize, (a + size) as usize)),
                                heap_bytes: zeroed(m.heap_bytes, a, a + size),
                                ip: at + 3,
                                ..m
                            },
                        ),
                    },
                },
            },
            Operations::FREE => match fetch(m, at + 1, ArgType::Typed) {
                Err(f) => failed(m, f),
                Ok(a) => if is_live(m.extents, a as int) {
                    let e = extent_at(m.extents, a as int);
                    ran(
                        Machine {
                            extents: m.extents.remove(e),
                            heap_bytes: zeroed(m.heap_bytes, e.0 as int, e.1 as int),
                            ip: at + 2,
                            ..m
                        },
                    )
                } else {
                    failed(m, fault(m, FaultKind::MemoryFault, a))
                },
            },
            Operations::REALLOC => match fetch(m, at + 1, ArgType::Dest) {
                Err(f) => failed(m, f),
                Ok(d) => match fetch(m, at + 2, ArgType::Typed) {
                    Err(f) => failed(m, f),
                    Ok(size) => {
                        let a = m.regs[d as int];
                        match realloc_model(m.extents, m.heap_bytes, a as int, size as int) {
                            None => failed(m, fault(m, FaultKind::MemoryFault, a)),
                            Some((ext, bytes, b)) => ran(
                                Machine { extents: ext, heap_bytes: bytes, regs: m.regs.update(d as int, b as u64), ip: at + 3, ..m },
                            ),
                        }
                    },
                },
            },
            _ => ran(goto(m, at + 1)),
        }
    }
}

/// One step of the machine: halt at or past the end of the stream, fault on
/// a head that is no opcode, else run the instruction there.
pub open spec fn step_spec(m: Machine) -> (Machine, StepView) {
    if m.ip < 0 || m.ip >= m.code.len() {
        (m, StepView::Halted)
    } else {
        match opcode_at(m) {
            None => failed(m, fault(m, FaultKind::InvalidOpcode, m.code[m.ip].data)),
            Some(op) => op_spec(m, op),
        }
    }
}

/// Up to `fuel` steps: stop at a halt, a fault or a flush.
pub open spec fn run_spec(m: Machine, fuel: nat) -> (Machine, OutcomeView)
    decreases fuel,
{
    if fuel == 0 {
        (m, OutcomeView::Running)
    } else {
        let (m1, s) = step_spec(m);
        match s {
            StepView::Continue => run_spec(m1, (fuel - 1) as nat),
            StepView::Flush(v) => (m1, OutcomeView::Flush(v)),
            StepView::Halted => (m1, OutcomeView::Halted),
            StepView::Faulted(f) => (m1, OutcomeView::Faulted(f)),
        }
    }
}

/// A stream position survives a trip through `u64`.
proof fn lemma_usize_u64(x: usize)
    ensures
        (x as u64) as int == x as int,
{
    assert(x as int <= u64::MAX) by {
        assert(usize::BITS == 32 || usize::BITS == 64);
    }
}

/// An error in the `i`-th value of a `STORE` is the error of them all.
proof fn lemma_store_values_err(m: Machine, start: int, i: nat, n: nat, f: Fault)
    requires
        i <= n,
        store_values(m, start, i) == Err::<Seq<u8>, Fault>(f),
    ensures
        store_values(m, start, n) == Err::<Seq<u8>, Fault>(f),
    decreases n,
{
    if n > i {
        lemma_store_values_err(m, start, i, (n - 1) as nat, f);
    }
}

/// The virtual machine: it owns its stream, registers, heap, stack, call
/// stack, accumulator and I/O queues for the length of a run.
pub struct Engine {
    pub accumulator: u64,
    pub regs: Registers,
    /// Return positions, innermost call last.
    pub callstack: Vec<usize>,
    pub heap: Heap,
    pub stack: Stack,
    pub io: IO,
    pub debug: bool,
    pub ip: usize,
    pub data: ByteStream,
    /// Function index to stream position.
    pub jumptable: Vec<usize>,
}

impl View for Engine {
    type V = Machine;

    open spec fn view(&self) -> Machine {
        Machine {
            acc: self.accumulator,
            regs: self.regs.data@,
            heap_bytes: self.heap.bytes(),
            extents: self.heap.extents(),
            stack: self.stack.contents(),
            stack_capacity: self.stack.capacity(),
            input: self.io.in_buffer@,
            output: self.io.out_buffer@,
            ip: self.ip as int,
            code: self.data@,
            jumps: self.jumptable@,
            calls: self.callstack@,
        }
    }
}

impl Engine {
    /// The heap and the stack are well formed.
    pub open spec fn wf(&self) -> bool {
        self.heap.wf() && self.stack.wf()
    }

    /// An engine with a heap of 8192 bytes and nothing loaded.
    pub fn new() -> (r: Self)
        ensures
            r.wf(),
            r@.acc == 0,
            r@.regs == Seq::new(REGISTER_COUNT as nat, |i: int| 0u64),
            r@.heap_bytes == Seq::new(8192, |i: int| 0u8),
            r@.extents == Set::<(usize, usize)>::empty(),
            r@.stack == Seq::<u8>::empty(),
            r@.stack_capacity == STACK_CAPACITY,
            r@.input == Seq::<u8>::empty(),
            r@.output == Seq::<u8>::empty(),
            r@.ip == 0,
            r@.code == Seq::<Byte>::empty(),
            r@.jumps == Seq::<usize>::empty(),
            r@.calls == Seq::<usize>::empty(),
    {
        Self::new_with_size(8192)
    }

    /// An engine with a heap of `heap_size` bytes and nothing loaded.
    pub fn new_with_size(heap_size: usize) -> (r: Self)
        ensures
            r.wf(),
            r@.acc == 0,
            r@.regs == Seq::new(REGISTER_COUNT as nat, |i: int| 0u64),
            r@.heap_bytes == Seq::new(heap_size as nat, |i: int| 0u8),
            r@.extents == Set::<(usize, usize)>::empty(),
            r@.stack == Seq::<u8>::empty(),
            r@.stack_capacity == STACK_CAPACITY,
            r@.input == Seq::<u8>::empty(),
            r@.output == Seq::<u8>::empty(),
            r@.ip == 0,
            r@.code == Seq::<Byte>::empty(),
            r@.jumps == Seq::<usize>::empty(),
            r@.calls == Seq::<usize>::empty(),
    {
        Engine {
            accumulator: 0,
            regs: Registers::new(),
            callstack: Vec::new(),
            heap: Heap::new(heap_size),
            stack: Stack::new(),
            io: IO::new(),
            debug: false,
            ip: 0,
            data: ByteStream::new(),
            jumptable: Vec::new(),
        }
    }

    fn fault(&self, kind: FaultKind, value: u64) -> (r: Fault)
        ensures
            r == fault(self@, kind, value),
    {
        Fault { kind, position: self.ip, value }
    }

    /// What a `Typed` operand resolves to.
    fn resolve(&self, b: Byte) -> (r: Result<u64, Fault>)
        requires
            self.wf(),
        ensures
            r == resolve(self@, b),
    {
        match b.tp {
            Types::TypeReg => if b.data < REGISTER_COUNT as u64 {
                Ok(self.regs.index(b.data as usize))
            } else {
                Err(self.fault(FaultKind::InvalidRegister, b.data))
            },
            Types::TypeFunc => if b.data < self.jumptable.len() as u64 {
                Ok(self.jumptable[b.data as usize] as u64)
            } else {
                Err(self.fault(FaultKind::UnknownFunction, b.data))
            },
            Types::DerefStack => {
                let depth = self.stack.depth();
                if 1 <= b.data && b.data <= depth as u64 {
                    match self.stack.get(b.data as usize) {
                        Ok(v) => Ok(v as u64),
                        Err(()) => Err(self.fault(FaultKind::StackFault, b.data)),
                    }
                } else {
                    Err(self.fault(FaultKind::StackFault, b.data))
                }
            },
            Types::DerefHeapReg => if b.data < REGISTER_COUNT as u64 {
                let a = self.regs.index(b.data as usize);
                if a < self.heap.size() as u64 {
                    Ok(self.heap.byte_at(a as usize) as u64)
                } else {
                    Err(self.fault(FaultKind::MemoryFault, a))
                }
            } else {
                Err(self.fault(FaultKind::InvalidRegister, b.data))
            },
            _ => Ok(b.data),
        }
    }

    /// The operand at position `k`, fetched in `mode`.
    fn fetch(&self, k: usize, mode: ArgType) -> (r: Result<u64, Fault>)
        requires
            self.wf(),
        ensures
            r == fetch(self@, k as int, mode),
            r is Ok ==> k < self@.code.len(),
    {
        if k >= self.data.len() {
            return Err(self.fault(FaultKind::TruncatedInstruction, k as u64));
        }
        let b = self.data.bytes[k];
        match mode {
            ArgType::Typed => self.resolve(b),
            ArgType::Untyped => Ok(b.data),
            ArgType::Dest => if b.data < REGISTER_COUNT as u64 {
                Ok(b.data)
            } else {
                Err(self.fault(FaultKind::InvalidRegister, b.data))
            },
            ArgType::Func => if b.data < self.jumptable.len() as u64 {
                Ok(self.jumptable[b.data as usize] as u64)
            } else {
                Err(self.fault(FaultKind::UnknownFunction, b.data))
            },
        }
    }

    /// Two-operand arithmetic, bitwise and comparison opcodes.
    fn exec_alu(&mut self, op: Operations) -> (r: Step)
        requires
            old(self).wf(),
            old(self).ip < old(self)@.code.len(),
            is_alu_op(op),
        ensures
            final(self).wf(),
            final(self)@ == op_spec(old(self)@, op).0,
            r@ == op_spec(old(self)@, op).1,
    {
        // The stream's length bounds every position fetched below.
        let _len = self.data.len();
        let at = self.ip;
        let l = match self.fetch(at + 1, ArgType::Typed) {
            Ok(v) => v,
            Err(f) => {
                return Step::Faulted(f);
            },
        };
        let r = match self.fetch(at + 2, ArgType::Typed) {
            Ok(v) => v,
            Err(f) => {
                return Step::Faulted(f);
            },
        };
        let v = match op {
            Operations::ADD => l.wrapping_add(r),
            Operations::SUB => l.wrapping_sub(r),
            Operations::MUL => l.wrapping_mul(r),
            Operations::DIV => {
                if r == 0 {
                    return Step::Faulted(self.fault(FaultKind::ArithmeticFault, l));
                }
                l / r
            },
            Operations::MOD => {
                if r == 0 {
                    return Step::Faulted(self.fault(FaultKind::ArithmeticFault, l));
                }
                l % r
            },
            Operations::AND => l & r,
            Operations::OR => l | r,
            Operations::XOR => l ^ r,
            Operations::EQ => if l == r { 1 } else { 0 },
            Operations::NEQ => if l != r { 1 } else { 0 },
            Operations::LT => if l < r { 1 } else { 0 },
            _ => if l > r { 1 } else { 0 },
        };
        self.accumulator = v;
        self.ip = at + 3;
        Step::Continue
    }

    /// `PUSH`, `POP`, `DUP` and `SWAP`.
    fn exec_stack(&mut self, op: Operations) -> (r: Step)
        requires
            old(self).wf(),
            old(self).ip < old(self)@.code.len(),
            op == Operations::PUSH || op == Operations::POP || op == Operations::DUP || op
                == Operations::SWAP,
        ensures
            final(self).wf(),
            final(self)@ == op_spec(old(self)@, op).0,
            r@ == op_spec(old(self)@, op).1,
    {
        // The stream's length bounds every position fetched below.
        let _len = self.data.len();
        let at = self.ip;
        match op {
            Operations::PUSH => {
                let v = match self.fetch(at + 1, ArgType::Typed) {
                    Ok(v) => v,
                    Err(f) => {
                        return Step::Faulted(f);
                    },
                };
                let depth = self.stack.depth();
                match self.stack.push((v % 256) as u8) {
                    Ok(()) => {},
                    Err(()) => {
                        return Step::Faulted(self.fault(FaultKind::StackFault, depth as u64));
                    },
                }
                self.ip = at + 2;
                Step::Continue
            },
            Operations::POP => {
                let d = match self.fetch(at + 1, ArgType::Dest) {
                    Ok(v) => v,
                    Err(f) => {
                        return Step::Faulted(f);
                    },
                };
                let v = match self.stack.pop() {
                    Ok(v) => v,
                    Err(()) => {
                        return Step::Faulted(self.fault(FaultKind::StackFault, 0));
                    },
                };
                self.regs.set(d as usize, v as u64);
                self.ip = at + 2;
                Step::Continue
            },
            Operations::DUP => {
                let depth = self.stack.depth();
                match self.stack.dup() {
                    Ok(()) => {},
                    Err(()) => {
                        return Step::Faulted(self.fault(FaultKind::StackFault, depth as u64));
                    },
                }
                self.ip = at + 1;
                Step::Continue
            },
            _ => {
                let depth = self.stack.depth();
                match self.stack.swap() {
                    Ok(()) => {},
                    Err(()) => {
                        return Step::Faulted(self.fault(FaultKind::StackFault, depth as u64));
                    },
                }
                self.ip = at + 1;
                Step::Continue
            },
        }
    }

    /// The stream position that a jump to `t` lands on: `t`, or the end of
    /// the stream where `t` lies past it.
    fn jump_target(&self, t: u64) -> (r: usize)
        ensures
            r == (if t < self@.code.len() { t as int } else { self@.code.len() as int }),
    {
        let n = self.data.len();
        if t < n as u64 {
            t as usize
        } else {
            n
        }
    }

    /// `NOP`, `JMP`, `JZ`, `JNZ`, `CALL`, `RET` and `FUNC`.
    fn exec_flow(&mut self, op: Operations) -> (r: Step)
        requires
            old(self).wf(),
            old(self).ip < old(self)@.code.len(),
            op == Operations::NOP || op == Operations::JMP || op == Operations::JZ || op
                == Operations::JNZ || op == Operations::CALL || op == Operations::RET || op
                == Operations::FUNC,
        ensures
            final(self).wf(),
            final(self)@ == op_spec(old(self)@, op).0,
            r@ == op_spec(old(self)@, op).1,
    {
        let n = self.data.len();
        // The jump table's length bounds the indices resolved below.
        let _jumps = self.jumptable.len();
        let at = self.ip;
        match op {
            Operations::NOP => {
                self.ip = at + 1;
                Step::Continue
            },
            Operations::JMP => {
                let t = match self.fetch(at + 1, ArgType::Typed) {
                    Ok(v) => v,
                    Err(f) => {
                        return Step::Faulted(f);
                    },
                };
                self.ip = self.jump_target(t);
                Step::Continue
            },
            Operations::JZ | Operations::JNZ => {
                let p = match self.fetch(at + 1, ArgType::Func) {
                    Ok(v) => v,
                    Err(f) => {
                        return Step::Faulted(f);
                    },
                };
                let taken = if op == Operations::JZ {
                    self.accumulator == 0
                } else {
                    self.accumulator != 0
                };
                if taken {
                    let b = self.data.bytes[at + 1];
                    proof {
                        lemma_usize_u64(self.jumptable@[b.data as int]);
                    }
                    self.ip = self.jumptable[b.data as usize];
                } else {
                    self.ip = at + 2;
                }
                Step::Continue
            },
            Operations::CALL => {
                let p = match self.fetch(at + 1, ArgType::Func) {
                    Ok(v) => v,
                    Err(f) => {
                        return Step::Faulted(f);
                    },
                };
                let b = self.data.bytes[at + 1];
                proof {
                    lemma_usize_u64(self.jumptable@[b.data as int]);
                }
                self.callstack.push(at + 2);
                self.ip = self.jumptable[b.data as usize];
                Step::Continue
            },
            Operations::RET => {
                match self.callstack.pop() {
                    Some(ret) => {
                        self.ip = ret;
                        Step::Continue
                    },
                    None => Step::Faulted(self.fault(FaultKind::EmptyCallStack, 0)),
                }
            },
            _ => {
                if at + 1 >= n {
                    return Step::Faulted(self.fault(FaultKind::TruncatedInstruction, (at + 1) as u64));
                }
                self.jumptable.push(at + 2);
                self.ip = at + 2;
                Step::Continue
            },
        }
    }

    /// `NOT`, `MOV`, `WRACC`, `REACC` and `FLUSH`.
    fn exec_reg(&mut self, op: Operations) -> (r: Step)
        requires
            old(self).wf(),
            old(self).ip < old(self)@.code.len(),
            op == Operations::NOT || op == Operations::MOV || op == Operations::WRACC || op
                == Operations::REACC || op == Operations::FLUSH,
        ensures
            final(self).wf(),
            final(self)@ == op_spec(old(self)@, op).0,
            r@ == op_spec(old(self)@, op).1,
    {
        // The stream's length bounds every position fetched below.
        let _len = self.data.len();
        let at = self.ip;
        match op {
            Operations::FLUSH => {
                let out = self.io.take_output();
                self.ip = at + 1;
                Step::Flush(out)
            },
            Operations::WRACC => {
                let v = match self.fetch(at + 1, ArgType::Typed) {
                    Ok(v) => v,
                    Err(f) => {
                        return Step::Faulted(f);
                    },
                };
                self.accumulator = v;
                self.ip = at + 2;
                Step::Continue
            },
            _ => {
                let d = match self.fetch(at + 1, ArgType::Dest) {
                    Ok(v) => v,
                    Err(f) => {
                        return Step::Faulted(f);
                    },
                };
                if op == Operations::NOT {
                    let x = self.regs.index(d as usize);
                    self.regs.set(d as usize, !x);
                    self.ip = at + 2;
                } else if op == Operations::REACC {
                    let x = self.accumulator;
                    self.regs.set(d as usize, x);
                    self.ip = at + 2;
                } else {
                    let v = match self.fetch(at + 2, ArgType::Typed) {
                        Ok(v) => v,
                        Err(f) => {
                            return Step::Faulted(f);
                        },
                    };
                    self.regs.set(d as usize, v);
                    self.ip = at + 3;
                }
                Step::Continue
            },
        }
    }

    /// `INC` and `DEC`: a `TypeReg` operand names a register; any other
    /// operand resolves to the heap address of a byte.
    fn exec_inc_dec(&mut self, op: Operations) -> (r: Step)
        requires
            old(self).wf(),
            old(self).ip < old(self)@.code.len(),
            op == Operations::INC || op == Operations::DEC,
        ensures
            final(self).wf(),
            final(self)@ == op_spec(old(self)@, op).0,
            r@ == op_spec(old(self)@, op).1,
    {
        let n = self.data.len();
        let at = self.ip;
        if at + 1 >= n {
            return Step::Faulted(self.fault(FaultKind::TruncatedInstruction, (at + 1) as u64));
        }
        let b = self.data.bytes[at + 1];
        if b.tp == Types::TypeReg {
            if b.data >= REGISTER_COUNT as u64 {
                return Step::Faulted(self.fault(FaultKind::InvalidRegister, b.data));
            }
            let x = self.regs.index(b.data as usize);
            let y = if op == Operations::INC {
                x.wrapping_add(1)
            } else {
                x.wrapping_sub(1)
            };
            self.regs.set(b.data as usize, y);
            self.ip = at + 2;
            return Step::Continue;
        }
        let a = match self.resolve(b) {
            Ok(v) => v,
            Err(f) => {
                return Step::Faulted(f);
            },
        };
        let live = a < self.heap.size() as u64 && self.heap.is_allocated(a as usize);
        if !live {
            proof {
                if is_live(self@.extents, a as int) {
                    self.heap.lemma_live_in_bounds(a as int);
                }
            }
            return Step::Faulted(self.fault(FaultKind::MemoryFault, a));
        }
        let x = self.heap.byte_at(a as usize);
        let y = if op == Operations::INC {
            x.wrapping_add(1)
        } else {
            x.wrapping_sub(1)
        };
        let _ = self.heap.write(a as usize, y);
        self.ip = at + 2;
        Step::Continue
    }

    /// `LOAD`, `ALLOC`, `FREE` and `REALLOC`.
    fn exec_heap(&mut self, op: Operations) -> (r: Step)
        requires
            old(self).wf(),
            old(self).ip < old(self)@.code.len(),
            op == Operations::LOAD || op == Operations::ALLOC || op == Operations::FREE || op
                == Operations::REALLOC,
        ensures
            final(self).wf(),
            final(self)@ == op_spec(old(self)@, op).0,
            r@ == op_spec(old(self)@, op).1,
    {
        // The stream's length bounds every position fetched below.
        let _len = self.data.len();
        let at = self.ip;
        let size_limit = self.heap.size();
        if op == Operations::FREE {
            let a = match self.fetch(at + 1, ArgType::Typed) {
                Ok(v) => v,
                Err(f) => {
                    return Step::Faulted(f);
                },
            };
            if a >= size_limit as u64 {
                proof {
                    if is_live(self@.extents, a as int) {
                        self.heap.lemma_live_in_bounds(a as int);
                    }
                }
                return Step::Faulted(self.fault(FaultKind::MemoryFault, a));
            }
            match self.heap.free(a as usize) {
                Ok(()) => {},
                Err(()) => {
                    return Step::Faulted(self.fault(FaultKind::MemoryFault, a));
                },
            }
            self.ip = at + 2;
            return Step::Continue;
        }
        let d = match self.fetch(at + 1, ArgType::Dest) {
            Ok(v) => v,
            Err(f) => {
                return Step::Faulted(f);
            },
        };
        let v = match self.fetch(at + 2, ArgType::Typed) {
            Ok(v) => v,
            Err(f) => {
                return Step::Faulted(f);
            },
        };
        if op == Operations::LOAD {
            if v >= size_limit as u64 {
                return Step::Faulted(self.fault(FaultKind::MemoryFault, v));
            }
            let x = self.heap.byte_at(v as usize);
            self.regs.set(d as usize, x as u64);
        } else if op == Operations::ALLOC {
            if v > size_limit as u64 {
                proof {
                    self.heap.lemma_too_large(v as int);
                }
                return Step::Faulted(self.fault(FaultKind::MemoryFault, v));
            }
            let a = match self.heap.allocate(v as usize) {
                Ok(a) => a,
                Err(()) => {
                    return Step::Faulted(self.fault(FaultKind::MemoryFault, v));
                },
            };
            self.regs.set(d as usize, a as u64);
        } else {
            let a = self.regs.index(d as usize);
            if a >= size_limit as u64 || v > size_limit as u64 {
                proof {
                    if is_live(self@.extents, a as int) {
                        self.heap.lemma_live_in_bounds(a as int);
                        self.heap.lemma_too_large(v as int);
                        let e = extent_at(self@.extents, a as int);
                        self.heap.lemma_extents_disjoint(e, e);
                    }
                }
                return Step::Faulted(self.fault(FaultKind::MemoryFault, a));
            }
            let b = match self.heap.realloc(a as usize, v as usize) {
                Ok(b) => b,
                Err(()) => {
                    return Step::Faulted(self.fault(FaultKind::MemoryFault, a));
                },
            };
            self.regs.set(d as usize, b as u64);
        }
        self.ip = at + 3;
        Step::Continue
    }

    /// Whether every address `a <= i < a + len` is in a live extent.
    fn all_allocated(&self, a: u64, len: u64) -> (r: bool)
        requires
            self.wf(),
        ensures
            r == all_live(self@.extents, a as int, len as int),
    {
        let size = self.heap.size();
        let mut i: u64 = 0;
        while i < len
            invariant
                self.wf(),
                size == self@.heap_bytes.len(),
                i <= len,
                all_live(self@.extents, a as int, i as int),
            decreases len - i,
        {
            if a >= size as u64 || i >= size as u64 - a || !self.heap.is_allocated((a + i) as usize) {
                proof {
                    if is_live(self@.extents, a + i) {
                        self.heap.lemma_live_in_bounds(a + i);
                    }
                }
                return false;
            }
            i = i + 1;
        }
        true
    }

    /// Writes `vals` into the heap from address `a` on.
    fn write_all(&mut self, a: u64, vals: &Vec<u8>)
        requires
            old(self).wf(),
            all_live(old(self)@.extents, a as int, vals@.len() as int),
        ensures
            final(self).wf(),
            final(self)@ == (Machine {
                heap_bytes: written(old(self)@.heap_bytes, a as int, vals@),
                ..old(self)@
            }),
    {
        let mut i: usize = 0;
        while i < vals.len()
            invariant
                self.wf(),
                all_live(self@.extents, a as int, vals@.len() as int),
                i <= vals@.len(),
                self@ == (Machine {
                    heap_bytes: written(old(self)@.heap_bytes, a as int, vals@.subrange(0, i as int)),
                    ..old(self)@
                }),
            decreases vals@.len() - i,
        {
            proof {
                assert(is_live(self@.extents, a + i));
                self.heap.lemma_live_in_bounds(a + i);
            }
            let _ = self.heap.write((a + i as u64) as usize, vals[i]);
            i = i + 1;
            assert(self@.heap_bytes =~= written(old(self)@.heap_bytes, a as int, vals@.subrange(0, i as int)));
        }
        assert(vals@.subrange(0, vals@.len() as int) =~= vals@);
    }

    /// `STORE`, `WRITE` and `READ`.
    fn exec_memory_io(&mut self, op: Operations) -> (r: Step)
        requires
            old(self).wf(),
            old(self).ip < old(self)@.code.len(),
            op == Operations::STORE || op == Operations::WRITE || op == Operations::READ,
        ensures
            final(self).wf(),
            final(self)@ == op_spec(old(self)@, op).0,
            r@ == op_spec(old(self)@, op).1,
    {
        let n = self.data.len();
        let at = self.ip;
        let size = self.heap.size();
        let a = match self.fetch(at + 1, ArgType::Typed) {
            Ok(v) => v,
            Err(f) => {
                return Step::Faulted(f);
            },
        };
        let len = match self.fetch(at + 2, ArgType::Typed) {
            Ok(v) => v,
            Err(f) => {
                return Step::Faulted(f);
            },
        };
        if op == Operations::WRITE {
            if a > size as u64 || len > size as u64 - a {
                return Step::Faulted(self.fault(FaultKind::MemoryFault, a));
            }
            let bytes = match self.heap.read(a as usize, len as usize) {
                Ok(v) => v,
                Err(()) => {
                    return Step::Faulted(self.fault(FaultKind::MemoryFault, a));
                },
            };
            self.io.write(bytes.as_slice());
            self.ip = at + 3;
            return Step::Continue;
        }
        if op == Operations::READ {
            if len > self.io.in_buffer.len() as u64 {
                return Step::Faulted(self.fault(FaultKind::InputExhausted, len));
            }
            if !self.all_allocated(a, len) {
                return Step::Faulted(self.fault(FaultKind::MemoryFault, a));
            }
            let vals = match self.io.read(len as usize) {
                Ok(v) => v,
                Err(()) => {
                    return Step::Faulted(self.fault(FaultKind::InputExhausted, len));
                },
            };
            self.write_all(a, &vals);
            self.ip = at + 3;
            return Step::Continue;
        }
        let ghost m = self@;
        let mut vals: Vec<u8> = Vec::new();
        let mut p: usize = at + 3;
        let mut j: u64 = 0;
        while j < len
            invariant
                self@ == m,
                m == old(self)@,
                op == Operations::STORE,
                fetch(m, at + 1, ArgType::Typed) == Ok::<u64, Fault>(a),
                fetch(m, at + 2, ArgType::Typed) == Ok::<u64, Fault>(len),
                self.wf(),
                n == m.code.len(),
                at == m.ip,
                j <= len,
                p == at + 3 + j,
                p <= n,
                vals@.len() == j,
                store_values(m, at + 3, j as nat) == Ok::<Seq<u8>, Fault>(vals@),
            decreases len - j,
        {
            let v = match self.fetch(p, ArgType::Typed) {
                Ok(v) => v,
                Err(f) => {
                    proof {
                        assert(store_values(m, at + 3, (j + 1) as nat) == Err::<Seq<u8>, Fault>(f));
                        lemma_store_values_err(m, at + 3, (j + 1) as nat, len as nat, f);
                    }
                    return Step::Faulted(f);
                },
            };
            vals.push((v % 256) as u8);
            p = p + 1;
            j = j + 1;
        }
        if !self.all_allocated(a, len) {
            return Step::Faulted(self.fault(FaultKind::MemoryFault, a));
        }
        self.write_all(a, &vals);
        self.ip = p;
        Step::Continue
    }

    /// Runs one instruction: halts at or past the end of the stream, faults
    /// on a head that is no opcode, else does what the opcode does.
    pub fn step(&mut self) -> (r: Step)
        requires
            old(self).wf(),
        ensures
            final(self).wf(),
            final(self)@ == step_spec(old(self)@).0,
            r@ == step_spec(old(self)@).1,
    {
        let n = self.data.len();
        if self.ip >= n {
            return Step::Halted;
        }
        let head = self.data.bytes[self.ip];
        let op = if head.tp == Types::TypeOp && head.data < 256 {
            Operations::from_code(head.data as u8)
        } else {
            None
        };
        match op {
            None => Step::Faulted(self.fault(FaultKind::InvalidOpcode, head.data)),
            Some(op) => match op {
                Operations::ADD | Operations::SUB | Operations::MUL | Operations::DIV
                | Operations::MOD | Operations::AND | Operations::OR | Operations::XOR
                | Operations::EQ | Operations::NEQ | Operations::LT | Operations::GT => self.exec_alu(op),
                Operations::PUSH | Operations::POP | Operations::DUP | Operations::SWAP => self.exec_stack(op),
                Operations::NOP | Operations::JMP | Operations::JZ | Operations::JNZ
                | Operations::CALL | Operations::RET | Operations::FUNC => self.exec_flow(op),
                Operations::NOT | Operations::MOV | Operations::WRACC | Operations::REACC
                | Operations::FLUSH => self.exec_reg(op),
                Operations::INC | Operations::DEC => self.exec_inc_dec(op),
                Operations::LOAD | Operations::ALLOC | Operations::FREE | Operations::REALLOC => self.exec_heap(op),
                Operations::STORE | Operations::WRITE | Operations::READ => self.exec_memory_io(op),
            },
        }
    }

    /// Loads `bytes` for a run: the instruction pointer goes to 0, the call
    /// stack empties, and the jump table holds, for each function marker in
    /// order, the position right after its label.
    pub fn load(&mut self, bytes: ByteStream)
        requires
            old(self).wf(),
        ensures
            final(self).wf(),
            final(self)@ == (Machine {
                ip: 0,
                code: bytes@,
                jumps: func_marks(bytes@, bytes@.len() as int),
                calls: Seq::empty(),
                ..old(self)@
            }),
    {
        let mut table: Vec<usize> = Vec::new();
        let n = bytes.len();
        let mut i: usize = 0;
        while i < n
            invariant
                n == bytes@.len(),
                i <= n,
                table@ == func_marks(bytes@, i as int),
            decreases n - i,
        {
            let b = bytes.bytes[i];
            if i + 1 < n && b.tp == Types::TypeOp && b.data == FUNC_CODE && bytes.bytes[i + 1].tp
                == Types::TypeFunc {
                table.push(i + 2);
            }
            i = i + 1;
        }
        self.data = bytes;
        self.jumptable = table;
        self.callstack = Vec::new();
        self.ip = 0;
    }

    /// Runs up to `max_steps` instructions from where the engine stands;
    /// stops early at a halt, a fault or a flush.
    pub fn resume(&mut self, max_steps: u64) -> (r: RunOutcome)
        requires
            old(self).wf(),
        ensures
            final(self).wf(),
            final(self)@ == run_spec(old(self)@, max_steps as nat).0,
            r@ == run_spec(old(self)@, max_steps as nat).1,
    {
        let mut left: u64 = max_steps;
        while left > 0
            invariant
                self.wf(),
                left <= max_steps,
                run_spec(self@, left as nat) == run_spec(old(self)@, max_steps as nat),
            decreases left,
        {
            match self.step() {
                Step::Continue => {},
                Step::Flush(v) => {
                    return RunOutcome::Flush(v);
                },
                Step::Halted => {
                    return RunOutcome::Halted;
                },
                Step::Faulted(f) => {
                    return RunOutcome::Faulted(f);
                },
            }
            left = left - 1;
        }
        RunOutcome::Running
    }

    /// Loads `bytes` and runs up to `max_steps` instructions of it.
    pub fn run(&mut self, bytes: ByteStream, max_steps: u64) -> (r: RunOutcome)
        requires
            old(self).wf(),
        ensures
            final(self).wf(),
            ({
                let loaded = Machine {
                    ip: 0,
                    code: bytes@,
                    jumps: func_marks(bytes@, bytes@.len() as int),
                    calls: Seq::empty(),
                    ..old(self)@
                };
                &&& final(self)@ == run_spec(loaded, max_steps as nat).0
                &&& r@ == run_spec(loaded, max_steps as nat).1
            }),
    {
        self.load(bytes);
        self.resume(max_steps)
    }

    /// `run` with the engine's `debug` flag set. The flag is for the front
    /// end that drives the run; nothing in the engine reads it, so the run
    /// itself is the same as `run`'s.
    pub fn debug(&mut self, bytes: ByteStream, max_steps: u64) -> (r: RunOutcome)
        requires
            old(self).wf(),
        ensures
            final(self).wf(),
            ({
                let loaded = Machine {
                    ip: 0,
                    code: bytes@,
                    jumps: func_marks(bytes@, bytes@.len() as int),
                    calls: Seq::empty(),
                    ..old(self)@
                };
                &&& final(self)@ == run_spec(loaded, max_steps as nat).0
                &&& r@ == run_spec(loaded, max_steps as nat).1
            }),
    {
        self.debug = true;
        self.run(bytes, max_steps)
    }

    /// Sets register `reg` to `value`.
    pub fn move_reg(&mut self, reg: usize, value: u64)
        requires
            old(self).wf(),
            reg < REGISTER_COUNT,
        ensures
            final(self).wf(),
            final(self)@ == (Machine { regs: old(self)@.regs.update(reg as int, value), ..old(self)@ }),
    {
        self.regs.set(reg, value);
    }

    /// Allocates `size` heap bytes at the lowest address where they fit and
    /// puts that address in register `reg`. Fails, changing nothing, where
    /// they fit nowhere.
    pub fn allocate(&mut self, size: usize, reg: usize) -> (r: Result<u64, ()>)
        requires
            old(self).wf(),
            reg < REGISTER_COUNT,
        ensures
            final(self).wf(),
            ({
                let m = old(self)@;
                match first_fit(m.extents, m.heap_bytes.len(), size as int) {
                    None => r is Err && final(self)@ == m,
                    Some(a) => r == Ok::<u64, ()>(a as u64) && final(self)@ == (Machine {
                        regs: m.regs.update(reg as int, a as u64),
                        extents: m.extents.insert((a as usize, (a + size) as usize)),
                        heap_bytes: zeroed(m.heap_bytes, a, a + size),
                        ..m
                    }),
                }
            }),
    {
        match self.heap.allocate(size) {
            Ok(a) => {
                self.regs.set(reg, a as u64);
                Ok(a as u64)
            },
            Err(()) => Err(()),
        }
    }

    /// Releases the live extent that holds `addr`. Fails, changing nothing,
    /// where no live extent holds it.
    pub fn free(&mut self, addr: usize) -> (r: Result<(), ()>)
        requires
            old(self).wf(),
        ensures
            final(self).wf(),
            ({
                let m = old(self)@;
                let e = extent_at(m.extents, addr as int);
                if is_live(m.extents, addr as int) {
                    r is Ok && final(self)@ == (Machine {
                        extents: m.extents.remove(e),
                        heap_bytes: zeroed(m.heap_bytes, e.0 as int, e.1 as int),
                        ..m
                    })
                } else {
                    r is Err && final(self)@ == m
                }
            }),
    {
        self.heap.free(addr)
    }

    /// Resizes the live extent that holds `addr` to `size` bytes and returns
    /// its (possibly new) start; see `Heap::realloc`.
    pub fn realloc(&mut self, addr: usize, size: usize) -> (r: Result<u64, ()>)
        requires
            old(self).wf(),
        ensures
            final(self).wf(),
            ({
                let m = old(self)@;
                match realloc_model(m.extents, m.heap_bytes, addr as int, size as int) {
                    None => r is Err && final(self)@ == m,
                    Some((ext, bytes, b)) => r == Ok::<u64, ()>(b as u64) && final(self)@ == (Machine {
                        extents: ext,
                        heap_bytes: bytes,
                        ..m
                    }),
                }
            }),
    {
        match self.heap.realloc(addr, size) {
            Ok(b) => Ok(b as u64),
            Err(()) => Err(()),
        }
    }

    /// The operand at the instruction pointer, if the pointer is inside the
    /// stream.
    pub fn current_byte(&self) -> (r: Option<Byte>)
        ensures
            r == (if self@.ip < self@.code.len() { Some(self@.code[self@.ip]) } else { None::<Byte> }),
    {
        if self.ip < self.data.len() {
            Some(self.data.bytes[self.ip])
        } else {
            None
        }
    }

    /// The operand just before the instruction pointer, if there is one.
    pub fn previous_byte(&self) -> (r: Option<Byte>)
        ensures
            r == (if 0 < self@.ip <= self@.code.len() { Some(self@.code[self@.ip - 1]) } else { None::<Byte> }),
    {
        if 0 < self.ip && self.ip <= self.data.len() {
            Some(self.data.bytes[self.ip - 1])
        } else {
            None
        }
    }
}

impl Default for Engine {
    fn default() -> (r: Self)
        ensures
            r.wf(),
            r@.heap_bytes == Seq::new(8192, |i: int| 0u8),
            r@.extents == Set::<(usize, usize)>::empty(),
            r@.ip == 0,
            r@.code == Seq::<Byte>::empty(),
    {
        Self::new()
    }
}

/// A comparison opcode that runs leaves 0 or 1 in the accumulator.
pub proof fn lemma_comparison_is_boolean(m: Machine)
    requires
        0 <= m.ip < m.code.len(),
        opcode_at(m) matches Some(op) && (op == Operations::EQ || op == Operations::NEQ || op
            == Operations::LT || op == Operations::GT),
        step_spec(m).1 is Continue,
    ensures
        step_spec(m).0.acc == 0 || step_spec(m).0.acc == 1,
{
}

/// `CALL` pushes the position right after itself and jumps; a later `RET`,
/// met with the call stack as the `CALL` left it, resumes at that position
/// and pops it. Calls therefore return in last-in, first-out order.
pub proof fn lemma_call_then_ret(s0: Machine, s2: Machine)
    requires
        0 <= s0.ip < s0.code.len() <= usize::MAX,
        opcode_at(s0) == Some(Operations::CALL),
        step_spec(s0).1 is Continue,
        s2.calls == step_spec(s0).0.calls,
        0 <= s2.ip < s2.code.len(),
        opcode_at(s2) == Some(Operations::RET),
    ensures
        step_spec(s0).0.calls == s0.calls.push((s0.ip + 2) as usize),
        step_spec(s2).1 is Continue,
        step_spec(s2).0.ip == s0.ip + 2,
        step_spec(s2).0.calls == s0.calls,
{
    assert(s0.calls.push((s0.ip + 2) as usize).drop_last() =~= s0.calls);
}

/// Three nested calls return in reverse order: `a` calls, then `b` calls from
/// inside, then `c` from inside that; the `RET`s met with the call stacks
/// those calls left resume right after `c`'s, then `b`'s, then `a`'s `CALL`,
/// each position kept exactly, and the last leaves the call stack as `a` found it.
pub proof fn lemma_nested_calls_return_in_reverse(
    a: Machine,
    b: Machine,
    c: Machine,
    rc: Machine,
    rb: Machine,
    ra: Machine,
)
    requires
        0 <= a.ip < a.code.len() <= usize::MAX,
        0 <= b.ip < b.code.len() <= usize::MAX,
        0 <= c.ip < c.code.len() <= usize::MAX,
        opcode_at(a) == Some(Operations::CALL),
        opcode_at(b) == Some(Operations::CALL),
        opcode_at(c) == Some(Operations::CALL),
        step_spec(a).1 is Continue,
        step_spec(b).1 is Continue,
        step_spec(c).1 is Continue,
        b.calls == step_spec(a).0.calls,
        c.calls == step_spec(b).0.calls,
        0 <= rc.ip < rc.code.len(),
        0 <= rb.ip < rb.code.len(),
        0 <= ra.ip < ra.code.len(),
        opcode_at(rc) == Some(Operations::RET),
        opcode_at(rb) == Some(Operations::RET),
        opcode_at(ra) == Some(Operations::RET),
        rc.calls == step_spec(c).0.calls,
        rb.calls == step_spec(rc).0.calls,
        ra.calls == step_spec(rb).0.calls,
    ensures
        step_spec(rc).0.ip == c.ip + 2,
        step_spec(rb).0.ip == b.ip + 2,
        step_spec(ra).0.ip == a.ip + 2,
        step_spec(ra).0.calls == a.calls,
{
    lemma_call_then_ret(c, rc);
    lemma_call_then_ret(b, rb);
    lemma_call_then_ret(a, ra);
}

/// `JZ` jumps to its function's position when the accumulator is zero and
/// `JNZ` when it is not; otherwise both go on after their operand.
pub proof fn lemma_conditional_jump(m: Machine)
    requires
        0 <= m.ip < m.code.len(),
        opcode_at(m) matches Some(op) && (op == Operations::JZ || op == Operations::JNZ),
        step_spec(m).1 is Continue,
    ensures
        ({
            let target = m.jumps[m.code[m.ip + 1].data as int] as int;
            let taken = if opcode_at(m) == Some(Operations::JZ) { m.acc == 0 } else { m.acc != 0 };
            step_spec(m).0.ip == if taken { target } else { m.ip + 2 }
        }),
        step_spec(m).0.acc == m.acc,
{
    lemma_usize_u64(m.jumps[m.code[m.ip + 1].data as int]);
}

} // verus!
