//! The execution core: machine state, one fetch-execute step as a function
//! of state and input, and the stack observed by a tracer.
use vstd::prelude::*;

use vstd::arithmetic::div_mod::{
    lemma_div_is_ordered_by_denominator, lemma_div_pos_is_pos, lemma_fundamental_div_mod,
};

use crate::code::{Code, Instruction, OperationCode, ParseError, parse_program};
use crate::text::{decimal_value, parse_decimal, trim, trim_spaces};

verus! {

/// Whether a driver shows the machine after each step.
#[derive(Clone, Copy, Debug, PartialEq, Eq, Structural)]
pub enum TraceType {
    No,
    TraceStack,
}

/// Where the machine is in its life: loaded and not started, running, or
/// stopped for good by `EXIT` or an error.
#[derive(Clone, Copy, Debug, PartialEq, Eq, Structural)]
pub enum RunState {
    Loaded,
    Running,
    Halted,
}

/// The runtime errors. Each one halts the machine.
#[derive(Clone, Copy, Debug, PartialEq, Eq, Structural)]
pub enum VmError {
    /// A fetch or a jump outside the program.
    PcOutOfRange,
    /// A pop or a read of the top of an empty stack.
    StackUnderflow,
    /// A stack index outside the live stack, or a push beyond its bound.
    MemoryFault,
    /// A base register selector other than 0 or 1.
    BadBaseRegister,
    /// An operand or a value that its instruction cannot take.
    BadOperand,
    /// `DIV` or `MOD` by zero.
    DivideByZero,
    /// A line read by `GETI` that is not a decimal `i32`.
    IoFormat,
    /// Input ended before a read.
    IoEnd,
}

/// What a driver read for the instruction about to run.
#[derive(Debug, PartialEq, Eq)]
pub enum Input {
    /// One byte, for `GETC`.
    Byte(u8),
    /// One line, for `GETI`.
    Line(String),
}

/// What a driver does after a step.
#[derive(Clone, Copy, Debug, PartialEq, Eq, Structural)]
pub enum Action {
    /// Nothing: go on.
    Continue,
    /// Write this character.
    PutChar(char),
    /// Write this integer in decimal.
    PutInt(i32),
    /// Stop; this is the program's result.
    Exit(i32),
}

/// The machine as contracts see it.
pub struct Machine {
    /// Index of the next instruction to fetch.
    pub pc: nat,
    /// Global base register.
    pub b0: nat,
    /// Frame base register.
    pub b1: nat,
    /// The live stack, bottom first.
    pub stack: Seq<i32>,
    /// How many slots the stack may hold.
    pub bound: nat,
}

/// `v` is a Unicode scalar value.
pub open spec fn is_scalar_value(v: int) -> bool {
    0 <= v <= 0xD7FF || 0xE000 <= v <= 0x10FFFF
}

/// The absolute value.
pub open spec fn abs(a: int) -> int {
    if a < 0 {
        -a
    } else {
        a
    }
}

/// The quotient of `a` by `b`, rounded toward zero.
pub open spec fn trunc_div(a: int, b: int) -> int {
    if (a < 0) == (b < 0) {
        abs(a) / abs(b)
    } else {
        -(abs(a) / abs(b))
    }
}

/// The remainder that goes with `trunc_div`; it has the sign of `a`.
pub open spec fn trunc_rem(a: int, b: int) -> int {
    a - b * trunc_div(a, b)
}

/// The operations that pop two values and push one.
pub open spec fn is_binary(op: OperationCode) -> bool {
    match op {
        OperationCode::Add | OperationCode::Sub | OperationCode::Mul | OperationCode::Div
        | OperationCode::Mod | OperationCode::Eq | OperationCode::Ne | OperationCode::Gt
        | OperationCode::Lt | OperationCode::Ge | OperationCode::Le => true,
        _ => false,
    }
}

/// 1 for true, 0 for false.
pub open spec fn flag(b: bool) -> i32 {
    if b {
        1
    } else {
        0
    }
}

/// The value that a binary operation computes from `a` (below) and `b`
/// (the top), with two's-complement wrapping. `b` is not zero for `DIV`
/// and `MOD`.
pub open spec fn binary_result(op: OperationCode, a: i32, b: i32) -> i32 {
    match op {
        OperationCode::Add => vstd::wrapping::i32_specs::wrapping_add(a, b),
        OperationCode::Sub => vstd::wrapping::i32_specs::wrapping_sub(a, b),
        OperationCode::Mul => vstd::wrapping::i32_specs::wrapping_mul(a, b),
        OperationCode::Div => if a == i32::MIN && b == -1 {
            i32::MIN
        } else {
            trunc_div(a as int, b as int) as i32
        },
        OperationCode::Mod => if a == i32::MIN && b == -1 {
            0
        } else {
            trunc_rem(a as int, b as int) as i32
        },
        OperationCode::Eq => flag(a == b),
        OperationCode::Ne => flag(a != b),
        OperationCode::Gt => flag(a > b),
        OperationCode::Lt => flag(a < b),
        OperationCode::Ge => flag(a >= b),
        _ => flag(a <= b),
    }
}

/// The machine with a new program counter.
pub open spec fn at_pc(m: Machine, pc: nat) -> Machine {
    Machine { pc, ..m }
}

/// The machine with a new stack.
pub open spec fn with_stack(m: Machine, stack: Seq<i32>) -> Machine {
    Machine { stack, ..m }
}

/// Continue with `m`.
pub open spec fn go_on(m: Machine) -> Result<(Machine, Action), VmError> {
    Ok((m, Action::Continue))
}

/// Push `v` onto the stack of `m`, within its bound.
pub open spec fn pushed(m: Machine, v: i32) -> Result<(Machine, Action), VmError> {
    if m.stack.len() < m.bound {
        go_on(with_stack(m, m.stack.push(v)))
    } else {
        Err(VmError::MemoryFault)
    }
}

/// The base register that `b` selects.
pub open spec fn base_of(m: Machine, b: i32) -> Option<nat> {
    if b == 0 {
        Some(m.b0)
    } else if b == 1 {
        Some(m.b1)
    } else {
        None
    }
}

/// Go to `target`, which must be an index of a program of `len` instructions.
pub open spec fn jumped(m: Machine, target: int, len: nat) -> Result<(Machine, Action), VmError> {
    if 0 <= target < len {
        go_on(at_pc(m, target as nat))
    } else {
        Err(VmError::PcOutOfRange)
    }
}

/// Stack allocation, loads, stores and base setting. `m` has its program
/// counter already past the instruction; `x` and `y` are its operands.
pub open spec fn memory_step(m: Machine, op: OperationCode, x: i32, y: i32) -> Result<
    (Machine, Action),
    VmError,
> {
    let s = m.stack;
    let n = s.len();
    match op {
        OperationCode::Isp => if x < 0 {
            Err(VmError::BadOperand)
        } else if n + x > m.bound {
            Err(VmError::MemoryFault)
        } else {
            go_on(with_stack(m, s + Seq::new(x as nat, |k: int| 0i32)))
        },
        OperationCode::La => match base_of(m, x) {
            None => Err(VmError::BadBaseRegister),
            Some(base) => pushed(m, vstd::wrapping::i32_specs::wrapping_add(base as i32, y)),
        },
        OperationCode::Lv => match base_of(m, x) {
            None => Err(VmError::BadBaseRegister),
            Some(base) => if base + y < 0 || base + y >= n {
                Err(VmError::MemoryFault)
            } else {
                pushed(m, s[base + y])
            },
        },
        OperationCode::Lc => pushed(m, x),
        OperationCode::Li => if n == 0 {
            Err(VmError::StackUnderflow)
        } else if s.last() < 0 || s.last() >= n {
            Err(VmError::MemoryFault)
        } else {
            go_on(with_stack(m, s.update(n - 1, s[s.last() as int])))
        },
        OperationCode::Dup => if n == 0 {
            Err(VmError::StackUnderflow)
        } else {
            pushed(m, s.last())
        },
        OperationCode::Si => if n < 2 {
            Err(VmError::StackUnderflow)
        } else if s[n - 2] < 0 || s[n - 2] >= n - 2 {
            Err(VmError::MemoryFault)
        } else {
            go_on(with_stack(m, s.take(n - 2).update(s[n - 2] as int, s[n - 1])))
        },
        OperationCode::Sv => match base_of(m, x) {
            None => Err(VmError::BadBaseRegister),
            Some(base) => if n == 0 {
                Err(VmError::StackUnderflow)
            } else if base + y < 0 || base + y >= n - 1 {
                Err(VmError::MemoryFault)
            } else {
                go_on(with_stack(m, s.drop_last().update(base + y, s.last())))
            },
        },
        _ => if n == 0 {
            Err(VmError::StackUnderflow)
        } else if x != 0 && x != 1 {
            Err(VmError::BadBaseRegister)
        } else if s.last() < 0 {
            Err(VmError::BadOperand)
        } else if x == 0 {
            go_on(Machine { b0: s.last() as nat, stack: s.drop_last(), ..m })
        } else {
            go_on(Machine { b1: s.last() as nat, stack: s.drop_last(), ..m })
        },
    }
}

/// Branches, calls and returns, in a program of `len` instructions.
pub open spec fn control_step(m: Machine, op: OperationCode, x: i32, len: nat) -> Result<
    (Machine, Action),
    VmError,
> {
    let s = m.stack;
    let n = s.len();
    match op {
        OperationCode::B => jumped(m, m.pc + x, len),
        OperationCode::Bz => if n == 0 {
            Err(VmError::StackUnderflow)
        } else if s.last() == 0 {
            jumped(with_stack(m, s.drop_last()), m.pc + x, len)
        } else {
            go_on(with_stack(m, s.drop_last()))
        },
        OperationCode::Call => if n + 3 > m.bound {
            Err(VmError::MemoryFault)
        } else if m.pc > i32::MAX {
            Err(VmError::PcOutOfRange)
        } else {
            jumped(
                Machine { b1: n, stack: s + seq![0i32, m.b1 as i32, m.pc as i32], ..m },
                x as int,
                len,
            )
        },
        _ => {
            let h = m.b1 as int;
            if h + 3 > n {
                Err(VmError::MemoryFault)
            } else if s[h + 1] < 0 {
                Err(VmError::BadOperand)
            } else {
                jumped(
                    Machine { b1: s[h + 1] as nat, stack: s.take(h + 1), ..m },
                    s[h + 2] as int,
                    len,
                )
            }
        },
    }
}

/// Reads and writes: `GETC`, `GETI`, `PUTC`, `PUTI`.
pub open spec fn io_step(m: Machine, op: OperationCode, input: Option<Input>) -> Result<
    (Machine, Action),
    VmError,
> {
    let s = m.stack;
    let n = s.len();
    match op {
        OperationCode::Getc => match input {
            Some(Input::Byte(b)) => pushed(m, b as i32),
            _ => Err(VmError::IoEnd),
        },
        OperationCode::Geti => match input {
            Some(Input::Line(l)) => match decimal_value(trim(l@)) {
                Some(v) => pushed(m, v),
                None => Err(VmError::IoFormat),
            },
            _ => Err(VmError::IoEnd),
        },
        OperationCode::Putc => if n == 0 {
            Err(VmError::StackUnderflow)
        } else if !is_scalar_value(s.last() as int) {
            Err(VmError::BadOperand)
        } else {
            Ok((with_stack(m, s.drop_last()), Action::PutChar(s.last() as char)))
        },
        _ => if n == 0 {
            Err(VmError::StackUnderflow)
        } else {
            Ok((with_stack(m, s.drop_last()), Action::PutInt(s.last())))
        },
    }
}

/// Arithmetic, comparison, negation and `EXIT`.
pub open spec fn arith_step(m: Machine, op: OperationCode) -> Result<(Machine, Action), VmError> {
    let s = m.stack;
    let n = s.len();
    if op == OperationCode::Exit {
        if n == 0 {
            Ok((m, Action::Exit(0)))
        } else {
            Ok((with_stack(m, s.drop_last()), Action::Exit(s.last())))
        }
    } else if op == OperationCode::Inv {
        if n == 0 {
            Err(VmError::StackUnderflow)
        } else {
            go_on(with_stack(m, s.update(n - 1, vstd::wrapping::i32_specs::wrapping_sub(0, s.last()))))
        }
    } else if n < 2 {
        Err(VmError::StackUnderflow)
    } else if (op == OperationCode::Div || op == OperationCode::Mod) && s[n - 1] == 0 {
        Err(VmError::DivideByZero)
    } else {
        go_on(with_stack(m, s.take(n - 2).push(binary_result(op, s[n - 2], s[n - 1]))))
    }
}

/// Runs `ins` on `m`, whose program counter is already past it, in a
/// program of `len` instructions.
pub open spec fn execute(m: Machine, ins: Instruction, len: nat, input: Option<Input>) -> Result<
    (Machine, Action),
    VmError,
> {
    let op = ins.operation_code;
    let x = ins.operand[0]->0;
    let y = ins.operand[1]->0;
    match op {
        OperationCode::Isp | OperationCode::La | OperationCode::Lv | OperationCode::Lc
        | OperationCode::Li | OperationCode::Dup | OperationCode::Si | OperationCode::Sv
        | OperationCode::Sb => memory_step(m, op, x, y),
        OperationCode::B | OperationCode::Bz | OperationCode::Call | OperationCode::Ret =>
            control_step(m, op, x, len),
        OperationCode::Getc | OperationCode::Geti | OperationCode::Putc | OperationCode::Puti =>
            io_step(m, op, input),
        _ => arith_step(m, op),
    }
}

/// One fetch-execute step of `m` running `prog`, with `input` for an
/// instruction that reads: the next machine and what to do, or an error.
pub open spec fn step_spec(m: Machine, prog: Seq<Instruction>, input: Option<Input>) -> Result<
    (Machine, Action),
    VmError,
> {
    if m.pc >= prog.len() {
        Err(VmError::PcOutOfRange)
    } else {
        execute(at_pc(m, m.pc + 1), prog[m.pc as int], prog.len(), input)
    }
}

/// The most slots a stack can be given: stack indices are pushed as `i32`
/// words, so each one must fit in one.
pub const MAX_STACK_SIZE: usize = 0x7fff_ffff;

/// The slots of a new machine's stack.
pub const DEFAULT_STACK_SIZE: usize = 1024;

/// Relies on `char::from_u32`: the character with code point `v` when `v`
/// is a Unicode scalar value, and `None` otherwise.
#[verifier::external_body]
fn char_from_code(v: u32) -> (r: Option<char>)
    ensures
        is_scalar_value(v as int) ==> r == Some(v as char),
        !is_scalar_value(v as int) ==> r is None,
{
    char::from_u32(v)
}

/// `pc + d`, when that is an index of a program of `len` instructions.
fn jump_target(pc: usize, d: i32, len: usize) -> (r: Option<usize>)
    ensures
        0 <= pc + d < len ==> r == Some((pc + d) as usize),
        !(0 <= pc + d < len) ==> r is None,
{
    if d >= 0 {
        let forward = d as usize;
        if forward >= len || pc >= len - forward {
            None
        } else {
            Some(pc + forward)
        }
    } else {
        let back = (0i64 - d as i64) as usize;
        if back > pc {
            None
        } else if pc - back >= len {
            None
        } else {
            Some(pc - back)
        }
    }
}

/// A stack machine: a program, a program counter, a stack of `i32` with a
/// fixed number of slots, and the two base registers.
pub struct Vsm {
    code: Code,
    program_counter: usize,
    global_top_address: usize,
    frame_top_address: usize,
    /// All slots; those at `depth` and above are not live.
    stack: Vec<i32>,
    depth: usize,
    /// The most slots that were ever live.
    max_depth: usize,
    trace_type: TraceType,
    run_state: RunState,
}

/// One slot as a tracer shows it.
#[derive(Clone, Copy, Debug, PartialEq, Eq, Structural)]
pub struct TraceRow {
    pub index: usize,
    pub value: i32,
    /// B0 holds this index.
    pub is_b0: bool,
    /// B1 holds this index.
    pub is_b1: bool,
    /// This is the top of the live stack.
    pub is_top: bool,
}

/// Slot `i` of `slots` in machine `m`, as a tracer shows it.
pub open spec fn trace_row(m: Machine, slots: Seq<i32>, i: int) -> TraceRow {
    TraceRow {
        index: i as usize,
        value: slots[i],
        is_b0: m.b0 == i,
        is_b1: m.b1 == i,
        is_top: i + 1 == m.stack.len(),
    }
}

/// After a step helper: the machine is `expected` with the helper's result
/// `r`, or it is untouched and `r` is the error.
pub open spec fn settled(
    before: Vsm,
    after: Vsm,
    expected: Result<(Machine, Action), VmError>,
    r: Result<Action, VmError>,
) -> bool {
    &&& after.wf()
    &&& after.program() == before.program()
    &&& after.state() == before.state()
    &&& after.trace() == before.trace()
    &&& match expected {
        Ok((m, a)) => r == Ok::<Action, VmError>(a) && after.model() == m,
        Err(e) => r == Err::<Action, VmError>(e) && after.model() == before.model(),
    }
}

impl Vsm {
    /// The machine as contracts see it.
    pub closed spec fn model(&self) -> Machine {
        Machine {
            pc: self.program_counter as nat,
            b0: self.global_top_address as nat,
            b1: self.frame_top_address as nat,
            stack: self.stack@.take(self.depth as int),
            bound: self.stack@.len(),
        }
    }

    /// The loaded program.
    pub closed spec fn program(&self) -> Seq<Instruction> {
        self.code@
    }

    /// Where the machine is in its life.
    pub closed spec fn state(&self) -> RunState {
        self.run_state
    }

    /// The trace setting.
    pub closed spec fn trace(&self) -> TraceType {
        self.trace_type
    }

    /// Every slot, live or not.
    pub closed spec fn slots(&self) -> Seq<i32> {
        self.stack@
    }

    /// The most slots that were ever live.
    pub closed spec fn high_water(&self) -> nat {
        self.max_depth as nat
    }

    /// The machine's invariant.
    pub closed spec fn wf(&self) -> bool {
        &&& self.code.wf()
        &&& self.depth <= self.max_depth <= self.stack@.len() <= MAX_STACK_SIZE
        &&& self.global_top_address <= i32::MAX
        &&& self.frame_top_address <= i32::MAX
        &&& self.program_counter <= self.code@.len()
        &&& self.run_state == RunState::Loaded ==> {
            &&& self.depth == 0
            &&& self.max_depth == 0
            &&& self.program_counter == 0
            &&& self.global_top_address == 0
            &&& self.frame_top_address == 0
        }
    }

    /// A machine with no program, an empty stack of `DEFAULT_STACK_SIZE`
    /// slots and every register at zero.
    pub fn new(trace_type: TraceType) -> (r: Vsm)
        ensures
            r.wf(),
            r.model() == (Machine { pc: 0, b0: 0, b1: 0, stack: Seq::empty(), bound: DEFAULT_STACK_SIZE as nat }),
            r.program() == Seq::<Instruction>::empty(),
            r.state() == RunState::Loaded,
            r.trace() == trace_type,
    {
        let r = Vsm {
            code: Code::new(),
            program_counter: 0,
            global_top_address: 0,
            frame_top_address: 0,
            stack: vec![0i32; DEFAULT_STACK_SIZE],
            depth: 0,
            max_depth: 0,
            trace_type,
            run_state: RunState::Loaded,
        };
        assert(r.stack@.take(0) =~= Seq::<i32>::empty());
        r
    }

    /// Gives the stack `size` slots, all zero. Only before the first step.
    pub fn allocation_stack(&mut self, size: usize)
        requires
            old(self).wf(),
            old(self).state() == RunState::Loaded,
            size <= MAX_STACK_SIZE,
        ensures
            final(self).wf(),
            final(self).model() == (Machine { bound: size as nat, ..old(self).model() }),
            final(self).program() == old(self).program(),
            final(self).state() == old(self).state(),
            final(self).trace() == old(self).trace(),
    {
        self.stack = vec![0i32; size];
        assert(self.stack@.take(0) =~= Seq::<i32>::empty());
        assert(old(self).stack@.take(0) =~= Seq::<i32>::empty());
    }

    /// Loads a listing, one element per line, after the program already
    /// held; a listing with a bad line is rejected whole.
    pub fn read_code(&mut self, lines: &Vec<String>) -> (r: Result<(), ParseError>)
        requires
            old(self).wf(),
        ensures
            final(self).wf(),
            final(self).model() == old(self).model(),
            final(self).state() == old(self).state(),
            final(self).trace() == old(self).trace(),
            match parse_program(lines@.map_values(|l: String| l@)) {
                Ok(p) => r is Ok && final(self).program() == old(self).program() + p,
                Err(e) => r == Err::<(), ParseError>(e) && final(self).program() == old(self).program(),
            },
    {
        self.code.read(lines)
    }

    /// The index of the next instruction.
    pub fn program_counter(&self) -> (r: usize)
        ensures
            r == self.model().pc,
    {
        self.program_counter
    }

    /// Base register B0, where the globals begin.
    pub fn global_base(&self) -> (r: usize)
        ensures
            r == self.model().b0,
    {
        self.global_top_address
    }

    /// Base register B1, where the current frame begins.
    pub fn frame_base(&self) -> (r: usize)
        ensures
            r == self.model().b1,
    {
        self.frame_top_address
    }

    /// The live stack, bottom first.
    pub fn stack_values(&self) -> (r: Vec<i32>)
        requires
            self.wf(),
        ensures
            r@ == self.model().stack,
    {
        let mut out: Vec<i32> = Vec::new();
        let mut i: usize = 0;
        while i < self.depth
            invariant
                self.wf(),
                i <= self.depth,
                out@ == self.stack@.take(i as int),
            decreases self.depth - i,
        {
            out.push(self.stack[i]);
            assert(self.stack@.take(i + 1) =~= self.stack@.take(i as int).push(self.stack@[i as int]));
            i = i + 1;
        }
        out
    }

    /// Where the machine is in its life.
    pub fn run_state(&self) -> (r: RunState)
        ensures
            r == self.state(),
    {
        self.run_state
    }

    /// The trace setting.
    pub fn trace_type(&self) -> (r: TraceType)
        ensures
            r == self.trace(),
    {
        self.trace_type
    }

    /// The loaded program.
    pub fn code(&self) -> (r: &Code)
        ensures
            r@ == self.program(),
    {
        &self.code
    }

    /// The slots a tracer shows, from the highest slot that was ever live
    /// down to slot 0, each with its index, its value (stale above the live
    /// stack), and whether B0, B1 or the top of the stack is there.
    pub fn trace_rows(&self) -> (r: Vec<TraceRow>)
        requires
            self.wf(),
        ensures
            r@.len() == self.high_water(),
            forall|k: int| 0 <= k < r@.len() ==> #[trigger] r@[k] == trace_row(
                self.model(),
                self.slots(),
                self.high_water() - 1 - k,
            ),
    {
        let mut out: Vec<TraceRow> = Vec::new();
        let mut i: usize = self.max_depth;
        while i > 0
            invariant
                self.wf(),
                i <= self.max_depth,
                out@.len() == self.max_depth - i,
                forall|k: int| 0 <= k < out@.len() ==> #[trigger] out@[k] == trace_row(
                    self.model(),
                    self.slots(),
                    self.max_depth - 1 - k,
                ),
            decreases i,
        {
            i = i - 1;
            out.push(
                TraceRow {
                    index: i,
                    value: self.stack[i],
                    is_b0: self.global_top_address == i,
                    is_b1: self.frame_top_address == i,
                    is_top: i + 1 == self.depth,
                },
            );
        }
        out
    }

    /// The value at `address` of the live stack.
    fn stack_read(&self, address: i64) -> (r: Result<i32, VmError>)
        requires
            self.wf(),
        ensures
            0 <= address < self.model().stack.len() ==> r == Ok::<i32, VmError>(
                self.model().stack[address as int],
            ),
            !(0 <= address < self.model().stack.len()) ==> r == Err::<i32, VmError>(
                VmError::MemoryFault,
            ),
    {
        if 0 <= address && address < self.depth as i64 {
            Ok(self.stack[address as usize])
        } else {
            Err(VmError::MemoryFault)
        }
    }

    /// Writes `value` at `address` of the live stack.
    fn stack_write(&mut self, address: usize, value: i32)
        requires
            old(self).wf(),
            address < old(self).model().stack.len(),
        ensures
            final(self).wf(),
            final(self).model() == with_stack(
                old(self).model(),
                old(self).model().stack.update(address as int, value),
            ),
            final(self).program() == old(self).program(),
            final(self).state() == old(self).state(),
            final(self).trace() == old(self).trace(),
    {
        self.stack.set(address, value);
        assert(self.stack@.take(self.depth as int) =~= old(self).stack@.take(
            self.depth as int,
        ).update(address as int, value));
    }

    /// Pushes `value`, within the stack's bound.
    fn stack_push(&mut self, value: i32) -> (r: Result<Action, VmError>)
        requires
            old(self).wf(),
            old(self).state() == RunState::Running,
        ensures
            settled(*old(self), *final(self), pushed(old(self).model(), value), r),
    {
        if self.depth >= self.stack.len() {
            return Err(VmError::MemoryFault);
        }
        self.stack.set(self.depth, value);
        self.depth = self.depth + 1;
        if self.depth > self.max_depth {
            self.max_depth = self.depth;
        }
        assert(self.stack@.take(self.depth as int) =~= old(self).stack@.take(
            old(self).depth as int,
        ).push(value));
        Ok(Action::Continue)
    }

    /// Pops the top of the stack.
    fn stack_pop(&mut self) -> (r: i32)
        requires
            old(self).wf(),
            old(self).model().stack.len() > 0,
        ensures
            final(self).wf(),
            r == old(self).model().stack.last(),
            final(self).model() == with_stack(
                old(self).model(),
                old(self).model().stack.drop_last(),
            ),
            final(self).program() == old(self).program(),
            final(self).state() == old(self).state(),
            final(self).trace() == old(self).trace(),
    {
        let v = self.stack[self.depth - 1];
        self.depth = self.depth - 1;
        assert(self.stack@.take(self.depth as int) =~= old(self).stack@.take(
            old(self).depth as int,
        ).drop_last());
        v
    }

    /// The base register that `value` selects.
    fn base_register_read(&self, value: i32) -> (r: Result<usize, VmError>)
        requires
            self.wf(),
        ensures
            match base_of(self.model(), value) {
                Some(b) => r == Ok::<usize, VmError>(b as usize) && b <= i32::MAX,
                None => r == Err::<usize, VmError>(VmError::BadBaseRegister),
            },
    {
        if value == 0 {
            Ok(self.global_top_address)
        } else if value == 1 {
            Ok(self.frame_top_address)
        } else {
            Err(VmError::BadBaseRegister)
        }
    }

    /// Reserves `count` zeroed slots on top of the stack.
    fn reserve(&mut self, count: usize) -> (r: Result<Action, VmError>)
        requires
            old(self).wf(),
            old(self).state() == RunState::Running,
        ensures
            settled(
                *old(self),
                *final(self),
                if old(self).model().stack.len() + count > old(self).model().bound {
                    Err(VmError::MemoryFault)
                } else {
                    go_on(
                        with_stack(
                            old(self).model(),
                            old(self).model().stack + Seq::new(count as nat, |k: int| 0i32),
                        ),
                    )
                },
                r,
            ),
    {
        if count > self.stack.len() - self.depth {
            return Err(VmError::MemoryFault);
        }
        let mut j: usize = 0;
        while j < count
            invariant
                j <= count,
                self.depth + count <= self.stack@.len() <= MAX_STACK_SIZE,
                self.stack@.len() == old(self).stack@.len(),
                self.depth == old(self).depth,
                self.max_depth == old(self).max_depth,
                self.code == old(self).code,
                self.program_counter == old(self).program_counter,
                self.global_top_address == old(self).global_top_address,
                self.frame_top_address == old(self).frame_top_address,
                self.trace_type == old(self).trace_type,
                self.run_state == old(self).run_state,
                self.stack@.take(self.depth as int) == old(self).stack@.take(self.depth as int),
                forall|k: int| self.depth <= k < self.depth + j ==> self.stack@[k] == 0,
            decreases count - j,
        {
            self.stack.set(self.depth + j, 0);
            assert(self.stack@.take(self.depth as int) =~= old(self).stack@.take(
                self.depth as int,
            ));
            j = j + 1;
        }
        let ghost d = self.depth as int;
        self.depth = self.depth + count;
        if self.depth > self.max_depth {
            self.max_depth = self.depth;
        }
        assert(self.stack@.take(self.depth as int) =~= old(self).stack@.take(d) + Seq::new(
            count as nat,
            |k: int| 0i32,
        )) by {
            assert forall|k: int| 0 <= k < self.depth implies #[trigger] self.stack@.take(
                self.depth as int,
            )[k] == (old(self).stack@.take(d) + Seq::new(count as nat, |k: int| 0i32))[k] by {
                if k < d {
                    assert(self.stack@[k] == old(self).stack@.take(d)[k]);
                }
            }
        }
        Ok(Action::Continue)
    }

    /// Runs `ISP`, `LA`, `LV`, `LC`, `LI`, `DUP`, `SI`, `SV` or `SB`.
    fn exec_memory(&mut self, op: OperationCode, x: i32, y: i32) -> (r: Result<Action, VmError>)
        requires
            old(self).wf(),
            old(self).state() == RunState::Running,
        ensures
            settled(*old(self), *final(self), memory_step(old(self).model(), op, x, y), r),
    {
        let ghost m = self.model();
        match op {
            OperationCode::Isp => {
                if x < 0 {
                    return Err(VmError::BadOperand);
                }
                self.reserve(x as usize)
            },
            OperationCode::La => {
                match self.base_register_read(x) {
                    Err(e) => Err(e),
                    Ok(base) => self.stack_push((base as i32).wrapping_add(y)),
                }
            },
            OperationCode::Lv => {
                match self.base_register_read(x) {
                    Err(e) => Err(e),
                    Ok(base) => match self.stack_read(base as i64 + y as i64) {
                        Err(e) => Err(e),
                        Ok(v) => self.stack_push(v),
                    },
                }
            },
            OperationCode::Lc => self.stack_push(x),
            OperationCode::Li => {
                if self.depth == 0 {
                    return Err(VmError::StackUnderflow);
                }
                let top = self.stack[self.depth - 1];
                assert(top == m.stack.last());
                match self.stack_read(top as i64) {
                    Err(e) => Err(e),
                    Ok(v) => {
                        self.stack_write(self.depth - 1, v);
                        Ok(Action::Continue)
                    },
                }
            },
            OperationCode::Dup => {
                if self.depth == 0 {
                    return Err(VmError::StackUnderflow);
                }
                let top = self.stack[self.depth - 1];
                assert(top == m.stack.last());
                self.stack_push(top)
            },
            OperationCode::Si => {
                if self.depth < 2 {
                    return Err(VmError::StackUnderflow);
                }
                let value = self.stack[self.depth - 1];
                let address = self.stack[self.depth - 2];
                assert(value == m.stack[m.stack.len() - 1]);
                assert(address == m.stack[m.stack.len() - 2]);
                if address < 0 || address as usize >= self.depth - 2 {
                    return Err(VmError::MemoryFault);
                }
                self.stack_pop();
                self.stack_pop();
                assert(m.stack.drop_last().drop_last() =~= m.stack.take(m.stack.len() - 2));
                self.stack_write(address as usize, value);
                Ok(Action::Continue)
            },
            OperationCode::Sv => {
                match self.base_register_read(x) {
                    Err(e) => Err(e),
                    Ok(base) => {
                        if self.depth == 0 {
                            return Err(VmError::StackUnderflow);
                        }
                        let address = base as i64 + y as i64;
                        if address < 0 || address >= self.depth as i64 - 1 {
                            return Err(VmError::MemoryFault);
                        }
                        let value = self.stack_pop();
                        self.stack_write(address as usize, value);
                        Ok(Action::Continue)
                    },
                }
            },
            _ => {
                if self.depth == 0 {
                    return Err(VmError::StackUnderflow);
                }
                if x != 0 && x != 1 {
                    return Err(VmError::BadBaseRegister);
                }
                let top = self.stack[self.depth - 1];
                assert(top == m.stack.last());
                if top < 0 {
                    return Err(VmError::BadOperand);
                }
                self.stack_pop();
                if x == 0 {
                    self.global_top_address = top as usize;
                } else {
                    self.frame_top_address = top as usize;
                }
                Ok(Action::Continue)
            },
        }
    }

    /// Moves the program counter to `target` when it is an index of the program.
    fn jump_to(&mut self, target: Option<usize>) -> (r: Result<Action, VmError>)
        requires
            old(self).wf(),
            old(self).state() == RunState::Running,
            target matches Some(t) ==> t < old(self).program().len(),
        ensures
            final(self).wf(),
            final(self).program() == old(self).program(),
            final(self).state() == old(self).state(),
            final(self).trace() == old(self).trace(),
            match target {
                Some(t) => r == Ok::<Action, VmError>(Action::Continue) && final(self).model()
                    == at_pc(old(self).model(), t as nat),
                None => r == Err::<Action, VmError>(VmError::PcOutOfRange) && final(self).model()
                    == old(self).model(),
            },
    {
        match target {
            Some(t) => {
                self.program_counter = t;
                Ok(Action::Continue)
            },
            None => Err(VmError::PcOutOfRange),
        }
    }

    /// Runs `B`, `BZ`, `CALL` or `RET`.
    fn exec_control(&mut self, op: OperationCode, x: i32) -> (r: Result<Action, VmError>)
        requires
            old(self).wf(),
            old(self).state() == RunState::Running,
        ensures
            settled(
                *old(self),
                *final(self),
                control_step(old(self).model(), op, x, old(self).program().len()),
                r,
            ),
    {
        let ghost m = self.model();
        let len = self.code.len();
        match op {
            OperationCode::B => {
                let target = jump_target(self.program_counter, x, len);
                self.jump_to(target)
            },
            OperationCode::Bz => {
                if self.depth == 0 {
                    return Err(VmError::StackUnderflow);
                }
                let top = self.stack[self.depth - 1];
                assert(top == m.stack.last());
                if top == 0 {
                    let target = jump_target(self.program_counter, x, len);
                    if target.is_none() {
                        return Err(VmError::PcOutOfRange);
                    }
                    self.stack_pop();
                    self.jump_to(target)
                } else {
                    self.stack_pop();
                    Ok(Action::Continue)
                }
            },
            OperationCode::Call => {
                if self.stack.len() - self.depth < 3 {
                    return Err(VmError::MemoryFault);
                }
                if self.program_counter > i32::MAX as usize {
                    return Err(VmError::PcOutOfRange);
                }
                if x < 0 || x as usize >= len {
                    return Err(VmError::PcOutOfRange);
                }
                let frame = self.depth;
                let saved_frame = self.frame_top_address as i32;
                let saved_pc = self.program_counter as i32;
                self.stack_push(0);
                self.stack_push(saved_frame);
                self.stack_push(saved_pc);
                assert(m.stack.push(0).push(saved_frame).push(saved_pc) =~= m.stack + seq![
                    0i32,
                    m.b1 as i32,
                    m.pc as i32,
                ]);
                self.frame_top_address = frame;
                self.program_counter = x as usize;
                Ok(Action::Continue)
            },
            _ => {
                let header = self.frame_top_address;
                if header + 3 > self.depth {
                    return Err(VmError::MemoryFault);
                }
                let saved_frame = self.stack[header + 1];
                let saved_pc = self.stack[header + 2];
                assert(saved_frame == m.stack[header + 1]);
                assert(saved_pc == m.stack[header + 2]);
                if saved_frame < 0 {
                    return Err(VmError::BadOperand);
                }
                if saved_pc < 0 || saved_pc as usize >= len {
                    return Err(VmError::PcOutOfRange);
                }
                self.depth = header + 1;
                assert(self.stack@.take(self.depth as int) =~= m.stack.take(header + 1));
                self.frame_top_address = saved_frame as usize;
                self.program_counter = saved_pc as usize;
                Ok(Action::Continue)
            },
        }
    }

    /// Runs `GETC`, `GETI`, `PUTC` or `PUTI`, with what was read for it.
    fn exec_io(&mut self, op: OperationCode, input: Option<Input>) -> (r: Result<Action, VmError>)
        requires
            old(self).wf(),
            old(self).state() == RunState::Running,
        ensures
            settled(*old(self), *final(self), io_step(old(self).model(), op, input), r),
    {
        let ghost m = self.model();
        match op {
            OperationCode::Getc => match input {
                Some(Input::Byte(b)) => self.stack_push(b as i32),
                _ => Err(VmError::IoEnd),
            },
            OperationCode::Geti => match input {
                Some(Input::Line(l)) => match parse_decimal(trim_spaces(l.as_str())) {
                    Some(v) => self.stack_push(v),
                    None => Err(VmError::IoFormat),
                },
                _ => Err(VmError::IoEnd),
            },
            OperationCode::Putc => {
                if self.depth == 0 {
                    return Err(VmError::StackUnderflow);
                }
                let top = self.stack[self.depth - 1];
                assert(top == m.stack.last());
                if top < 0 {
                    return Err(VmError::BadOperand);
                }
                match char_from_code(top as u32) {
                    None => Err(VmError::BadOperand),
                    Some(c) => {
                        self.stack_pop();
                        Ok(Action::PutChar(c))
                    },
                }
            },
            _ => {
                if self.depth == 0 {
                    return Err(VmError::StackUnderflow);
                }
                let top = self.stack_pop();
                Ok(Action::PutInt(top))
            },
        }
    }

    /// Pops two values and pushes what the binary operation `op` makes of
    /// them; the top is the right-hand operand.
    fn perform_operation(&mut self, op: OperationCode) -> (r: Result<Action, VmError>)
        requires
            old(self).wf(),
            old(self).state() == RunState::Running,
            is_binary(op),
        ensures
            settled(*old(self), *final(self), arith_step(old(self).model(), op), r),
    {
        let ghost m = self.model();
        if self.depth < 2 {
            return Err(VmError::StackUnderflow);
        }
        let top_value = self.stack[self.depth - 1];
        let bottom_value = self.stack[self.depth - 2];
        assert(top_value == m.stack[m.stack.len() - 1]);
        assert(bottom_value == m.stack[m.stack.len() - 2]);
        let result = match op {
            OperationCode::Add => add_fn(bottom_value, top_value),
            OperationCode::Sub => sub_fn(bottom_value, top_value),
            OperationCode::Mul => mul_fn(bottom_value, top_value),
            OperationCode::Div => {
                if top_value == 0 {
                    return Err(VmError::DivideByZero);
                }
                div_fn(bottom_value, top_value)
            },
            OperationCode::Mod => {
                if top_value == 0 {
                    return Err(VmError::DivideByZero);
                }
                mod_fn(bottom_value, top_value)
            },
            OperationCode::Eq => eq_fn(bottom_value, top_value),
            OperationCode::Ne => ne_fn(bottom_value, top_value),
            OperationCode::Gt => gt_fn(bottom_value, top_value),
            OperationCode::Lt => lt_fn(bottom_value, top_value),
            OperationCode::Ge => ge_fn(bottom_value, top_value),
            _ => le_fn(bottom_value, top_value),
        };
        let below = self.depth - 2;
        self.stack_pop();
        self.stack_write(below, result);
        assert(m.stack.drop_last().update(m.stack.len() - 2, result) =~= m.stack.take(
            m.stack.len() - 2,
        ).push(result));
        Ok(Action::Continue)
    }

    /// Runs `instruction`, with the program counter already past it.
    fn exec_instruction(&mut self, instruction: Instruction, input: Option<Input>) -> (r: Result<
        Action,
        VmError,
    >)
        requires
            old(self).wf(),
            old(self).state() == RunState::Running,
            instruction.well_formed(),
        ensures
            settled(
                *old(self),
                *final(self),
                execute(old(self).model(), instruction, old(self).program().len(), input),
                r,
            ),
    {
        let op = instruction.operation_code;
        let x = match instruction.operand[0] {
            Some(v) => v,
            None => 0,
        };
        let y = match instruction.operand[1] {
            Some(v) => v,
            None => 0,
        };
        match op {
            OperationCode::Isp | OperationCode::La | OperationCode::Lv | OperationCode::Lc
            | OperationCode::Li | OperationCode::Dup | OperationCode::Si | OperationCode::Sv
            | OperationCode::Sb => self.exec_memory(op, x, y),
            OperationCode::B | OperationCode::Bz | OperationCode::Call | OperationCode::Ret => self.exec_control(op, x),
            OperationCode::Getc | OperationCode::Geti | OperationCode::Putc | OperationCode::Puti => self.exec_io(op, input),
            _ => self.exec_arith(op),
        }
    }

    /// One fetch-execute step: fetches the instruction at the program
    /// counter, moves the counter past it and runs it, with `input` as what
    /// was read for an instruction that reads. `EXIT` and every error halt the
    /// machine; an error leaves the rest of it as it was.
    pub fn step(&mut self, input: Option<Input>) -> (r: Result<Action, VmError>)
        requires
            old(self).wf(),
            old(self).state() != RunState::Halted,
        ensures
            final(self).wf(),
            final(self).program() == old(self).program(),
            final(self).trace() == old(self).trace(),
            match step_spec(old(self).model(), old(self).program(), input) {
                Ok((m, a)) => {
                    &&& r == Ok::<Action, VmError>(a)
                    &&& final(self).model() == m
                    &&& final(self).state() == if a is Exit {
                        RunState::Halted
                    } else {
                        RunState::Running
                    }
                },
                Err(e) => {
                    &&& r == Err::<Action, VmError>(e)
                    &&& final(self).model() == old(self).model()
                    &&& final(self).state() == RunState::Halted
                },
            },
    {
        if self.program_counter >= self.code.len() {
            self.run_state = RunState::Halted;
            return Err(VmError::PcOutOfRange);
        }
        let pc = self.program_counter;
        let instruction = self.code.get_instruction(pc);
        self.run_state = RunState::Running;
        self.program_counter = pc + 1;
        let r = self.exec_instruction(instruction, input);
        match r {
            Ok(Action::Exit(_)) => {
                self.run_state = RunState::Halted;
            },
            Ok(_) => {},
            Err(_) => {
                self.program_counter = pc;
                self.run_state = RunState::Halted;
            },
        }
        r
    }

    /// Runs an arithmetic or comparison operation, `INV` or `EXIT`.
    fn exec_arith(&mut self, op: OperationCode) -> (r: Result<Action, VmError>)
        requires
            old(self).wf(),
            old(self).state() == RunState::Running,
            is_binary(op) || op == OperationCode::Inv || op == OperationCode::Exit,
        ensures
            settled(*old(self), *final(self), arith_step(old(self).model(), op), r),
    {
        let ghost m = self.model();
        match op {
            OperationCode::Exit => {
                if self.depth == 0 {
                    Ok(Action::Exit(0))
                } else {
                    let top = self.stack_pop();
                    Ok(Action::Exit(top))
                }
            },
            OperationCode::Inv => {
                if self.depth == 0 {
                    return Err(VmError::StackUnderflow);
                }
                let top = self.stack[self.depth - 1];
                assert(top == m.stack.last());
                self.stack_write(self.depth - 1, 0i32.wrapping_sub(top));
                Ok(Action::Continue)
            },
            _ => self.perform_operation(op),
        }
    }
}

/// Two's-complement sum.
fn add_fn(a: i32, b: i32) -> (r: i32)
    ensures
        r == binary_result(OperationCode::Add, a, b),
{
    a.wrapping_add(b)
}

/// Two's-complement difference.
fn sub_fn(a: i32, b: i32) -> (r: i32)
    ensures
        r == binary_result(OperationCode::Sub, a, b),
{
    a.wrapping_sub(b)
}

/// Two's-complement product.
fn mul_fn(a: i32, b: i32) -> (r: i32)
    ensures
        r == binary_result(OperationCode::Mul, a, b),
{
    a.wrapping_mul(b)
}

/// The quotient rounded toward zero fits in `i32` except for `i32::MIN / -1`.
proof fn lemma_quotient_range(a: i32, b: i32)
    requires
        b != 0,
        !(a == i32::MIN && b == -1),
    ensures
        i32::MIN <= trunc_div(a as int, b as int) <= i32::MAX,
{
    let x = abs(a as int);
    let d = abs(b as int);
    lemma_div_pos_is_pos(x, d);
    lemma_div_is_ordered_by_denominator(x, 1, d);
    assert(x / 1 == x);
    if a == i32::MIN && d >= 2 {
        lemma_div_is_ordered_by_denominator(x, 2, d);
    }
}

/// Quotient rounded toward zero; `i32::MIN / -1` wraps to `i32::MIN`.
fn div_fn(a: i32, b: i32) -> (r: i32)
    requires
        b != 0,
    ensures
        r == binary_result(OperationCode::Div, a, b),
{
    proof {
        if !(a == i32::MIN && b == -1) {
            lemma_quotient_range(a, b);
        }
    }
    match a.checked_div(b) {
        Some(q) => q,
        None => i32::MIN,
    }
}

/// Remainder with the sign of `a`; `i32::MIN % -1` is 0.
fn mod_fn(a: i32, b: i32) -> (r: i32)
    requires
        b != 0,
    ensures
        r == binary_result(OperationCode::Mod, a, b),
{
    proof {
        let x = abs(a as int);
        let d = abs(b as int);
        lemma_fundamental_div_mod(x, d);
        assert(trunc_rem(a as int, b as int) == (if a < 0 {
            -(x % d)
        } else {
            x % d
        })) by (nonlinear_arith)
            requires
                x == d * (x / d) + (x % d),
                x == abs(a as int),
                d == abs(b as int),
                b != 0,
        ;
    }
    match a.checked_rem(b) {
        Some(q) => q,
        None => 0,
    }
}

/// 1 when equal.
fn eq_fn(a: i32, b: i32) -> (r: i32)
    ensures
        r == binary_result(OperationCode::Eq, a, b),
{
    if a == b {
        1
    } else {
        0
    }
}

/// 1 when different.
fn ne_fn(a: i32, b: i32) -> (r: i32)
    ensures
        r == binary_result(OperationCode::Ne, a, b),
{
    if a != b {
        1
    } else {
        0
    }
}

/// 1 when `a > b`.
fn gt_fn(a: i32, b: i32) -> (r: i32)
    ensures
        r == binary_result(OperationCode::Gt, a, b),
{
    if a > b {
        1
    } else {
        0
    }
}

/// 1 when `a < b`.
fn lt_fn(a: i32, b: i32) -> (r: i32)
    ensures
        r == binary_result(OperationCode::Lt, a, b),
{
    if a < b {
        1
    } else {
        0
    }
}

/// 1 when `a >= b`.
fn ge_fn(a: i32, b: i32) -> (r: i32)
    ensures
        r == binary_result(OperationCode::Ge, a, b),
{
    if a >= b {
        1
    } else {
        0
    }
}

/// 1 when `a <= b`.
fn le_fn(a: i32, b: i32) -> (r: i32)
    ensures
        r == binary_result(OperationCode::Le, a, b),
{
    if a <= b {
        1
    } else {
        0
    }
}

} // verus!
