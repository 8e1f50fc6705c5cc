//! What holds of every step of the machine, proved over the step function
//! that `Vsm::step` follows.
use vstd::prelude::*;

use crate::code::{Instruction, OperationCode};
use crate::vsm::{Action, Input, Machine, VmError, is_binary, step_spec};

verus! {

/// The instructions that can move the program counter elsewhere than to
/// the next instruction, or stop the machine.
pub open spec fn is_transfer(op: OperationCode) -> bool {
    match op {
        OperationCode::B | OperationCode::Bz | OperationCode::Call | OperationCode::Ret
        | OperationCode::Exit => true,
        _ => false,
    }
}

/// A successful step fetched at an index of the program, and the program
/// counter it leaves is an index of the program, unless the step was `EXIT`
/// or ran the last instruction and went on to the end.
pub proof fn lemma_step_pc(m: Machine, prog: Seq<Instruction>, input: Option<Input>)
    requires
        step_spec(m, prog, input) is Ok,
    ensures
        m.pc < prog.len(),
        ({
            let (next, action) = step_spec(m, prog, input)->Ok_0;
            &&& next.pc <= prog.len()
            &&& action is Exit || next.pc < prog.len() || next.pc == m.pc + 1 == prog.len()
        }),
{
}

/// A successful step keeps the stack within its bound, and the bound as it
/// was.
pub proof fn lemma_step_bound(m: Machine, prog: Seq<Instruction>, input: Option<Input>)
    requires
        m.stack.len() <= m.bound,
        step_spec(m, prog, input) is Ok,
    ensures
        ({
            let next = step_spec(m, prog, input)->Ok_0.0;
            next.bound == m.bound && next.stack.len() <= next.bound
        }),
{
}

/// Frames nest above the globals: `B0 <= B1 <= stack length`.
pub open spec fn frames_nest(m: Machine) -> bool {
    m.b0 <= m.b1 <= m.stack.len()
}

/// How many values an instruction takes off the stack for good.
pub open spec fn net_pops(op: OperationCode) -> nat {
    match op {
        OperationCode::Si => 2,
        OperationCode::Sv | OperationCode::Sb | OperationCode::Bz | OperationCode::Putc
        | OperationCode::Puti | OperationCode::Exit => 1,
        _ => if is_binary(op) {
            1
        } else {
            0
        },
    }
}

/// `ins` run on `m` keeps frames nested: `SB` sets a register within the
/// nesting, `RET` restores a frame base within it, and no other instruction
/// pops below the current frame base.
pub open spec fn keeps_frames(m: Machine, ins: Instruction) -> bool {
    let s = m.stack;
    let n = s.len();
    let x = ins.operand[0]->0;
    match ins.operation_code {
        OperationCode::Sb => n > 0 && (x == 0 ==> s.last() <= m.b1 < n) && (x == 1 ==> m.b0
            <= s.last() < n),
        OperationCode::Ret => m.b1 + 3 <= n && m.b0 <= s[m.b1 as int + 1] <= m.b1 + 1,
        _ => n >= m.b1 + net_pops(ins.operation_code),
    }
}

/// A successful step from a machine whose frames nest leaves them nested,
/// when the instruction keeps frames (`keeps_frames`).
pub proof fn lemma_frames_nest(m: Machine, prog: Seq<Instruction>, input: Option<Input>)
    requires
        frames_nest(m),
        m.pc < prog.len(),
        keeps_frames(m, prog[m.pc as int]),
        step_spec(m, prog, input) is Ok,
    ensures
        frames_nest(step_spec(m, prog, input)->Ok_0.0),
{
}

/// A successful arithmetic or comparison step takes one value off the
/// stack; `INV` keeps its length.
pub proof fn lemma_arith_net_arity(m: Machine, prog: Seq<Instruction>, input: Option<Input>)
    requires
        m.pc < prog.len(),
        is_binary(prog[m.pc as int].operation_code) || prog[m.pc as int].operation_code
            == OperationCode::Inv,
        step_spec(m, prog, input) is Ok,
    ensures
        ({
            let next = step_spec(m, prog, input)->Ok_0.0;
            next.stack.len() == m.stack.len() - if is_binary(prog[m.pc as int].operation_code) {
                1int
            } else {
                0int
            }
        }),
{
}

/// `DIV` and `MOD` with zero on top of the stack raise `DivideByZero`.
pub proof fn lemma_divide_by_zero(m: Machine, prog: Seq<Instruction>, input: Option<Input>)
    requires
        m.pc < prog.len(),
        prog[m.pc as int].operation_code == OperationCode::Div || prog[m.pc as int].operation_code
            == OperationCode::Mod,
        m.stack.len() >= 2,
        m.stack.last() == 0,
    ensures
        step_spec(m, prog, input) == Err::<(Machine, Action), VmError>(VmError::DivideByZero),
{
}

/// `ISP` with a negative operand raises `BadOperand`.
pub proof fn lemma_negative_reserve(m: Machine, prog: Seq<Instruction>, input: Option<Input>)
    requires
        m.pc < prog.len(),
        prog[m.pc as int].operation_code == OperationCode::Isp,
        prog[m.pc as int].operand[0] matches Some(k) && k < 0,
    ensures
        step_spec(m, prog, input) == Err::<(Machine, Action), VmError>(VmError::BadOperand),
{
}

/// Running past the end of a program is an error: the last instruction,
/// unless it jumps or stops, leaves the program counter at the end, and a
/// fetch there raises `PcOutOfRange`.
pub proof fn lemma_run_off_end(
    m: Machine,
    prog: Seq<Instruction>,
    input: Option<Input>,
    later: Option<Input>,
)
    requires
        m.pc + 1 == prog.len(),
        !is_transfer(prog[m.pc as int].operation_code),
        step_spec(m, prog, input) is Ok,
    ensures
        step_spec(m, prog, input)->Ok_0.0.pc == prog.len(),
        step_spec(step_spec(m, prog, input)->Ok_0.0, prog, later) == Err::<
            (Machine, Action),
            VmError,
        >(VmError::PcOutOfRange),
{
}

/// Pushing an address, duplicating it and storing it through itself (`LC a`,
/// `DUP`, `SI`) leaves `a` at address `a`, the rest of the stack and the
/// registers as they were: a no-op at that address when it already held `a`.
pub proof fn lemma_store_own_address(m: Machine, prog: Seq<Instruction>, a: i32)
    requires
        m.pc + 3 <= prog.len(),
        prog[m.pc as int] == (Instruction {
            operation_code: OperationCode::Lc,
            operand: [Some(a), None],
        }),
        prog[m.pc as int + 1].operation_code == OperationCode::Dup,
        prog[m.pc as int + 2].operation_code == OperationCode::Si,
        0 <= a < m.stack.len(),
        m.stack.len() + 2 <= m.bound,
    ensures
        ({
            let r1 = step_spec(m, prog, None);
            let r2 = step_spec(r1->Ok_0.0, prog, None);
            let r3 = step_spec(r2->Ok_0.0, prog, None);
            let last = r3->Ok_0.0;
            &&& r1 is Ok && r2 is Ok && r3 is Ok
            &&& last == Machine { pc: m.pc + 3, stack: m.stack.update(a as int, a), ..m }
            &&& m.stack[a as int] == a ==> last == Machine { pc: m.pc + 3, ..m }
        }),
{
    let r1 = step_spec(m, prog, None);
    let m1 = r1->Ok_0.0;
    assert(m1.stack == m.stack.push(a));
    let r2 = step_spec(m1, prog, None);
    let m2 = r2->Ok_0.0;
    assert(m2.stack == m.stack.push(a).push(a));
    let r3 = step_spec(m2, prog, None);
    assert(m2.stack.take(m2.stack.len() - 2) =~= m.stack);
    assert(m.stack[a as int] == a ==> m.stack.update(a as int, a) =~= m.stack);
}

} // verus!
