//! What a machine does at the two ends of a loop, and in between.

use vstd::prelude::*;
use crate::execution::Execution;
use crate::instruction::Instruction;
use crate::machine::{wrapping_pred, wrapping_succ, Machine};
use crate::nesting::{
    balanced,
    jump_table,
    lemma_balanced_has_partner,
    lemma_nested_loops,
    lemma_partner_unique,
    matched,
    partner,
};

verus! {

/// A machine that runs a program with properly nested loops on the jump
/// table of that program.
pub open spec fn linked(machine: Machine) -> bool {
    &&& machine.wf()
    &&& balanced(machine.code)
    &&& machine.jumps == jump_table(machine.code)
}

/// The instruction pointer is at one of the ends of the loop from `open` to
/// `close`, or in its body.
pub open spec fn inside(machine: Machine, open: int, close: int) -> bool {
    open <= machine.instruction_pointer <= close
}

/// Control has left the loop that ends at `close`: the instruction pointer
/// is right behind the `]`, and the current cell is zero.
pub open spec fn left(machine: Machine, close: int) -> bool {
    machine.instruction_pointer == close + 1 && machine.cell() == 0
}

/// Cells wrap both ways. An increment instruction stores one more than the
/// cell held, a decrement instruction one less, each taken modulo 256; so
/// 255 goes to 0 and 0 to 255, and each undoes the other. No other cell
/// changes.
pub proof fn lemma_cell_arithmetic(machine: Machine, input: Option<u8>)
    requires
        machine.wf(),
        !machine.finished(),
    ensures
        machine.current() == Instruction::IncrementValue ==> (machine.step(input) matches Ok(
            (next, out),
        ) && out is None && next == machine.storing(((machine.cell() + 1) % 256) as u8).at(
            machine.instruction_pointer + 1,
        )),
        machine.current() == Instruction::DecrementValue ==> (machine.step(input) matches Ok(
            (next, out),
        ) && out is None && next == machine.storing(((machine.cell() - 1) % 256) as u8).at(
            machine.instruction_pointer + 1,
        )),
        wrapping_succ(255) == 0,
        wrapping_pred(0) == 255,
        forall|cell: u8| #[trigger] wrapping_pred(wrapping_succ(cell)) == cell,
        forall|cell: u8| #[trigger] wrapping_succ(wrapping_pred(cell)) == cell,
{
}

/// At the `[` of a loop: when the current cell is zero the body is not
/// executed and control goes to the instruction right behind the matching
/// `]`; otherwise control enters the body. Neither the tape nor the data
/// pointer changes, and nothing is emitted.
pub proof fn lemma_loop_open(machine: Machine, input: Option<u8>, close: int)
    requires
        linked(machine),
        matched(machine.code, machine.instruction_pointer, close),
    ensures
        machine.step(input) matches Ok((next, out)) && out is None && next == machine.at(
            if machine.cell() == 0 {
                close + 1
            } else {
                machine.instruction_pointer + 1
            },
        ),
{
    lemma_partner_unique(machine.code, machine.instruction_pointer, close);
}

/// At the `]` of a loop: when the current cell is not zero control goes
/// back to the first instruction of the body, right behind the matching
/// `[`; otherwise control resumes at the instruction right behind the `]`.
/// Neither the tape nor the data pointer changes, and nothing is emitted.
pub proof fn lemma_loop_close(machine: Machine, input: Option<u8>, open: int)
    requires
        linked(machine),
        matched(machine.code, open, machine.instruction_pointer),
    ensures
        machine.step(input) matches Ok((next, out)) && out is None && next == machine.at(
            if machine.cell() != 0 {
                open + 1
            } else {
                machine.instruction_pointer + 1
            },
        ),
{
    lemma_partner_unique(machine.code, open, machine.instruction_pointer);
}

/// One step from inside a loop stays inside the loop, or leaves it behind
/// its `]` with the current cell at zero.
pub proof fn lemma_loop_step(machine: Machine, input: Option<u8>, open: int, close: int)
    requires
        linked(machine),
        matched(machine.code, open, close),
        inside(machine, open, close),
    ensures
        machine.step(input) matches Ok((next, _)) ==> linked(next) && (inside(next, open, close)
            || left(next, close)),
{
    let code = machine.code;
    let p = machine.instruction_pointer;
    if code[p].is_bracket() {
        lemma_balanced_has_partner(code, p);
        let q = partner(code, p);
        if p == open || p == close {
            lemma_partner_unique(code, open, close);
        } else {
            lemma_nested_loops(code, open, close, p, q);
        }
    }
}

/// A loop runs until its condition cell is zero: a run that starts inside
/// a loop is still inside it after any number of steps, unless at some
/// step before it has left the loop behind its `]` with the current cell at
/// zero.
pub proof fn lemma_loop_runs_until_zero(
    run: Execution,
    input: Seq<u8>,
    open: int,
    close: int,
    steps: nat,
)
    requires
        linked(run.machine),
        matched(run.machine.code, open, close),
        inside(run.machine, open, close),
    ensures
        inside(run.after(input, steps).machine, open, close) || exists|k: nat|
            k <= steps && left(#[trigger] run.after(input, k).machine, close),
    decreases steps,
{
    if steps == 0 || run.stopped(input) {
    } else {
        let next = run.next(input);
        lemma_loop_step(run.machine, run.offered(input), open, close);
        if left(next.machine, close) {
            assert(run.after(input, 1) == next.after(input, 0));
            assert(left(run.after(input, 1).machine, close));
        } else {
            lemma_loop_runs_until_zero(next, input, open, close, (steps - 1) as nat);
            if !inside(run.after(input, steps).machine, open, close) {
                let k = choose|k: nat|
                    k <= steps - 1 && left(#[trigger] next.after(input, k).machine, close);
                assert(run.after(input, k + 1) == next.after(input, k));
                assert(left(run.after(input, k + 1).machine, close));
            }
        }
    }
}

} // verus!
