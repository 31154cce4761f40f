//! Whole runs: a machine that reads from a fixed input and steps until it
//! stops.

use vstd::prelude::*;
use crate::error::RuntimeError;
use crate::instruction::Instruction;
use crate::machine::{lemma_step_keeps_program, Machine};

verus! {

/// A point in a run: the machine, how many bytes of the input it has read,
/// and the bytes it has emitted so far.
pub struct Execution {
    pub machine: Machine,
    pub consumed: nat,
    pub emitted: Seq<u8>,
}

impl Execution {
    /// The run that begins at `machine`, with nothing read and nothing
    /// emitted.
    pub open spec fn start(machine: Machine) -> Execution {
        Execution { machine, consumed: 0, emitted: Seq::empty() }
    }

    /// The byte on offer to the next input instruction: the first unread
    /// byte of `input`, if one is left.
    pub open spec fn offered(self, input: Seq<u8>) -> Option<u8> {
        if self.consumed < input.len() {
            Some(input[self.consumed as int])
        } else {
            None
        }
    }

    /// The fault that the next step would raise, if it would raise one.
    pub open spec fn fault(self, input: Seq<u8>) -> Option<RuntimeError> {
        if self.machine.finished() {
            None
        } else {
            match self.machine.step(self.offered(input)) {
                Ok(_) => None,
                Err(e) => Some(e),
            }
        }
    }

    /// The run is over: the machine is in its terminal state, or its next
    /// step faults.
    pub open spec fn stopped(self, input: Seq<u8>) -> bool {
        self.machine.finished() || self.fault(input) is Some
    }

    /// The run one step on. An input instruction reads the byte on offer;
    /// an emitted byte is appended to the output.
    pub open spec fn next(self, input: Seq<u8>) -> Execution
        recommends
            !self.stopped(input),
    {
        match self.machine.step(self.offered(input)) {
            Ok((machine, out)) => Execution {
                machine,
                consumed: if self.machine.current() == Instruction::Input {
                    self.consumed + 1
                } else {
                    self.consumed
                },
                emitted: match out {
                    Some(byte) => self.emitted.push(byte),
                    None => self.emitted,
                },
            },
            Err(_) => self,
        }
    }

    /// The run after at most `steps` further steps; it stays where it is
    /// once it is over.
    pub open spec fn after(self, input: Seq<u8>, steps: nat) -> Execution
        decreases steps,
    {
        if steps == 0 || self.stopped(input) {
            self
        } else {
            self.next(input).after(input, (steps - 1) as nat)
        }
    }

    /// The run is over within `steps` steps.
    pub open spec fn halts_within(self, input: Seq<u8>, steps: nat) -> bool {
        self.after(input, steps).stopped(input)
    }

    /// The run comes to an end.
    pub open spec fn halts(self, input: Seq<u8>) -> bool {
        exists|steps: nat| self.halts_within(input, steps)
    }

    /// Where a run that comes to an end is when it is over.
    pub open spec fn outcome(self, input: Seq<u8>) -> Execution
        recommends
            self.halts(input),
    {
        self.after(input, choose|steps: nat| self.halts_within(input, steps))
    }
}

/// A run that is over within `steps` steps is in the same place after any
/// greater number of steps.
pub proof fn lemma_stays_stopped(run: Execution, input: Seq<u8>, steps: nat, more: nat)
    requires
        run.halts_within(input, steps),
    ensures
        run.after(input, steps + more) == run.after(input, steps),
    decreases steps,
{
    if steps == 0 || run.stopped(input) {
        reveal_with_fuel(Execution::after, 2);
    } else {
        lemma_stays_stopped(run.next(input), input, (steps - 1) as nat, more);
    }
}

/// The outcome of a run is where it is after any number of steps within
/// which it is over.
pub proof fn lemma_outcome(run: Execution, input: Seq<u8>, steps: nat)
    requires
        run.halts_within(input, steps),
    ensures
        run.outcome(input) == run.after(input, steps),
        run.outcome(input).stopped(input),
{
    let chosen = choose|n: nat| run.halts_within(input, n);
    assert(run.halts_within(input, chosen));
    if chosen <= steps {
        lemma_stays_stopped(run, input, chosen, (steps - chosen) as nat);
    } else {
        lemma_stays_stopped(run, input, steps, (chosen - steps) as nat);
    }
}

/// A run never touches the program or the jump table, keeps the machine
/// well formed, reads the input forwards and only adds to what it has
/// emitted.
pub proof fn lemma_run_keeps_program(run: Execution, input: Seq<u8>, steps: nat)
    requires
        run.machine.wf(),
    ensures
        run.after(input, steps).machine.wf(),
        run.after(input, steps).machine.code == run.machine.code,
        run.after(input, steps).machine.jumps == run.machine.jumps,
        run.consumed <= run.after(input, steps).consumed,
        run.emitted.is_prefix_of(run.after(input, steps).emitted),
    decreases steps,
{
    if steps == 0 || run.stopped(input) {
    } else {
        lemma_step_keeps_program(run.machine, run.offered(input));
        lemma_run_keeps_program(run.next(input), input, (steps - 1) as nat);
    }
}

} // verus!
