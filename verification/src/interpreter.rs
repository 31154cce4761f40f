//! The executable machine.

use std::collections::HashMap;
use vstd::prelude::*;
use crate::error::RuntimeError;
use crate::execution::Execution;
use crate::instruction::Instruction;
use crate::machine::{jumps_cover, Machine, TAPE_LEN};

verus! {

broadcast use vstd::std_specs::hash::group_hash_axioms;

/// A machine with its program loaded: the tape, the two pointers, the
/// program and the jump table of its loops.
pub struct Brainfuck {
    tape: Vec<u8>,
    instruction_pointer: usize,
    data_pointer: usize,
    code: Vec<Instruction>,
    matched_loops: HashMap<usize, usize>,
}

impl View for Brainfuck {
    type V = Machine;

    closed spec fn view(&self) -> Machine {
        Machine {
            code: self.code@,
            jumps: self.matched_loops@,
            tape: self.tape@,
            instruction_pointer: self.instruction_pointer as int,
            data_pointer: self.data_pointer as int,
        }
    }
}

impl Brainfuck {
    /// The invariant of a machine: that of its state.
    pub open spec fn wf(&self) -> bool {
        self@.wf()
    }

    /// Whether `matched_loops` can serve as the jump table of `instructions`:
    /// whether it holds a target inside the program for every loop
    /// instruction. This is what [`new`](Brainfuck::new) asks of its
    /// arguments.
    pub fn accepts(instructions: &Vec<Instruction>, matched_loops: &HashMap<usize, usize>) -> (ok:
        bool)
        ensures
            ok == jumps_cover(instructions@, matched_loops@),
    {
        let n = instructions.len();
        let mut index: usize = 0;
        while index < n
            invariant
                n == instructions.len(),
                index <= n,
                forall|p: usize|
                    #![trigger matched_loops@.contains_key(p)]
                    p < index && instructions@[p as int].is_bracket()
                        ==> matched_loops@.contains_key(p) && matched_loops@[p] < n,
            decreases n - index,
        {
            match instructions[index] {
                Instruction::BeginLoop | Instruction::EndLoop => {
                    match matched_loops.get(&index) {
                        Some(target) => {
                            if *target >= n {
                                return false;
                            }
                        },
                        None => {
                            return false;
                        },
                    }
                },
                _ => {},
            }
            assert forall|p: usize|
                #![trigger matched_loops@.contains_key(p)]
                p < index + 1 && instructions@[p as int].is_bracket()
                implies matched_loops@.contains_key(p) && matched_loops@[p] < n by {
                if p < index {
                    assert(matched_loops@.contains_key(p));
                }
            }
            index += 1;
        }
        true
    }

    /// A machine in its initial state: both pointers at 0 and the tape
    /// zeroed. The jump table must hold a target inside the program for
    /// every loop instruction, as the table that
    /// [`build_matched_loops`](crate::nesting::build_matched_loops) returns
    /// does.
    pub fn new(instructions: Vec<Instruction>, matched_loops: HashMap<usize, usize>) -> (bf: Self)
        requires
            jumps_cover(instructions@, matched_loops@),
        ensures
            bf.wf(),
            bf@ == Machine::initial(instructions@, matched_loops@),
    {
        let bf = Brainfuck {
            tape: vec![0u8; TAPE_LEN],
            instruction_pointer: 0,
            data_pointer: 0,
            code: instructions,
            matched_loops,
        };
        assert(bf.tape@ =~= Machine::initial(instructions@, matched_loops@).tape);
        assert(bf.code@.len() == bf.code.len());
        bf
    }

    /// The position of the next instruction to execute.
    pub fn instruction_pointer(&self) -> (position: usize)
        ensures
            position == self@.instruction_pointer,
    {
        self.instruction_pointer
    }

    /// The position of the current cell.
    pub fn data_pointer(&self) -> (position: usize)
        ensures
            position == self@.data_pointer,
    {
        self.data_pointer
    }

    /// The cells of the tape.
    pub fn tape(&self) -> (cells: &Vec<u8>)
        ensures
            cells@ == self@.tape,
    {
        &self.tape
    }

    /// Whether the machine is in its terminal state.
    pub fn is_finished(&self) -> (done: bool)
        ensures
            done == self@.finished(),
    {
        self.instruction_pointer >= self.code.len()
    }

    /// The instruction that the next step executes; `None` in the terminal
    /// state.
    pub fn current(&self) -> (instruction: Option<Instruction>)
        ensures
            instruction == if self@.finished() {
                None
            } else {
                Some(self@.current())
            },
    {
        if self.instruction_pointer < self.code.len() {
            Some(self.code[self.instruction_pointer])
        } else {
            None
        }
    }

    /// Runs the machine until it is in its terminal state or faults. The
    /// input instructions read the bytes of `input` in order, and every
    /// emitted byte is appended to `output`. There is no limit on the number
    /// of steps; the contract speaks of the runs that come to an end.
    pub fn run(&mut self, input: &[u8], output: &mut Vec<u8>) -> (r: Result<(), RuntimeError>)
        requires
            old(self).wf(),
            Execution::start(old(self)@).halts(input@),
        ensures
            final(self).wf(),
            final(self)@.code == old(self)@.code,
            final(self)@.jumps == old(self)@.jumps,
            ({
                let end = Execution::start(old(self)@).outcome(input@);
                &&& final(self)@ == end.machine
                &&& final(output)@ == old(output)@ + end.emitted
                &&& r == match end.fault(input@) {
                    Some(e) => Err::<(), RuntimeError>(e),
                    None => Ok::<(), RuntimeError>(()),
                }
            }),
            r is Ok <==> final(self)@.finished(),
    {
        let ghost begin = Execution::start(self@);
        let ghost before = output@;
        let ghost mut left: nat = choose|steps: nat| begin.halts_within(input@, steps);
        let ghost mut here = begin;
        let mut consumed: usize = 0;
        proof {
            assert(output@ =~= before + here.emitted);
        }
        loop
            invariant
                self.wf(),
                begin == Execution::start(old(self)@),
                begin.halts(input@),
                self@.code == begin.machine.code,
                self@.jumps == begin.machine.jumps,
                before == old(output)@,
                consumed <= input.len(),
                here == (Execution { machine: self@, consumed: consumed as nat, emitted: here.emitted }),
                output@ == before + here.emitted,
                here.halts_within(input@, left),
                here.after(input@, left) == begin.outcome(input@),
            decreases left,
        {
            if self.is_finished() {
                return Ok(());
            }
            let byte = if consumed < input.len() {
                Some(input[consumed])
            } else {
                None
            };
            let reads = match self.current() {
                Some(Instruction::Input) => true,
                _ => false,
            };
            match self.process_instruction(byte) {
                Err(e) => {
                    return Err(e);
                },
                Ok(out) => {
                    if reads {
                        consumed += 1;
                    }
                    match out {
                        Some(value) => {
                            output.push(value);
                        },
                        None => {},
                    }
                    proof {
                        assert(output@ =~= before + here.next(input@).emitted);
                        here = here.next(input@);
                        left = (left - 1) as nat;
                    }
                },
            }
        }
    }

    /// Executes the current instruction and advances the instruction
    /// pointer. `input` is the byte on offer to an input instruction, `None`
    /// when the input is exhausted. Returns the byte emitted, if any. On a
    /// fault the machine stays as it was.
    pub fn process_instruction(&mut self, input: Option<u8>) -> (r: Result<
        Option<u8>,
        RuntimeError,
    >)
        requires
            old(self).wf(),
            !old(self)@.finished(),
        ensures
            final(self).wf(),
            final(self)@.code == old(self)@.code,
            final(self)@.jumps == old(self)@.jumps,
            match old(self)@.step(input) {
                Ok((next, out)) => r == Ok::<Option<u8>, RuntimeError>(out) && final(self)@ == next,
                Err(e) => r == Err::<Option<u8>, RuntimeError>(e) && final(self)@ == old(self)@,
            },
    {
        let instruction = self.code[self.instruction_pointer];
        let mut out: Option<u8> = None;
        match instruction {
            Instruction::IncrementDatapointer => {
                if self.data_pointer + 1 >= TAPE_LEN {
                    return Err(RuntimeError::TapeBounds);
                }
                self.data_pointer += 1;
            },
            Instruction::DecrementDatapointer => {
                if self.data_pointer == 0 {
                    return Err(RuntimeError::TapeBounds);
                }
                self.data_pointer -= 1;
            },
            Instruction::IncrementValue => {
                let value = self.tape[self.data_pointer].wrapping_add(1);
                self.tape.set(self.data_pointer, value);
            },
            Instruction::DecrementValue => {
                let value = self.tape[self.data_pointer].wrapping_sub(1);
                self.tape.set(self.data_pointer, value);
            },
            Instruction::Output => {
                let value = self.tape[self.data_pointer];
                if value < 128 {
                    out = Some(value);
                }
            },
            Instruction::Input => {
                match input {
                    Some(byte) => {
                        self.tape.set(self.data_pointer, byte);
                    },
                    None => {
                        return Err(RuntimeError::InputExhausted);
                    },
                }
            },
            Instruction::BeginLoop => {
                if self.tape[self.data_pointer] == 0 {
                    self.instruction_pointer = *self.matched_loops.get(
                        &self.instruction_pointer,
                    ).unwrap();
                }
            },
            Instruction::EndLoop => {
                if self.tape[self.data_pointer] != 0 {
                    self.instruction_pointer = *self.matched_loops.get(
                        &self.instruction_pointer,
                    ).unwrap();
                }
            },
        }
        self.instruction_pointer += 1;
        Ok(out)
    }
}

} // verus!
