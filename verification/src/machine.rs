//! The abstract machine: its state and what one instruction does to it.

use vstd::prelude::*;
use crate::error::RuntimeError;
use crate::instruction::Instruction;

verus! {

/// The number of cells on the tape.
pub const TAPE_LEN: usize = 30000;

/// The cell value after an increment: one more, modulo 256.
pub open spec fn wrapping_succ(cell: u8) -> u8 {
    ((cell + 1) % 256) as u8
}

/// The cell value after a decrement: one less, modulo 256.
pub open spec fn wrapping_pred(cell: u8) -> u8 {
    ((cell - 1) % 256) as u8
}

/// What an output instruction emits for a cell value. A byte below 128 is a
/// character on its own and is emitted as it is; any other byte is no valid
/// single-byte character and nothing is emitted for it.
pub open spec fn emitted(cell: u8) -> Option<u8> {
    if cell < 128 {
        Some(cell)
    } else {
        None
    }
}

/// Whether `jumps` has a target inside the program for every loop
/// instruction of `code`.
pub open spec fn jumps_cover(code: Seq<Instruction>, jumps: Map<usize, usize>) -> bool {
    forall|p: usize|
        #![trigger jumps.contains_key(p)]
        p < code.len() && code[p as int].is_bracket() ==> jumps.contains_key(p) && jumps[p]
            < code.len()
}

/// The state of a machine. The program and its jump table never change
/// during a run; the tape and the two pointers do.
pub struct Machine {
    pub code: Seq<Instruction>,
    pub jumps: Map<usize, usize>,
    pub tape: Seq<u8>,
    pub instruction_pointer: int,
    pub data_pointer: int,
}

impl Machine {
    /// The state before the first instruction: both pointers at 0 and every
    /// cell 0.
    pub open spec fn initial(code: Seq<Instruction>, jumps: Map<usize, usize>) -> Machine {
        Machine {
            code,
            jumps,
            tape: Seq::new(TAPE_LEN as nat, |i: int| 0u8),
            instruction_pointer: 0,
            data_pointer: 0,
        }
    }

    /// The tape has its fixed length, the data pointer is on the tape, the
    /// instruction pointer is in the program or just past its end, the
    /// positions of the program fit a `usize`, and every loop instruction has
    /// a jump target.
    pub open spec fn wf(self) -> bool {
        &&& self.tape.len() == TAPE_LEN
        &&& 0 <= self.data_pointer < TAPE_LEN
        &&& 0 <= self.instruction_pointer <= self.code.len()
        &&& self.code.len() <= usize::MAX
        &&& jumps_cover(self.code, self.jumps)
    }

    /// The terminal state: the instruction pointer has run past the program.
    pub open spec fn finished(self) -> bool {
        self.instruction_pointer >= self.code.len()
    }

    /// The instruction that the next step executes.
    pub open spec fn current(self) -> Instruction
        recommends
            !self.finished(),
    {
        self.code[self.instruction_pointer]
    }

    /// The value of the cell under the data pointer.
    pub open spec fn cell(self) -> u8 {
        self.tape[self.data_pointer]
    }

    /// The jump target recorded for the current instruction.
    pub open spec fn target(self) -> int {
        self.jumps[self.instruction_pointer as usize] as int
    }

    /// This state with the instruction pointer set to `position`.
    pub open spec fn at(self, position: int) -> Machine {
        Machine { instruction_pointer: position, ..self }
    }

    /// This state with the data pointer set to `position`.
    pub open spec fn pointing_to(self, position: int) -> Machine {
        Machine { data_pointer: position, ..self }
    }

    /// This state with `value` stored in the current cell.
    pub open spec fn storing(self, value: u8) -> Machine {
        Machine { tape: self.tape.update(self.data_pointer, value), ..self }
    }

    /// One step: the effect of the current instruction, followed by an
    /// advance of the instruction pointer by one. A taken branch sets the
    /// instruction pointer to the jump target first, so control lands one
    /// past the paired bracket. `input` is the byte on offer to an input
    /// instruction, `None` when the input is exhausted; no other instruction
    /// looks at it. The result is the next state with the byte emitted, if
    /// any, or the fault that stops the machine.
    pub open spec fn step(self, input: Option<u8>) -> Result<(Machine, Option<u8>), RuntimeError>
        recommends
            self.wf(),
            !self.finished(),
    {
        let next = self.instruction_pointer + 1;
        match self.current() {
            Instruction::IncrementDatapointer => {
                if self.data_pointer + 1 < TAPE_LEN {
                    Ok((self.pointing_to(self.data_pointer + 1).at(next), None))
                } else {
                    Err(RuntimeError::TapeBounds)
                }
            },
            Instruction::DecrementDatapointer => {
                if self.data_pointer > 0 {
                    Ok((self.pointing_to(self.data_pointer - 1).at(next), None))
                } else {
                    Err(RuntimeError::TapeBounds)
                }
            },
            Instruction::IncrementValue => Ok(
                (self.storing(wrapping_succ(self.cell())).at(next), None),
            ),
            Instruction::DecrementValue => Ok(
                (self.storing(wrapping_pred(self.cell())).at(next), None),
            ),
            Instruction::Output => Ok((self.at(next), emitted(self.cell()))),
            Instruction::Input => match input {
                Some(byte) => Ok((self.storing(byte).at(next), None)),
                None => Err(RuntimeError::InputExhausted),
            },
            Instruction::BeginLoop => {
                if self.cell() == 0 {
                    Ok((self.at(self.target() + 1), None))
                } else {
                    Ok((self.at(next), None))
                }
            },
            Instruction::EndLoop => {
                if self.cell() != 0 {
                    Ok((self.at(self.target() + 1), None))
                } else {
                    Ok((self.at(next), None))
                }
            },
        }
    }
}

/// A step never touches the program or the jump table, and it leaves the
/// machine well formed: the data pointer stays on the tape and the
/// instruction pointer in the program or just past its end.
pub proof fn lemma_step_keeps_program(machine: Machine, input: Option<u8>)
    requires
        machine.wf(),
        !machine.finished(),
    ensures
        machine.step(input) matches Ok((next, _)) ==> {
            &&& next.wf()
            &&& next.code == machine.code
            &&& next.jumps == machine.jumps
        },
{
    assert(machine.jumps.contains_key(machine.instruction_pointer as usize)
        || !machine.current().is_bracket());
}

} // verus!
