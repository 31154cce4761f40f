//! The instruction set and the source character of each instruction.

use vstd::prelude::*;

verus! {

/// One instruction of the machine. Each variant stands for one source
/// character; every other character is a comment.
#[derive(Clone, Copy, Debug, PartialEq, Eq, Structural)]
pub enum Instruction {
    /// `>`: move the data pointer one cell to the right.
    IncrementDatapointer,
    /// `<`: move the data pointer one cell to the left.
    DecrementDatapointer,
    /// `+`: add one to the current cell, wrapping past 255.
    IncrementValue,
    /// `-`: subtract one from the current cell, wrapping past 0.
    DecrementValue,
    /// `.`: emit the current cell.
    Output,
    /// `,`: store one byte of input in the current cell.
    Input,
    /// `[`: skip past the matching `]` when the current cell is zero.
    BeginLoop,
    /// `]`: go back to the matching `[` when the current cell is not zero.
    EndLoop,
}

/// The instruction that a source character stands for, if it stands for one.
pub open spec fn decode(c: char) -> Option<Instruction> {
    if c == '>' {
        Some(Instruction::IncrementDatapointer)
    } else if c == '<' {
        Some(Instruction::DecrementDatapointer)
    } else if c == '+' {
        Some(Instruction::IncrementValue)
    } else if c == '-' {
        Some(Instruction::DecrementValue)
    } else if c == '.' {
        Some(Instruction::Output)
    } else if c == ',' {
        Some(Instruction::Input)
    } else if c == '[' {
        Some(Instruction::BeginLoop)
    } else if c == ']' {
        Some(Instruction::EndLoop)
    } else {
        None
    }
}

impl Instruction {
    /// Whether this instruction opens or closes a loop.
    pub open spec fn is_bracket(self) -> bool {
        self == Instruction::BeginLoop || self == Instruction::EndLoop
    }

    /// Decodes one source character.
    pub fn from_char(c: char) -> (r: Option<Instruction>)
        ensures
            r == decode(c),
    {
        match c {
            '>' => Some(Instruction::IncrementDatapointer),
            '<' => Some(Instruction::DecrementDatapointer),
            '+' => Some(Instruction::IncrementValue),
            '-' => Some(Instruction::DecrementValue),
            '.' => Some(Instruction::Output),
            ',' => Some(Instruction::Input),
            '[' => Some(Instruction::BeginLoop),
            ']' => Some(Instruction::EndLoop),
            _ => None,
        }
    }
}

} // verus!
