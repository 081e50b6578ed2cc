//! The eight opcodes of the language, their source-byte encoding, and instructions that
//! remember where in the source they stood.

use vstd::prelude::*;
use vstd::string::StringExecFns;
use crate::text::{decimal, push_decimal};

verus! {

/// Raw bytecodes for the Brainf*ck VM.
#[derive(Clone, Copy, Debug, PartialEq, Eq, Structural)]
pub enum Instruction {
    /// Move the tape left one step.
    MoveLeft,
    /// Move the tape right one step.
    MoveRight,
    /// Increment the value at the current position of the tape.
    Increment,
    /// Decrement the value at the current position of the tape.
    Decrement,
    /// Receive one byte of data and store it in the current position of the tape.
    Input,
    /// Output the data at the current position of the tape.
    Output,
    /// If the value at the current position of the tape is zero, jump forward to the matching
    /// end of loop.
    BeginLoop,
    /// If the value at the current position of the tape is not zero, jump backward to the
    /// matching begin of loop.
    EndLoop,
}

/// The opcode that a source byte stands for, if it stands for one.
pub open spec fn opcode_of(c: u8) -> Option<Instruction> {
    if c == 0x3c {
        Some(Instruction::MoveLeft)
    } else if c == 0x3e {
        Some(Instruction::MoveRight)
    } else if c == 0x2b {
        Some(Instruction::Increment)
    } else if c == 0x2d {
        Some(Instruction::Decrement)
    } else if c == 0x2c {
        Some(Instruction::Input)
    } else if c == 0x2e {
        Some(Instruction::Output)
    } else if c == 0x5b {
        Some(Instruction::BeginLoop)
    } else if c == 0x5d {
        Some(Instruction::EndLoop)
    } else {
        None
    }
}

impl Instruction {
    /// The sentence that says what the instruction does.
    pub open spec fn description_text(self) -> Seq<char> {
        match self {
            Instruction::MoveLeft => "Move left one location"@,
            Instruction::MoveRight => "Move right one location"@,
            Instruction::Increment => "Increment current location"@,
            Instruction::Decrement => "Decrement current location"@,
            Instruction::Input => "Accept one byte of input"@,
            Instruction::Output => "Output the current byte"@,
            Instruction::BeginLoop => "Start looping"@,
            Instruction::EndLoop => "Finish looping"@,
        }
    }

    /// A human-readable description of the instruction.
    pub fn description(&self) -> (r: &'static str)
        ensures
            r@ == self.description_text(),
    {
        match self {
            Instruction::MoveLeft => "Move left one location",
            Instruction::MoveRight => "Move right one location",
            Instruction::Increment => "Increment current location",
            Instruction::Decrement => "Decrement current location",
            Instruction::Input => "Accept one byte of input",
            Instruction::Output => "Output the current byte",
            Instruction::BeginLoop => "Start looping",
            Instruction::EndLoop => "Finish looping",
        }
    }

    /// Whether the instruction opens or closes a loop.
    pub open spec fn is_bracket(self) -> bool {
        self == Instruction::BeginLoop || self == Instruction::EndLoop
    }

    /// Decodes one source byte; every byte that is not an opcode is commentary.
    pub fn from_byte(c: u8) -> (r: Option<Instruction>)
        ensures
            r == opcode_of(c),
    {
        if c == 0x3c {
            Some(Instruction::MoveLeft)
        } else if c == 0x3e {
            Some(Instruction::MoveRight)
        } else if c == 0x2b {
            Some(Instruction::Increment)
        } else if c == 0x2d {
            Some(Instruction::Decrement)
        } else if c == 0x2c {
            Some(Instruction::Input)
        } else if c == 0x2e {
            Some(Instruction::Output)
        } else if c == 0x5b {
            Some(Instruction::BeginLoop)
        } else if c == 0x5d {
            Some(Instruction::EndLoop)
        } else {
            None
        }
    }
}

/// Annotated bytecode instruction: an opcode with the place in the source where it was read.
///
/// Lines and columns count from one; a column counts every byte of its line, whether it is
/// an opcode or not.
#[derive(Clone, Copy, Debug, PartialEq, Eq, Structural)]
pub struct InputInstruction {
    /// The opcode.
    pub inst: Instruction,
    /// The line of the source that held it.
    pub line_number: usize,
    /// The byte of that line that held it.
    pub char_number: usize,
}

impl InputInstruction {
    /// The text `line:column`, both in decimal.
    pub open spec fn location_text(self) -> Seq<char> {
        decimal(self.line_number as nat) + seq![':'] + decimal(self.char_number as nat)
    }

    /// A string representation of the instruction's location in the file.
    pub fn location(&self) -> (r: String)
        ensures
            r@ == self.location_text(),
    {
        let mut r = String::new();
        push_decimal(&mut r, self.line_number);
        proof {
            reveal_strlit(":");
        }
        r.append(":");
        push_decimal(&mut r, self.char_number);
        assert(r@ =~= self.location_text());
        r
    }

    /// Extract the underlying instruction.
    pub fn instruction(&self) -> (r: &Instruction)
        ensures
            *r == self.inst,
    {
        &self.inst
    }
}

/// The opcodes of a sequence of annotated instructions, in order.
pub open spec fn opcodes(instructions: Seq<InputInstruction>) -> Seq<Instruction> {
    Seq::new(instructions.len(), |i: int| instructions[i].inst)
}

} // verus!
