//! A whole program: where it came from, its instructions, and, once its brackets have been
//! matched, its jump table.

use vstd::prelude::*;
use vstd::string::StringExecFns;
use crate::brackets::{
    balanced, first_unmatched_close, innermost_unclosed, is_jump_table, jump_table_of,
    lemma_jump_table_balanced, lemma_jump_table_of, match_brackets, never_negative, BracketFault,
};
use crate::error::BracketMatchError;
use crate::instruction::{opcodes, InputInstruction, Instruction};
use crate::tokenizer::{count_opcodes, tokenize, tokens};

verus! {

/// A container to hold an entire Brainf*ck program.
#[derive(Debug)]
pub struct BFprogram {
    source_name: String,
    src: Vec<InputInstruction>,
    jump_table: Option<Vec<usize>>,
}

/// What a program is: the name of its source, its instructions in order, and its jump table
/// once validation has succeeded.
pub struct ProgramView {
    /// The name of the source.
    pub source: Seq<char>,
    /// The instructions, in the order of the source.
    pub instructions: Seq<InputInstruction>,
    /// The partner of every bracket, absent until the brackets have been matched.
    pub jump_table: Option<Seq<usize>>,
}

impl ProgramView {
    /// The opcodes of the program, in order.
    pub open spec fn ops(self) -> Seq<Instruction> {
        opcodes(self.instructions)
    }

    /// A jump table, where the program has one, is the jump table of its instructions.
    pub open spec fn wf(self) -> bool {
        self.jump_table matches Some(table) ==> is_jump_table(self.ops(), table)
    }

    /// `e` is the fault that bracket matching finds in this program: the first `EndLoop` that
    /// closes nothing, or else the innermost `BeginLoop` left open, with the name of the
    /// source and the place of that bracket.
    pub open spec fn reports(self, e: BracketMatchError) -> bool {
        match e {
            BracketMatchError::ExtraClosingBracket(s, l, c) => {
                &&& s@ == self.source
                &&& exists|k: int|
                    {
                        &&& #[trigger] first_unmatched_close(self.ops(), k)
                        &&& l == self.instructions[k].line_number
                        &&& c == self.instructions[k].char_number
                    }
            },
            BracketMatchError::ExtraOpeningBracket(s, l, c) => {
                &&& s@ == self.source
                &&& never_negative(self.ops())
                &&& exists|i: int|
                    {
                        &&& #[trigger] innermost_unclosed(self.ops(), i)
                        &&& l == self.instructions[i].line_number
                        &&& c == self.instructions[i].char_number
                    }
            },
        }
    }
}

impl View for BFprogram {
    type V = ProgramView;

    closed spec fn view(&self) -> ProgramView {
        ProgramView {
            source: self.source_name@,
            instructions: self.src@,
            jump_table: match self.jump_table {
                Some(table) => Some(table@),
                None => None,
            },
        }
    }
}

impl BFprogram {
    /// The program holds no jump table but that of its instructions.
    pub open spec fn wf(&self) -> bool {
        self@.wf()
    }

    /// Parse Extended ASCII text into Brainf*ck bytecode. `source_name` names the source of
    /// the text.
    ///
    /// Never fails. The program holds one instruction for each opcode byte of `data`, and no
    /// jump table yet.
    pub fn new(source_name: &str, data: &[u8]) -> (r: BFprogram)
        ensures
            r.wf(),
            r@.source == source_name@,
            r@.instructions == tokens(data@),
            r@.instructions.len() == count_opcodes(data@, data@.len() as int),
            r@.jump_table is None,
    {
        BFprogram {
            source_name: String::from_str(source_name),
            src: tokenize(data),
            jump_table: None,
        }
    }

    /// `instructions` allows us to access the underlying bytecode instructions.
    pub fn instructions(&self) -> (r: &[InputInstruction])
        ensures
            r@ == self@.instructions,
    {
        self.src.as_slice()
    }

    /// Get the name of the source of the program.
    pub fn source(&self) -> (r: &String)
        ensures
            r@ == self@.source,
    {
        &self.source_name
    }

    /// Whether the brackets have been matched, so that the program can be executed.
    pub fn is_validated(&self) -> (r: bool)
        ensures
            r == self@.jump_table is Some,
    {
        self.jump_table.is_some()
    }

    /// The partner of the bracket at `index`, as the jump table gives it; `index` itself for an
    /// instruction that is no bracket. `None` before validation and past the last instruction.
    pub fn jump_target(&self, index: usize) -> (r: Option<usize>)
        ensures
            r == match self@.jump_table {
                Some(table) => if index < table.len() {
                    Some(table[index as int])
                } else {
                    None
                },
                None => None,
            },
    {
        match &self.jump_table {
            Some(table) => if index < table.len() {
                Some(table[index])
            } else {
                None
            },
            None => None,
        }
    }

    /// Validate the program by ensuring that the brackets match, and attach its jump table.
    ///
    /// Succeeds exactly when the brackets are balanced. Otherwise the program is left as it
    /// was and the error names the first closing bracket that closes nothing or, if there is
    /// none, the innermost opening bracket that is never closed. Validating a program that
    /// has been validated before succeeds and changes nothing.
    pub fn validate_brackets(&mut self) -> (r: Result<(), BracketMatchError>)
        ensures
            final(self)@.source == old(self)@.source,
            final(self)@.instructions == old(self)@.instructions,
            r is Ok <==> balanced(old(self)@.ops()),
            match r {
                Ok(()) => {
                    &&& final(self)@.jump_table == Some(jump_table_of(old(self)@.ops()))
                    &&& final(self).wf()
                },
                Err(e) => {
                    &&& final(self)@.jump_table == old(self)@.jump_table
                    &&& old(self)@.reports(e)
                },
            },
            old(self).wf() ==> final(self).wf(),
            old(self).wf() && old(self)@.jump_table is Some ==> {
                &&& r is Ok
                &&& final(self)@ == old(self)@
            },
    {
        proof {
            if old(self).wf() && old(self)@.jump_table is Some {
                lemma_jump_table_balanced(old(self)@.ops(), old(self)@.jump_table->0);
                lemma_jump_table_of(old(self)@.ops(), old(self)@.jump_table->0);
            }
        }
        match match_brackets(self.src.as_slice()) {
            Ok(table) => {
                self.jump_table = Some(table);
                Ok(())
            },
            Err(BracketFault::UnmatchedClose(k)) => {
                let at = self.src[k];
                Err(
                    BracketMatchError::ExtraClosingBracket(
                        self.source_name.clone(),
                        at.line_number,
                        at.char_number,
                    ),
                )
            },
            Err(BracketFault::UnmatchedOpen(i)) => {
                let at = self.src[i];
                Err(
                    BracketMatchError::ExtraOpeningBracket(
                        self.source_name.clone(),
                        at.line_number,
                        at.char_number,
                    ),
                )
            },
        }
    }
}

} // verus!
