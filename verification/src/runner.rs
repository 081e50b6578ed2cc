//! A whole run: from the bytes of a source and the options of a run to its outcome.

use vstd::prelude::*;
use crate::brackets::{balanced, jump_table_of};
use crate::error::{BracketMatchError, ExecutionError};
use crate::instruction::{opcodes, Instruction};
use crate::program::{BFprogram, ProgramView};
use crate::semantics::{run, Action, Machine, RunStatus, Streams};
use crate::text::{diagnostic, diagnostic_text};
use crate::tokenizer::tokens;
use crate::vm::{tape_capacity, ByteStreams, BFVM};

verus! {

/// What a run is asked to do.
#[derive(Debug)]
pub struct Opt {
    /// The name of the Brainf*ck program to run.
    pub program: String,
    /// Number of cells for the program's tape; none or zero asks for the default.
    pub cells: Option<usize>,
    /// Allow the program tape to be automatically extended.
    pub extensible: bool,
}

/// Why a run failed.
#[derive(Debug, PartialEq)]
pub enum RunError {
    /// The brackets of the program do not match; nothing was executed.
    Brackets(BracketMatchError),
    /// An instruction failed; everything before it was executed.
    Execution {
        /// What went wrong.
        error: ExecutionError,
        /// The name of the source of the program.
        source: String,
        /// The line of the instruction that failed.
        line: usize,
        /// The column of the instruction that failed.
        column: usize,
    },
}

impl RunError {
    /// The one-line diagnostic `source:line:column: what is wrong`.
    pub open spec fn diagnostic_text(self) -> Seq<char> {
        match self {
            RunError::Brackets(e) => diagnostic_text(
                e.source(),
                e.line(),
                e.column(),
                e.summary_text(),
            ),
            RunError::Execution { error, source, line, column } => diagnostic_text(
                source@,
                line as nat,
                column as nat,
                error.summary_text(),
            ),
        }
    }

    /// `self` reports that instruction `ip` of the program failed with `error`.
    pub open spec fn is_fault_at(self, program: ProgramView, ip: int, error: ExecutionError) -> bool {
        &&& self matches RunError::Execution { error: e, source, line, column }
        &&& e == error
        &&& source@ == program.source
        &&& line == program.instructions[ip].line_number
        &&& column == program.instructions[ip].char_number
    }

    /// The fault of the instruction at `ip`, with the place of that instruction.
    pub fn at(program: &BFprogram, ip: usize, error: ExecutionError) -> (r: RunError)
        requires
            ip < program@.instructions.len(),
        ensures
            r.is_fault_at(program@, ip as int, error),
    {
        let at = program.instructions()[ip];
        RunError::Execution {
            error,
            source: program.source().clone(),
            line: at.line_number,
            column: at.char_number,
        }
    }

    /// Renders the one-line diagnostic of the fault.
    pub fn diagnostic(&self) -> (r: String)
        ensures
            r@ == self.diagnostic_text(),
    {
        match self {
            RunError::Brackets(e) => e.diagnostic(),
            RunError::Execution { error, source, line, column } => diagnostic(
                source.as_str(),
                *line,
                *column,
                error.summary(),
            ),
        }
    }
}

/// A run that fails leaves the instruction pointer on the instruction that failed.
pub proof fn lemma_run_fault_place<C: crate::cell::Cell>(
    m: Machine<C>,
    ops: Seq<Instruction>,
    jumps: Seq<usize>,
    io: Streams,
    fuel: nat,
)
    requires
        run(m, ops, jumps, io, fuel).outcome is Err,
    ensures
        0 <= run(m, ops, jumps, io, fuel).machine.ip < ops.len(),
    decreases fuel,
{
    let action = m.action(ops);
    if action != Action::Halt && fuel > 0 {
        let (event, answered) = io.answer(action);
        match m.step(ops, jumps, event) {
            Ok(next) => {
                lemma_run_fault_place(next, ops, jumps, answered, (fuel - 1) as nat);
            },
            Err(e) => {},
        }
    }
}

/// Runs the program that `data` holds, on a fresh tape of 8-bit cells as `options` asks for,
/// against streams held in memory, for at most `max_steps` steps.
///
/// Where the brackets do not match, nothing is executed and the streams are left as they
/// were. Otherwise the program runs from its first instruction; a fault names the
/// instruction that failed, and the streams keep what was read and written before it.
pub fn run_bft(options: &Opt, data: &[u8], io: &mut ByteStreams, max_steps: u64) -> (r: Result<
    RunStatus,
    RunError,
>)
    requires
        old(io).wf(),
    ensures
        final(io).wf(),
        r matches Err(RunError::Brackets(_)) <==> !balanced(opcodes(tokens(data@))),
        match r {
            Err(RunError::Brackets(e)) => {
                &&& final(io)@ == old(io)@
                &&& (ProgramView {
                    source: options.program@,
                    instructions: tokens(data@),
                    jump_table: None,
                }).reports(e)
            },
            Ok(status) => {
                let ops = opcodes(tokens(data@));
                let whole = run(
                    Machine::<u8>::fresh(tape_capacity(options.cells), options.extensible),
                    ops,
                    jump_table_of(ops),
                    old(io)@,
                    max_steps as nat,
                );
                &&& whole.outcome == Ok::<RunStatus, ExecutionError>(status)
                &&& final(io)@ == whole.io
            },
            Err(fault) => {
                let ops = opcodes(tokens(data@));
                let whole = run(
                    Machine::<u8>::fresh(tape_capacity(options.cells), options.extensible),
                    ops,
                    jump_table_of(ops),
                    old(io)@,
                    max_steps as nat,
                );
                &&& whole.outcome is Err
                &&& final(io)@ == whole.io
                &&& fault.is_fault_at(
                    ProgramView {
                        source: options.program@,
                        instructions: tokens(data@),
                        jump_table: None,
                    },
                    whole.machine.ip,
                    whole.outcome->Err_0,
                )
            },
        },
{
    let mut program = BFprogram::new(options.program.as_str(), data);
    match program.validate_brackets() {
        Ok(()) => {},
        Err(e) => {
            return Err(RunError::Brackets(e));
        },
    }
    let mut vm: BFVM<u8> = BFVM::new(options.cells, options.extensible);
    proof {
        let whole = run(vm@, program@.ops(), program@.jump_table->0, io@, max_steps as nat);
        if whole.outcome is Err {
            lemma_run_fault_place(
                vm@,
                program@.ops(),
                program@.jump_table->0,
                io@,
                max_steps as nat,
            );
        }
    }
    match vm.interpret(&program, io, max_steps) {
        Ok(status) => Ok(status),
        Err(e) => Err(RunError::at(&program, vm.instruction_pointer(), e)),
    }
}

} // verus!
