//! The Virtual Machine that runs a Brainf*ck program.
//!
//! The machine never touches a stream itself. Before each step it says what it needs from
//! outside, and the step is handed what the streams answered. Whoever owns the streams runs
//! that dialogue; `ByteStreams` does it in memory, and `interpret` runs a whole program
//! against it.

use vstd::prelude::*;
use crate::cell::Cell;
use crate::error::ExecutionError;
use crate::instruction::Instruction;
use crate::program::BFprogram;
use crate::semantics::{lemma_run_streams, run, Action, Event, Machine, RunStatus, Streams};

verus! {

/// The number of cells of a tape for which no other number is asked.
pub const DEFAULT_CAPACITY: usize = 30000;

/// The number of cells that a tape starts with: the number asked for, or the default where
/// none or zero is asked for.
pub open spec fn tape_capacity(requested: Option<usize>) -> nat {
    match requested {
        Some(n) => if n > 0 {
            n as nat
        } else {
            DEFAULT_CAPACITY as nat
        },
        None => DEFAULT_CAPACITY as nat,
    }
}

/// Brainf*ck interpreter internal state.
#[derive(Debug)]
pub struct BFVM<C> {
    /// Block of memory for the program to work on.
    tape: Vec<C>,
    /// Index of where the program is pointing to in the tape.
    head: usize,
    /// When true, the VM is allowed to grow the tape for additional space as needed.
    growable: bool,
    /// Index of the next instruction of the program.
    ip: usize,
}

impl<C> View for BFVM<C> {
    type V = Machine<C>;

    closed spec fn view(&self) -> Machine<C> {
        Machine {
            tape: self.tape@,
            head: self.head as int,
            ip: self.ip as int,
            growable: self.growable,
        }
    }
}

impl<C: Cell> BFVM<C> {
    /// The data pointer is on the tape.
    pub open spec fn wf(&self) -> bool {
        self@.wf()
    }

    /// Construct a new VM with clean internal state.
    ///
    /// `capacity` specifies the size of the internal tape to use. No capacity, or a capacity
    /// of 0, asks for a tape of the default capacity. `growable` says whether the tape may
    /// grow to the right.
    pub fn new(capacity: Option<usize>, growable: bool) -> (r: BFVM<C>)
        ensures
            r.wf(),
            r@ == Machine::<C>::fresh(tape_capacity(capacity), growable),
    {
        let cells = match capacity {
            Some(n) => if n > 0 {
                n
            } else {
                DEFAULT_CAPACITY
            },
            None => DEFAULT_CAPACITY,
        };
        let mut tape: Vec<C> = Vec::new();
        let mut i: usize = 0;
        while i < cells
            invariant
                0 <= i <= cells,
                tape@ == Seq::new(i as nat, |k: int| C::from_value(0)),
            decreases cells - i,
        {
            tape.push(C::zero());
            i = i + 1;
            assert(tape@ =~= Seq::new(i as nat, |k: int| C::from_value(0)));
        }
        BFVM { tape, head: 0, growable, ip: 0 }
    }

    /// The cells of the tape.
    pub fn tape(&self) -> (r: &[C])
        ensures
            r@ == self@.tape,
    {
        self.tape.as_slice()
    }

    /// The data pointer.
    pub fn head(&self) -> (r: usize)
        ensures
            r == self@.head,
    {
        self.head
    }

    /// The instruction pointer.
    pub fn instruction_pointer(&self) -> (r: usize)
        ensures
            r == self@.ip,
    {
        self.ip
    }

    /// Whether the tape may grow to the right.
    pub fn is_growable(&self) -> (r: bool)
        ensures
            r == self@.growable,
    {
        self.growable
    }

    /// Moves the data pointer one cell to the left. At the first cell this fails with
    /// `TapeUnderflow`, whatever the tape, and leaves the machine as it was.
    pub fn move_left(&mut self) -> (r: Result<(), ExecutionError>)
        requires
            old(self).wf(),
        ensures
            final(self).wf(),
            match old(self)@.move_left() {
                Ok(m) => r == Ok::<(), ExecutionError>(()) && final(self)@ == m,
                Err(e) => r == Err::<(), ExecutionError>(e) && final(self)@ == old(self)@,
            },
            r is Err <==> old(self)@.head == 0,
    {
        if self.head == 0 {
            Err(ExecutionError::TapeUnderflow)
        } else {
            self.head = self.head - 1;
            Ok(())
        }
    }

    /// Moves the data pointer one cell to the right. Past the last cell a growable tape gains
    /// one cell that holds zero; any other tape fails with `TapeOverflow` and leaves the
    /// machine as it was.
    pub fn move_right(&mut self) -> (r: Result<(), ExecutionError>)
        requires
            old(self).wf(),
        ensures
            final(self).wf(),
            match old(self)@.move_right() {
                Ok(m) => r == Ok::<(), ExecutionError>(()) && final(self)@ == m,
                Err(e) => r == Err::<(), ExecutionError>(e) && final(self)@ == old(self)@,
            },
            r is Err <==> !old(self)@.growable && old(self)@.head + 1 == old(self)@.tape.len(),
    {
        let cells = self.tape.len();
        if self.head + 1 >= cells {
            if !self.growable {
                return Err(ExecutionError::TapeOverflow);
            }
            self.tape.push(C::zero());
        }
        self.head = self.head + 1;
        Ok(())
    }

    /// Adds one to the current cell, wrapping around. Never fails.
    pub fn increment(&mut self)
        requires
            old(self).wf(),
        ensures
            final(self).wf(),
            final(self)@ == old(self)@.increment(),
    {
        let c = self.tape[self.head];
        self.tape.set(self.head, c.wrapping_increment());
        assert(self@ =~= old(self)@.increment());
    }

    /// Takes one from the current cell, wrapping around. Never fails.
    pub fn decrement(&mut self)
        requires
            old(self).wf(),
        ensures
            final(self).wf(),
            final(self)@ == old(self)@.decrement(),
    {
        let c = self.tape[self.head];
        self.tape.set(self.head, c.wrapping_decrement());
        assert(self@ =~= old(self)@.decrement());
    }

    /// Stores a byte from the input in the current cell.
    pub fn store(&mut self, b: u8)
        requires
            old(self).wf(),
        ensures
            final(self).wf(),
            final(self)@ == old(self)@.store(b),
    {
        self.tape.set(self.head, C::from_byte(b));
        assert(self@ =~= old(self)@.store(b));
    }

    /// The byte that putting out the current cell writes.
    pub fn output_byte(&self) -> (r: u8)
        requires
            self.wf(),
        ensures
            r == self@.output_byte(),
    {
        self.tape[self.head].to_byte()
    }

    /// What the machine needs from outside before its next step on `program`.
    pub fn action(&self, program: &BFprogram) -> (r: Action)
        requires
            self.wf(),
        ensures
            r == self@.action(program@.ops()),
    {
        let instructions = program.instructions();
        if self.ip >= instructions.len() {
            Action::Halt
        } else {
            match instructions[self.ip].inst {
                Instruction::Input => Action::ReadByte,
                Instruction::Output => Action::WriteByte(self.output_byte()),
                _ => Action::Proceed,
            }
        }
    }

    /// Executes the instruction under the instruction pointer, given what the streams
    /// answered to the action that the machine asked for, and says what it needs next.
    ///
    /// On a fault the machine is left as it was, with the instruction pointer on the
    /// instruction that failed.
    pub fn step(&mut self, program: &BFprogram, event: Event) -> (r: Result<Action, ExecutionError>)
        requires
            old(self).wf(),
            program.wf(),
            program@.jump_table is Some,
        ensures
            final(self).wf(),
            match old(self)@.step(program@.ops(), program@.jump_table->0, event) {
                Ok(m) => {
                    &&& r == Ok::<Action, ExecutionError>(m.action(program@.ops()))
                    &&& final(self)@ == m
                },
                Err(e) => r == Err::<Action, ExecutionError>(e) && final(self)@ == old(self)@,
            },
    {
        let instructions = program.instructions();
        if self.ip >= instructions.len() {
            return Ok(Action::Halt);
        }
        if let Event::Fault = event {
            return Err(ExecutionError::IoFailure);
        }
        let ghost ops = program@.ops();
        let ghost jumps = program@.jump_table->0;
        let inst = instructions[self.ip].inst;
        assert(inst == ops[self.ip as int]);
        let mut next = self.ip + 1;
        match inst {
            Instruction::MoveLeft => {
                match self.move_left() {
                    Ok(()) => {},
                    Err(e) => {
                        return Err(e);
                    },
                }
            },
            Instruction::MoveRight => {
                match self.move_right() {
                    Ok(()) => {},
                    Err(e) => {
                        return Err(e);
                    },
                }
            },
            Instruction::Increment => {
                self.increment();
            },
            Instruction::Decrement => {
                self.decrement();
            },
            Instruction::Input => {
                if let Event::Byte(b) = event {
                    self.store(b);
                }
            },
            Instruction::Output => {},
            Instruction::BeginLoop => {
                if self.tape[self.head].is_zero() {
                    next = match program.jump_target(self.ip) {
                        Some(target) => target,
                        None => next,
                    };
                }
            },
            Instruction::EndLoop => {
                if !self.tape[self.head].is_zero() {
                    next = match program.jump_target(self.ip) {
                        Some(target) => target,
                        None => next,
                    };
                }
            },
        }
        self.ip = next;
        assert(self@ =~= old(self)@.step(ops, jumps, event)->Ok_0);
        Ok(self.action(program))
    }

    /// Runs `program` against streams held in memory, for at most `max_steps` steps.
    ///
    /// The run continues from where the machine stands. It ends when the program finishes,
    /// when `max_steps` steps have been taken, or with the fault of the step that failed; the
    /// tape and the streams keep everything that was done before.
    pub fn interpret(&mut self, program: &BFprogram, io: &mut ByteStreams, max_steps: u64) -> (r:
        Result<RunStatus, ExecutionError>)
        requires
            old(self).wf(),
            old(io).wf(),
            program.wf(),
            program@.jump_table is Some,
        ensures
            final(self).wf(),
            final(io).wf(),
            final(self)@ == run(
                old(self)@,
                program@.ops(),
                program@.jump_table->0,
                old(io)@,
                max_steps as nat,
            ).machine,
            final(io)@ == run(
                old(self)@,
                program@.ops(),
                program@.jump_table->0,
                old(io)@,
                max_steps as nat,
            ).io,
            r == run(
                old(self)@,
                program@.ops(),
                program@.jump_table->0,
                old(io)@,
                max_steps as nat,
            ).outcome,
            r != Err::<RunStatus, ExecutionError>(ExecutionError::IoFailure),
            final(io)@.input == old(io)@.input,
            old(io)@.output.is_prefix_of(final(io)@.output),
    {
        proof {
            lemma_run_streams(
                old(self)@,
                program@.ops(),
                program@.jump_table->0,
                old(io)@,
                max_steps as nat,
            );
        }
        let ghost ops = program@.ops();
        let ghost jumps = program@.jump_table->0;
        let ghost whole = run(old(self)@, ops, jumps, old(io)@, max_steps as nat);
        let mut steps = max_steps;
        let mut action = self.action(program);
        loop
            invariant
                self.wf(),
                io.wf(),
                program.wf(),
                program@.jump_table is Some,
                ops == program@.ops(),
                jumps == program@.jump_table->0,
                action == self@.action(ops),
                whole == run(old(self)@, ops, jumps, old(io)@, max_steps as nat),
                whole == run(self@, ops, jumps, io@, steps as nat),
                whole.io.input == old(io)@.input,
                old(io)@.output.is_prefix_of(whole.io.output),
                whole.outcome != Err::<RunStatus, ExecutionError>(ExecutionError::IoFailure),
            decreases steps,
        {
            if let Action::Halt = action {
                return Ok(RunStatus::Finished);
            }
            if steps == 0 {
                return Ok(RunStatus::OutOfSteps);
            }
            let event = io.answer(action);
            match self.step(program, event) {
                Ok(next) => {
                    action = next;
                    steps = steps - 1;
                },
                Err(e) => {
                    return Err(e);
                },
            }
        }
    }
}

/// Byte streams held in memory: an input that is read from its start, and an output that
/// collects what is written.
#[derive(Debug)]
pub struct ByteStreams {
    input: Vec<u8>,
    cursor: usize,
    output: Vec<u8>,
}

impl View for ByteStreams {
    type V = Streams;

    closed spec fn view(&self) -> Streams {
        Streams { input: self.input@, cursor: self.cursor as int, output: self.output@ }
    }
}

impl ByteStreams {
    /// The cursor lies within the input.
    pub open spec fn wf(&self) -> bool {
        self@.wf()
    }

    /// Streams with the given input, nothing read and nothing written yet.
    pub fn new(input: Vec<u8>) -> (r: ByteStreams)
        ensures
            r.wf(),
            r@ == (Streams { input: input@, cursor: 0, output: Seq::empty() }),
    {
        ByteStreams { input, cursor: 0, output: Vec::new() }
    }

    /// The bytes written so far.
    pub fn output(&self) -> (r: &[u8])
        ensures
            r@ == self@.output,
    {
        self.output.as_slice()
    }

    /// The number of input bytes read so far.
    pub fn consumed(&self) -> (r: usize)
        ensures
            r == self@.cursor,
    {
        self.cursor
    }

    /// Does what the machine asks for, and answers: a read takes the next byte of the input
    /// or finds its end, a write appends to the output. Never a fault.
    pub fn answer(&mut self, action: Action) -> (r: Event)
        requires
            old(self).wf(),
        ensures
            final(self).wf(),
            r == old(self)@.answer(action).0,
            final(self)@ == old(self)@.answer(action).1,
            r != Event::Fault,
    {
        match action {
            Action::ReadByte => {
                if self.cursor < self.input.len() {
                    let b = self.input[self.cursor];
                    self.cursor = self.cursor + 1;
                    Event::Byte(b)
                } else {
                    Event::EndOfInput
                }
            },
            Action::WriteByte(b) => {
                self.output.push(b);
                Event::Ready
            },
            _ => Event::Ready,
        }
    }
}

} // verus!
