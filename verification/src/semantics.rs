//! What executing a program means, as mathematics.
//!
//! A machine is a tape of cells, a data pointer into it and an instruction pointer into the
//! program. `step` says what one instruction does to it, given what the byte streams
//! answered; `run` repeats that against streams held in memory. The executable machine is
//! proved to do exactly this.

use vstd::prelude::*;
use crate::brackets::{is_jump_table, lemma_jump_table_round_trip};
use crate::cell::Cell;
use crate::error::ExecutionError;
use crate::instruction::Instruction;

verus! {

/// What the machine needs from outside before it can take its next step.
#[derive(Clone, Copy, Debug, PartialEq, Eq, Structural)]
pub enum Action {
    /// Nothing more: the instruction pointer has passed the last instruction.
    Halt,
    /// Nothing: the next instruction touches no stream.
    Proceed,
    /// One byte is to be read from the input stream.
    ReadByte,
    /// This byte is to be written to the output stream.
    WriteByte(u8),
}

/// What the byte streams answered to the action that the machine asked for.
#[derive(Clone, Copy, Debug, PartialEq, Eq, Structural)]
pub enum Event {
    /// What was asked has been done, and there is nothing to hand back.
    Ready,
    /// The input stream gave this byte.
    Byte(u8),
    /// The input stream is at its end.
    EndOfInput,
    /// A stream reported a fault.
    Fault,
}

/// How a bounded run ends when no fault stops it.
#[derive(Clone, Copy, Debug, PartialEq, Eq, Structural)]
pub enum RunStatus {
    /// The instruction pointer passed the last instruction.
    Finished,
    /// The allowed number of steps was used up before the program ended.
    OutOfSteps,
}

/// The state of a tape machine.
#[verifier::ext_equal]
pub struct Machine<C> {
    /// The cells.
    pub tape: Seq<C>,
    /// The data pointer: the index of the current cell.
    pub head: int,
    /// The instruction pointer: the index of the next instruction.
    pub ip: int,
    /// Whether the tape may grow to the right.
    pub growable: bool,
}

impl<C: Cell> Machine<C> {
    /// The data pointer is on the tape, and the instruction pointer is not negative.
    pub open spec fn wf(self) -> bool {
        0 <= self.head < self.tape.len() && 0 <= self.ip
    }

    /// The machine at the start of a run: `capacity` cells that hold zero, both pointers at
    /// zero.
    pub open spec fn fresh(capacity: nat, growable: bool) -> Self {
        Machine { tape: Seq::new(capacity, |i: int| C::from_value(0)), head: 0, ip: 0, growable }
    }

    /// The cell under the data pointer.
    pub open spec fn current(self) -> C {
        self.tape[self.head]
    }

    /// The instruction pointer has passed the last instruction.
    pub open spec fn halted(self, ops: Seq<Instruction>) -> bool {
        !(0 <= self.ip < ops.len())
    }

    /// The data pointer moved one cell to the left; never below the first cell.
    pub open spec fn move_left(self) -> Result<Self, ExecutionError> {
        if self.head <= 0 {
            Err(ExecutionError::TapeUnderflow)
        } else {
            Ok(Machine { head: self.head - 1, ..self })
        }
    }

    /// The data pointer moved one cell to the right. Past the last cell, a growable tape
    /// gains one cell that holds zero, and any other tape overflows.
    pub open spec fn move_right(self) -> Result<Self, ExecutionError> {
        if self.head + 1 < self.tape.len() {
            Ok(Machine { head: self.head + 1, ..self })
        } else if self.growable {
            Ok(Machine { tape: self.tape.push(C::from_value(0)), head: self.head + 1, ..self })
        } else {
            Err(ExecutionError::TapeOverflow)
        }
    }

    /// The machine with `c` in the current cell.
    pub open spec fn put(self, c: C) -> Self {
        Machine { tape: self.tape.update(self.head, c), ..self }
    }

    /// One added to the current cell, wrapping around.
    pub open spec fn increment(self) -> Self {
        self.put(C::from_value((self.current().value() + 1) % C::modulus()))
    }

    /// One taken from the current cell, wrapping around.
    pub open spec fn decrement(self) -> Self {
        self.put(C::from_value((self.current().value() - 1) % C::modulus()))
    }

    /// A byte from the input stored in the current cell.
    pub open spec fn store(self, b: u8) -> Self {
        self.put(C::from_value((b as int) % C::modulus()))
    }

    /// The byte that putting out the current cell writes.
    pub open spec fn output_byte(self) -> u8 {
        (self.current().value() % 256) as u8
    }

    /// The instruction pointer moved to the next instruction.
    pub open spec fn advance(self) -> Self {
        Machine { ip: self.ip + 1, ..self }
    }

    /// The instruction pointer set to `target`.
    pub open spec fn jump(self, target: int) -> Self {
        Machine { ip: target, ..self }
    }

    /// What the machine needs from outside before its next step.
    pub open spec fn action(self, ops: Seq<Instruction>) -> Action {
        if self.halted(ops) {
            Action::Halt
        } else {
            match ops[self.ip] {
                Instruction::Input => Action::ReadByte,
                Instruction::Output => Action::WriteByte(self.output_byte()),
                _ => Action::Proceed,
            }
        }
    }

    /// One step: the machine after the instruction under the instruction pointer, given what
    /// the streams answered, or the fault that stops it.
    ///
    /// A halted machine stays as it is. A fault of a stream stops any instruction. At the
    /// end of the input, `Input` leaves the cell as it is. A loop bracket that jumps sets
    /// the instruction pointer to its partner; every other instruction moves it on by one.
    pub open spec fn step(self, ops: Seq<Instruction>, jumps: Seq<usize>, event: Event) -> Result<
        Self,
        ExecutionError,
    > {
        if self.halted(ops) {
            Ok(self)
        } else if event == Event::Fault {
            Err(ExecutionError::IoFailure)
        } else {
            match ops[self.ip] {
                Instruction::MoveLeft => match self.move_left() {
                    Ok(m) => Ok(m.advance()),
                    Err(e) => Err(e),
                },
                Instruction::MoveRight => match self.move_right() {
                    Ok(m) => Ok(m.advance()),
                    Err(e) => Err(e),
                },
                Instruction::Increment => Ok(self.increment().advance()),
                Instruction::Decrement => Ok(self.decrement().advance()),
                Instruction::Input => match event {
                    Event::Byte(b) => Ok(self.store(b).advance()),
                    _ => Ok(self.advance()),
                },
                Instruction::Output => Ok(self.advance()),
                Instruction::BeginLoop => if self.current().value() == 0 {
                    Ok(self.jump(jumps[self.ip] as int))
                } else {
                    Ok(self.advance())
                },
                Instruction::EndLoop => if self.current().value() != 0 {
                    Ok(self.jump(jumps[self.ip] as int))
                } else {
                    Ok(self.advance())
                },
            }
        }
    }
}

/// Byte streams held in memory: the input with the number of bytes read from it so far, and
/// the output written so far.
#[verifier::ext_equal]
pub struct Streams {
    /// All the bytes of the input.
    pub input: Seq<u8>,
    /// How many of them have been read.
    pub cursor: int,
    /// The bytes written, in order.
    pub output: Seq<u8>,
}

impl Streams {
    /// The cursor lies within the input.
    pub open spec fn wf(self) -> bool {
        0 <= self.cursor <= self.input.len()
    }

    /// What the streams answer to an action, and what they are afterwards: a read takes the
    /// next byte of the input, or finds its end; a write appends to the output.
    pub open spec fn answer(self, action: Action) -> (Event, Streams) {
        match action {
            Action::ReadByte => if self.cursor < self.input.len() {
                (Event::Byte(self.input[self.cursor]), Streams { cursor: self.cursor + 1, ..self })
            } else {
                (Event::EndOfInput, self)
            },
            Action::WriteByte(b) => (Event::Ready, Streams { output: self.output.push(b), ..self }),
            _ => (Event::Ready, self),
        }
    }
}

/// Where a bounded run against streams in memory ends.
#[verifier::ext_equal]
pub struct Run<C> {
    /// The machine at the end.
    pub machine: Machine<C>,
    /// The streams at the end.
    pub io: Streams,
    /// How it ended.
    pub outcome: Result<RunStatus, ExecutionError>,
}

/// The run of at most `fuel` steps from machine `m`, against streams in memory.
///
/// It ends when the machine halts, when a step fails (the machine then stays as it was
/// before that step), or when `fuel` steps have been taken.
pub open spec fn run<C: Cell>(
    m: Machine<C>,
    ops: Seq<Instruction>,
    jumps: Seq<usize>,
    io: Streams,
    fuel: nat,
) -> Run<C>
    decreases fuel,
{
    let action = m.action(ops);
    if action == Action::Halt {
        Run { machine: m, io, outcome: Ok(RunStatus::Finished) }
    } else if fuel == 0 {
        Run { machine: m, io, outcome: Ok(RunStatus::OutOfSteps) }
    } else {
        let (event, answered) = io.answer(action);
        match m.step(ops, jumps, event) {
            Ok(next) => run(next, ops, jumps, answered, (fuel - 1) as nat),
            Err(e) => Run { machine: m, io: answered, outcome: Err(e) },
        }
    }
}

/// Cell arithmetic wraps around and never fails: adding one to the greatest number gives
/// zero, taking one from zero gives the greatest number, each undoes the other, and no cell
/// but the current one changes.
pub proof fn lemma_cell_arithmetic_wraps<C: Cell>(m: Machine<C>)
    requires
        m.wf(),
    ensures
        m.increment().wf() && m.decrement().wf(),
        m.increment().current().value() == if m.current().value() == C::modulus() - 1 {
            0
        } else {
            m.current().value() + 1
        },
        m.decrement().current().value() == if m.current().value() == 0 {
            C::modulus() - 1
        } else {
            m.current().value() - 1
        },
        m.increment().decrement() == m,
        m.decrement().increment() == m,
        forall|i: int|
            0 <= i < m.tape.len() && i != m.head ==> m.increment().tape[i] == m.tape[i]
                && m.decrement().tape[i] == m.tape[i],
{
    let v = m.current().value();
    let n = C::modulus();
    C::lemma_cell_numbers(m.current(), (v + 1) % n);
    C::lemma_cell_numbers(m.current(), (v - 1) % n);
    C::lemma_cell_numbers(m.current(), v);
    assert((v + 1) % n == if v == n - 1 {
        0
    } else {
        v + 1
    }) by {
        if v == n - 1 {
            assert(n % n == 0) by (nonlinear_arith)
                requires
                    n >= 1,
            ;
        } else {
            assert((v + 1) % n == v + 1) by (nonlinear_arith)
                requires
                    0 <= v + 1 < n,
            ;
        }
    }
    assert((v - 1) % n == if v == 0 {
        n - 1
    } else {
        v - 1
    }) by {
        if v == 0 {
            assert((-1int) % n == n - 1) by (nonlinear_arith)
                requires
                    n >= 1,
            ;
        } else {
            assert((v - 1) % n == v - 1) by (nonlinear_arith)
                requires
                    0 <= v - 1 < n,
            ;
        }
    }
    let up = m.increment();
    let down = m.decrement();
    assert(((v + 1) % n - 1) % n == v) by {
        if v == n - 1 {
            assert((-1int) % n == n - 1) by (nonlinear_arith)
                requires
                    n >= 1,
            ;
        } else {
            assert(v % n == v) by (nonlinear_arith)
                requires
                    0 <= v < n,
            ;
        }
    }
    assert(((v - 1) % n + 1) % n == v) by {
        if v == 0 {
            assert(n % n == 0) by (nonlinear_arith)
                requires
                    n >= 1,
            ;
        } else {
            assert(v % n == v) by (nonlinear_arith)
                requires
                    0 <= v < n,
            ;
        }
    }
    assert(up.decrement() =~= m);
    assert(down.increment() =~= m);
}

/// The pointer never leaves the tape on the left: at the first cell a `MoveLeft` fails
/// with `TapeUnderflow`, whether the tape may grow or not.
pub proof fn lemma_move_left_at_origin<C: Cell>(
    m: Machine<C>,
    ops: Seq<Instruction>,
    jumps: Seq<usize>,
    event: Event,
)
    requires
        m.head == 0,
        0 <= m.ip < ops.len(),
        ops[m.ip] == Instruction::MoveLeft,
        event != Event::Fault,
    ensures
        m.move_left() == Err::<Machine<C>, ExecutionError>(ExecutionError::TapeUnderflow),
        m.step(ops, jumps, event) == Err::<Machine<C>, ExecutionError>(
            ExecutionError::TapeUnderflow,
        ),
{
}

/// At the last cell a `MoveRight` fails with `TapeOverflow` exactly when the tape may not
/// grow; a growable tape gains one cell that holds zero instead.
pub proof fn lemma_move_right_at_end<C: Cell>(m: Machine<C>)
    requires
        m.wf(),
        m.head + 1 == m.tape.len(),
    ensures
        !m.growable ==> m.move_right() == Err::<Machine<C>, ExecutionError>(
            ExecutionError::TapeOverflow,
        ),
        m.growable ==> m.move_right() is Ok && m.move_right()->Ok_0.tape == m.tape.push(
            C::from_value(0),
        ) && m.move_right()->Ok_0.head == m.head + 1,
{
}

/// A step keeps the machine in order and changes the tape only at its right end and under
/// the data pointer: the tape never shrinks, grows only where it may, by at most one cell,
/// and every old cell but the current one keeps what it holds. The instruction pointer stays
/// within the program or just behind it.
pub proof fn lemma_step_keeps_order<C: Cell>(
    m: Machine<C>,
    ops: Seq<Instruction>,
    jumps: Seq<usize>,
    event: Event,
)
    requires
        m.wf(),
        is_jump_table(ops, jumps),
        m.step(ops, jumps, event) is Ok,
    ensures
        m.step(ops, jumps, event)->Ok_0.wf(),
        m.step(ops, jumps, event)->Ok_0.growable == m.growable,
        m.tape.len() <= m.step(ops, jumps, event)->Ok_0.tape.len() <= m.tape.len() + 1,
        !m.growable ==> m.step(ops, jumps, event)->Ok_0.tape.len() == m.tape.len(),
        forall|i: int|
            0 <= i < m.tape.len() && i != m.head ==> m.step(ops, jumps, event)->Ok_0.tape[i]
                == m.tape[i],
        m.ip <= ops.len() ==> m.step(ops, jumps, event)->Ok_0.ip <= ops.len(),
{
    if !m.halted(ops) {
        lemma_jump_table_round_trip(ops, jumps, m.ip);
    }
}

/// A loop whose cell holds zero is skipped: the `BeginLoop` jumps to its `EndLoop`, and the
/// next step leaves the loop, with the tape untouched.
pub proof fn lemma_loop_skipped<C: Cell>(m: Machine<C>, ops: Seq<Instruction>, jumps: Seq<usize>)
    requires
        m.wf(),
        is_jump_table(ops, jumps),
        0 <= m.ip < ops.len(),
        ops[m.ip] == Instruction::BeginLoop,
        m.current().value() == 0,
    ensures
        m.step(ops, jumps, Event::Ready) == Ok::<Machine<C>, ExecutionError>(
            m.jump(jumps[m.ip] as int),
        ),
        m.jump(jumps[m.ip] as int).step(ops, jumps, Event::Ready) == Ok::<
            Machine<C>,
            ExecutionError,
        >(m.jump(jumps[m.ip] + 1)),
{
    lemma_jump_table_round_trip(ops, jumps, m.ip);
}

/// A loop whose cell does not hold zero at its end is repeated: the `EndLoop` jumps back to
/// its `BeginLoop`, and the next step enters the body again, with the tape untouched.
pub proof fn lemma_loop_repeated<C: Cell>(m: Machine<C>, ops: Seq<Instruction>, jumps: Seq<usize>)
    requires
        m.wf(),
        is_jump_table(ops, jumps),
        0 <= m.ip < ops.len(),
        ops[m.ip] == Instruction::EndLoop,
        m.current().value() != 0,
    ensures
        m.step(ops, jumps, Event::Ready) == Ok::<Machine<C>, ExecutionError>(
            m.jump(jumps[m.ip] as int),
        ),
        m.jump(jumps[m.ip] as int).step(ops, jumps, Event::Ready) == Ok::<
            Machine<C>,
            ExecutionError,
        >(m.jump(jumps[m.ip] + 1)),
{
    lemma_jump_table_round_trip(ops, jumps, m.ip);
}

/// A run against streams in memory never ends with `IoFailure`, reads the input in order
/// and only appends to the output.
pub proof fn lemma_run_streams<C: Cell>(
    m: Machine<C>,
    ops: Seq<Instruction>,
    jumps: Seq<usize>,
    io: Streams,
    fuel: nat,
)
    requires
        io.wf(),
    ensures
        run(m, ops, jumps, io, fuel).io.wf(),
        run(m, ops, jumps, io, fuel).io.input == io.input,
        run(m, ops, jumps, io, fuel).io.cursor >= io.cursor,
        io.output.is_prefix_of(run(m, ops, jumps, io, fuel).io.output),
        run(m, ops, jumps, io, fuel).outcome != Err::<RunStatus, ExecutionError>(
            ExecutionError::IoFailure,
        ),
    decreases fuel,
{
    let action = m.action(ops);
    if action != Action::Halt && fuel > 0 {
        let (event, answered) = io.answer(action);
        assert(io.output.is_prefix_of(answered.output));
        match m.step(ops, jumps, event) {
            Ok(next) => {
                lemma_run_streams(next, ops, jumps, answered, (fuel - 1) as nat);
                let last = run(next, ops, jumps, answered, (fuel - 1) as nat).io.output;
                assert(io.output.is_prefix_of(last));
            },
            Err(e) => {},
        }
    }
}

} // verus!
