use bft::{Action, BFprogram, ByteStreams, Event, ExecutionError, RunStatus, BFVM};

fn validated(source: &str) -> BFprogram {
    let mut program = BFprogram::new("engine.test", source.as_bytes());
    program.validate_brackets().expect("the brackets match");
    program
}

fn run_to_end(source: &str, input: &[u8]) -> (BFVM<u8>, ByteStreams, Result<RunStatus, ExecutionError>) {
    let program = validated(source);
    let mut vm: BFVM<u8> = BFVM::new(Some(16), false);
    let mut io = ByteStreams::new(input.to_vec());
    let outcome = vm.interpret(&program, &mut io, 1_000_000);
    (vm, io, outcome)
}

#[test]
fn a_fresh_machine_is_all_zero() {
    let vm: BFVM<u8> = BFVM::new(Some(5), true);
    assert_eq!(vm.tape(), [0u8, 0, 0, 0, 0]);
    assert_eq!(vm.head(), 0);
    assert_eq!(vm.instruction_pointer(), 0);
    assert!(vm.is_growable());
    let vm: BFVM<u16> = BFVM::new(Some(2), false);
    assert_eq!(vm.tape(), [0u16, 0]);
    assert!(!vm.is_growable());
}

#[test]
fn default_capacity_where_none_or_zero_is_asked() {
    let vm: BFVM<u8> = BFVM::new(None, false);
    assert_eq!(vm.tape().len(), 30000);
    let vm: BFVM<u8> = BFVM::new(Some(0), false);
    assert_eq!(vm.tape().len(), 30000);
    let vm: BFVM<u8> = BFVM::new(Some(1), false);
    assert_eq!(vm.tape().len(), 1);
    assert_eq!(bft::vm::DEFAULT_CAPACITY, 30000);
}

#[test]
fn cell_arithmetic_wraps() {
    let mut vm: BFVM<u8> = BFVM::new(Some(1), false);
    vm.store(255);
    vm.increment();
    assert_eq!(vm.tape(), [0u8]);
    vm.decrement();
    assert_eq!(vm.tape(), [255u8]);
    let (vm, _, outcome) = run_to_end("-", b"");
    assert_eq!(outcome, Ok(RunStatus::Finished));
    assert_eq!(vm.tape()[0], 255);
    let (vm, _, outcome) = run_to_end("-+", b"");
    assert_eq!(outcome, Ok(RunStatus::Finished));
    assert_eq!(vm.tape()[0], 0);
}

#[test]
fn sixteen_bit_cells_wrap_at_sixteen_bits() {
    let mut vm: BFVM<u16> = BFVM::new(Some(1), false);
    vm.decrement();
    assert_eq!(vm.tape(), [65535u16]);
    assert_eq!(vm.output_byte(), 255);
    vm.increment();
    assert_eq!(vm.tape(), [0u16]);
    vm.store(200);
    vm.increment();
    assert_eq!(vm.tape(), [201u16]);
}

#[test]
fn move_right_on_a_fixed_tape_of_one_cell_overflows() {
    let mut vm: BFVM<u8> = BFVM::new(Some(1), false);
    assert_eq!(vm.move_right(), Err(ExecutionError::TapeOverflow));
    assert_eq!(vm.head(), 0);
    assert_eq!(vm.tape().len(), 1);

    let program = validated(">");
    let mut vm: BFVM<u8> = BFVM::new(Some(1), false);
    assert_eq!(vm.step(&program, Event::Ready), Err(ExecutionError::TapeOverflow));
    assert_eq!(vm.instruction_pointer(), 0);
    assert_eq!(vm.head(), 0);
}

#[test]
fn move_left_at_the_first_cell_underflows_on_any_tape() {
    for growable in [false, true] {
        let mut vm: BFVM<u8> = BFVM::new(Some(3), growable);
        assert_eq!(vm.move_left(), Err(ExecutionError::TapeUnderflow));
        assert_eq!(vm.head(), 0);
        assert_eq!(vm.tape().len(), 3);

        let program = validated("<");
        assert_eq!(vm.step(&program, Event::Ready), Err(ExecutionError::TapeUnderflow));
        assert_eq!(vm.instruction_pointer(), 0);
    }
}

#[test]
fn the_pointer_moves_within_the_tape() {
    let mut vm: BFVM<u8> = BFVM::new(Some(3), false);
    assert_eq!(vm.move_right(), Ok(()));
    assert_eq!(vm.move_right(), Ok(()));
    assert_eq!(vm.head(), 2);
    assert_eq!(vm.move_right(), Err(ExecutionError::TapeOverflow));
    assert_eq!(vm.head(), 2);
    assert_eq!(vm.move_left(), Ok(()));
    assert_eq!(vm.head(), 1);
    assert_eq!(vm.tape().len(), 3);
}

#[test]
fn a_growable_tape_grows_by_one_zero_cell_on_demand() {
    let mut vm: BFVM<u8> = BFVM::new(Some(2), true);
    vm.increment();
    assert_eq!(vm.move_right(), Ok(()));
    assert_eq!(vm.tape().len(), 2);
    vm.increment();
    assert_eq!(vm.move_right(), Ok(()));
    assert_eq!(vm.tape(), [1u8, 1, 0]);
    assert_eq!(vm.head(), 2);
    assert_eq!(vm.move_right(), Ok(()));
    assert_eq!(vm.tape(), [1u8, 1, 0, 0]);
    assert_eq!(vm.head(), 3);
}

#[test]
fn a_simple_loop_runs_its_body_once() {
    let program = validated("+[-]");
    let mut vm: BFVM<u8> = BFVM::new(Some(1), false);
    assert_eq!(vm.action(&program), Action::Proceed);

    assert_eq!(vm.step(&program, Event::Ready), Ok(Action::Proceed));
    assert_eq!((vm.instruction_pointer(), vm.tape()[0]), (1, 1));
    assert_eq!(vm.step(&program, Event::Ready), Ok(Action::Proceed));
    assert_eq!((vm.instruction_pointer(), vm.tape()[0]), (2, 1));
    assert_eq!(vm.step(&program, Event::Ready), Ok(Action::Proceed));
    assert_eq!((vm.instruction_pointer(), vm.tape()[0]), (3, 0));
    assert_eq!(vm.step(&program, Event::Ready), Ok(Action::Halt));
    assert_eq!((vm.instruction_pointer(), vm.tape()[0]), (4, 0));

    let mut vm: BFVM<u8> = BFVM::new(Some(1), false);
    let mut io = ByteStreams::new(Vec::new());
    assert_eq!(vm.interpret(&program, &mut io, 3), Ok(RunStatus::OutOfSteps));
    let mut vm: BFVM<u8> = BFVM::new(Some(1), false);
    assert_eq!(vm.interpret(&program, &mut io, 4), Ok(RunStatus::Finished));
    assert_eq!(vm.tape(), [0u8]);
    assert_eq!(vm.instruction_pointer(), 4);
}

#[test]
fn a_loop_on_a_zero_cell_is_skipped() {
    let program = validated("[+>+<]+");
    let mut vm: BFVM<u8> = BFVM::new(Some(2), false);
    assert_eq!(vm.step(&program, Event::Ready), Ok(Action::Proceed));
    assert_eq!(vm.instruction_pointer(), 5);
    assert_eq!(vm.step(&program, Event::Ready), Ok(Action::Proceed));
    assert_eq!(vm.instruction_pointer(), 6);
    assert_eq!(vm.step(&program, Event::Ready), Ok(Action::Halt));
    assert_eq!(vm.tape(), [1u8, 0]);
}

#[test]
fn a_loop_repeats_while_its_cell_is_not_zero() {
    let (vm, _, outcome) = run_to_end("+++[>++<-]", b"");
    assert_eq!(outcome, Ok(RunStatus::Finished));
    assert_eq!(&vm.tape()[..2], [0u8, 6]);
    assert_eq!(vm.head(), 0);

    let program = validated("++[-]");
    let mut vm: BFVM<u8> = BFVM::new(Some(1), false);
    let mut io = ByteStreams::new(Vec::new());
    assert_eq!(vm.interpret(&program, &mut io, 4), Ok(RunStatus::OutOfSteps));
    assert_eq!(vm.instruction_pointer(), 4);
    assert_eq!(vm.step(&program, Event::Ready), Ok(Action::Proceed));
    assert_eq!(vm.instruction_pointer(), 2);
}

#[test]
fn input_stores_a_byte_and_leaves_the_cell_at_end_of_input() {
    let program = validated(",,");
    let mut vm: BFVM<u8> = BFVM::new(Some(1), false);
    assert_eq!(vm.action(&program), Action::ReadByte);
    assert_eq!(vm.step(&program, Event::Byte(65)), Ok(Action::ReadByte));
    assert_eq!(vm.tape(), [65u8]);
    assert_eq!(vm.step(&program, Event::EndOfInput), Ok(Action::Halt));
    assert_eq!(vm.tape(), [65u8]);
    assert_eq!(vm.instruction_pointer(), 2);

    let (vm, io, outcome) = run_to_end(",>,>,", b"\x07\x09");
    assert_eq!(outcome, Ok(RunStatus::Finished));
    assert_eq!(&vm.tape()[..3], [7u8, 9, 0]);
    assert_eq!(io.consumed(), 2);
}

#[test]
fn input_without_a_byte_leaves_the_cell() {
    let program = validated("+,");
    let mut vm: BFVM<u8> = BFVM::new(Some(1), false);
    assert_eq!(vm.step(&program, Event::Ready), Ok(Action::ReadByte));
    assert_eq!(vm.step(&program, Event::Ready), Ok(Action::Halt));
    assert_eq!(vm.tape(), [1u8]);
}

#[test]
fn output_asks_for_the_current_cell_to_be_written() {
    let program = validated("+++.");
    let mut vm: BFVM<u8> = BFVM::new(Some(1), false);
    vm.step(&program, Event::Ready).unwrap();
    vm.step(&program, Event::Ready).unwrap();
    assert_eq!(vm.step(&program, Event::Ready), Ok(Action::WriteByte(3)));
    assert_eq!(vm.action(&program), Action::WriteByte(3));
    assert_eq!(vm.output_byte(), 3);
    assert_eq!(vm.step(&program, Event::Ready), Ok(Action::Halt));
    assert_eq!(vm.tape(), [3u8]);
}

#[test]
fn a_stream_fault_stops_the_machine_where_it_stands() {
    let program = validated("+.,");
    let mut vm: BFVM<u8> = BFVM::new(Some(1), false);
    vm.step(&program, Event::Ready).unwrap();
    assert_eq!(vm.step(&program, Event::Fault), Err(ExecutionError::IoFailure));
    assert_eq!(vm.instruction_pointer(), 1);
    assert_eq!(vm.tape(), [1u8]);
    vm.step(&program, Event::Ready).unwrap();
    assert_eq!(vm.step(&program, Event::Fault), Err(ExecutionError::IoFailure));
    assert_eq!(vm.instruction_pointer(), 2);
    assert_eq!(vm.tape(), [1u8]);
}

#[test]
fn a_halted_machine_stays_halted() {
    let program = validated("");
    let mut vm: BFVM<u8> = BFVM::new(Some(1), false);
    assert_eq!(vm.action(&program), Action::Halt);
    assert_eq!(vm.step(&program, Event::Ready), Ok(Action::Halt));
    assert_eq!(vm.step(&program, Event::Fault), Ok(Action::Halt));
    assert_eq!(vm.step(&program, Event::Byte(1)), Ok(Action::Halt));
    assert_eq!(vm.instruction_pointer(), 0);
    assert_eq!(vm.tape(), [0u8]);
    let mut io = ByteStreams::new(vec![1, 2, 3]);
    assert_eq!(vm.interpret(&program, &mut io, 0), Ok(RunStatus::Finished));
    assert_eq!(io.consumed(), 0);
    assert!(io.output().is_empty());
}

#[test]
fn a_fault_keeps_what_was_done_before() {
    let (vm, io, outcome) = run_to_end("++.>+.<<+", b"");
    assert_eq!(outcome, Err(ExecutionError::TapeUnderflow));
    assert_eq!(&vm.tape()[..2], [2u8, 1]);
    assert_eq!(vm.head(), 0);
    assert_eq!(vm.instruction_pointer(), 7);
    assert_eq!(io.output(), [2u8, 1]);
}

#[test]
fn out_of_steps_can_be_resumed() {
    let program = validated("++++++++[>++++++++<-]>+.");
    let mut vm: BFVM<u8> = BFVM::new(Some(2), false);
    let mut io = ByteStreams::new(Vec::new());
    let mut rounds = 0;
    loop {
        rounds += 1;
        match vm.interpret(&program, &mut io, 10) {
            Ok(RunStatus::OutOfSteps) => continue,
            other => {
                assert_eq!(other, Ok(RunStatus::Finished));
                break;
            }
        }
    }
    assert!(rounds > 1);
    assert_eq!(io.output(), b"A");

    let mut whole: BFVM<u8> = BFVM::new(Some(2), false);
    let mut io = ByteStreams::new(Vec::new());
    assert_eq!(whole.interpret(&program, &mut io, u64::MAX), Ok(RunStatus::Finished));
    assert_eq!(whole.tape(), vm.tape());
    assert_eq!(io.output(), b"A");
}

#[test]
fn echoes_its_input_until_a_zero_byte() {
    let (_, io, outcome) = run_to_end(",[.,]", b"hello\0world");
    assert_eq!(outcome, Ok(RunStatus::Finished));
    assert_eq!(io.output(), b"hello");
    assert_eq!(io.consumed(), 6);
}

#[test]
fn prints_hello_world() {
    let source = "++++++++[>++++[>++>+++>+++>+<<<<-]>+>+>->>+[<]<-]>>.>---.+++++++..+++.>>.<-.<.+++.------.--------.>>+.>++.";
    let (_, io, outcome) = run_to_end(source, b"");
    assert_eq!(outcome, Ok(RunStatus::Finished));
    assert_eq!(io.output(), b"Hello World!\n");
}

#[test]
fn streams_answer_reads_and_writes_in_order() {
    let mut io = ByteStreams::new(vec![10, 20]);
    assert_eq!(io.answer(Action::Proceed), Event::Ready);
    assert_eq!(io.answer(Action::Halt), Event::Ready);
    assert_eq!(io.answer(Action::ReadByte), Event::Byte(10));
    assert_eq!(io.answer(Action::WriteByte(7)), Event::Ready);
    assert_eq!(io.answer(Action::ReadByte), Event::Byte(20));
    assert_eq!(io.answer(Action::ReadByte), Event::EndOfInput);
    assert_eq!(io.answer(Action::ReadByte), Event::EndOfInput);
    assert_eq!(io.answer(Action::WriteByte(8)), Event::Ready);
    assert_eq!(io.consumed(), 2);
    assert_eq!(io.output(), [7u8, 8]);
}

#[test]
fn execution_errors_say_what_went_wrong() {
    assert_eq!(
        ExecutionError::TapeUnderflow.summary(),
        "Data pointer moved below the start of the tape"
    );
    assert_eq!(
        ExecutionError::TapeOverflow.summary(),
        "Data pointer moved past the end of the tape"
    );
    assert_eq!(ExecutionError::IoFailure.summary(), "Input or output stream failed");
}
