use bft::{
    run_bft, BFprogram, BracketMatchError, ByteStreams, ExecutionError, Opt, RunError, RunStatus,
};

fn options(cells: Option<usize>, extensible: bool) -> Opt {
    Opt { program: "run.bf".to_string(), cells, extensible }
}

#[test]
fn runs_a_program_to_its_end() {
    let mut io = ByteStreams::new(b"ab".to_vec());
    let outcome = run_bft(&options(None, false), b",+.>,+.", &mut io, 1000);
    assert_eq!(outcome, Ok(RunStatus::Finished));
    assert_eq!(io.output(), b"bc");
    assert_eq!(io.consumed(), 2);
}

#[test]
fn an_empty_program_finishes_at_once() {
    let mut io = ByteStreams::new(b"unread".to_vec());
    assert_eq!(run_bft(&options(None, false), b"", &mut io, 0), Ok(RunStatus::Finished));
    assert_eq!(io.consumed(), 0);
    assert!(io.output().is_empty());
}

#[test]
fn unmatched_brackets_stop_the_run_before_it_starts() {
    let mut io = ByteStreams::new(b"x".to_vec());
    let outcome = run_bft(&options(None, false), b"+.,\n+.]", &mut io, 1000);
    assert_eq!(
        outcome,
        Err(RunError::Brackets(BracketMatchError::ExtraClosingBracket("run.bf".into(), 2, 3)))
    );
    assert!(io.output().is_empty());
    assert_eq!(io.consumed(), 0);
    assert_eq!(outcome.unwrap_err().diagnostic(), "run.bf:2:3: Unexpected closing bracket ']'");

    let outcome = run_bft(&options(None, false), b"[+", &mut io, 1000);
    assert_eq!(
        outcome,
        Err(RunError::Brackets(BracketMatchError::ExtraOpeningBracket("run.bf".into(), 1, 1)))
    );
}

#[test]
fn a_fault_names_the_instruction_that_failed() {
    let mut io = ByteStreams::new(Vec::new());
    let outcome = run_bft(&options(None, false), b"+.\n  +. <", &mut io, 1000);
    assert_eq!(
        outcome,
        Err(RunError::Execution {
            error: ExecutionError::TapeUnderflow,
            source: "run.bf".to_string(),
            line: 2,
            column: 6,
        })
    );
    assert_eq!(io.output(), [1u8, 2]);
    assert_eq!(
        outcome.unwrap_err().diagnostic(),
        "run.bf:2:6: Data pointer moved below the start of the tape"
    );
}

#[test]
fn the_options_shape_the_tape() {
    let mut io = ByteStreams::new(Vec::new());
    assert_eq!(
        run_bft(&options(Some(2), false), b">>", &mut io, 1000),
        Err(RunError::Execution {
            error: ExecutionError::TapeOverflow,
            source: "run.bf".to_string(),
            line: 1,
            column: 2,
        })
    );
    assert_eq!(run_bft(&options(Some(2), true), b">>", &mut io, 1000), Ok(RunStatus::Finished));
    assert_eq!(run_bft(&options(Some(3), false), b">>", &mut io, 1000), Ok(RunStatus::Finished));
    assert_eq!(run_bft(&options(Some(0), false), b">>", &mut io, 1000), Ok(RunStatus::Finished));
    assert_eq!(run_bft(&options(Some(1), false), b"+-", &mut io, 1000), Ok(RunStatus::Finished));
}

#[test]
fn the_default_tape_has_thirty_thousand_cells() {
    let mut io = ByteStreams::new(Vec::new());
    let mut source = vec![b'>'; 29999];
    assert_eq!(run_bft(&options(None, false), &source, &mut io, 100000), Ok(RunStatus::Finished));
    source.push(b'>');
    assert_eq!(
        run_bft(&options(None, false), &source, &mut io, 100000),
        Err(RunError::Execution {
            error: ExecutionError::TapeOverflow,
            source: "run.bf".to_string(),
            line: 1,
            column: 30000,
        })
    );
}

#[test]
fn an_endless_program_runs_out_of_steps() {
    let mut io = ByteStreams::new(Vec::new());
    assert_eq!(run_bft(&options(None, false), b"+[]", &mut io, 12345), Ok(RunStatus::OutOfSteps));
    assert_eq!(run_bft(&options(None, false), b"+[.]", &mut io, 9), Ok(RunStatus::OutOfSteps));
    assert_eq!(io.output(), [1u8, 1, 1]);
}

#[test]
fn a_fault_is_located_in_its_program() {
    let mut program = BFprogram::new("where.bf", b"\n\n   <");
    program.validate_brackets().unwrap();
    let fault = RunError::at(&program, 0, ExecutionError::IoFailure);
    assert_eq!(
        fault,
        RunError::Execution {
            error: ExecutionError::IoFailure,
            source: "where.bf".to_string(),
            line: 3,
            column: 4,
        }
    );
    assert_eq!(fault.diagnostic(), "where.bf:3:4: Input or output stream failed");
}
