//! The faults that validation and execution report.

use vstd::prelude::*;
use vstd::string::StringExecFns;
use crate::text::{diagnostic, diagnostic_text, position_text, push_position};

verus! {

/// Possible errors during the bracket matching algorithm. Each names the source, the line and
/// the column of the offending bracket.
#[derive(Debug, PartialEq)]
pub enum BracketMatchError {
    /// An opening bracket never found a matching closing bracket.
    ExtraOpeningBracket(String, usize, usize),
    /// A closing bracket was found when all opening brackets were matched.
    ExtraClosingBracket(String, usize, usize),
}

impl BracketMatchError {
    /// The source that holds the offending bracket.
    pub open spec fn source(self) -> Seq<char> {
        match self {
            BracketMatchError::ExtraOpeningBracket(s, _, _) => s@,
            BracketMatchError::ExtraClosingBracket(s, _, _) => s@,
        }
    }

    /// The line of the offending bracket.
    pub open spec fn line(self) -> nat {
        match self {
            BracketMatchError::ExtraOpeningBracket(_, l, _) => l as nat,
            BracketMatchError::ExtraClosingBracket(_, l, _) => l as nat,
        }
    }

    /// The column of the offending bracket.
    pub open spec fn column(self) -> nat {
        match self {
            BracketMatchError::ExtraOpeningBracket(_, _, c) => c as nat,
            BracketMatchError::ExtraClosingBracket(_, _, c) => c as nat,
        }
    }

    /// What is wrong, without the place.
    pub open spec fn summary_text(self) -> Seq<char> {
        match self {
            BracketMatchError::ExtraOpeningBracket(_, _, _) => "Unmatched bracket '['"@,
            BracketMatchError::ExtraClosingBracket(_, _, _) => "Unexpected closing bracket ']'"@,
        }
    }

    /// The sentence that reports the fault: what is wrong, then ` at [source:line:column]`.
    pub open spec fn message_text(self) -> Seq<char> {
        self.summary_text() + " at ["@ + position_text(self.source(), self.line(), self.column())
            + "]"@
    }

    /// What is wrong, without the place.
    pub fn summary(&self) -> (r: &'static str)
        ensures
            r@ == self.summary_text(),
    {
        match self {
            BracketMatchError::ExtraOpeningBracket(_, _, _) => "Unmatched bracket '['",
            BracketMatchError::ExtraClosingBracket(_, _, _) => "Unexpected closing bracket ']'",
        }
    }

    /// The sentence that reports the fault.
    pub fn message(&self) -> (r: String)
        ensures
            r@ == self.message_text(),
    {
        let mut r = String::from_str(self.summary());
        r.append(" at [");
        match self {
            BracketMatchError::ExtraOpeningBracket(s, l, c) => {
                push_position(&mut r, s.as_str(), *l, *c);
            },
            BracketMatchError::ExtraClosingBracket(s, l, c) => {
                push_position(&mut r, s.as_str(), *l, *c);
            },
        }
        r.append("]");
        assert(r@ =~= self.message_text());
        r
    }

    /// The one-line diagnostic `source:line:column: what is wrong`.
    pub fn diagnostic(&self) -> (r: String)
        ensures
            r@ == diagnostic_text(self.source(), self.line(), self.column(), self.summary_text()),
    {
        match self {
            BracketMatchError::ExtraOpeningBracket(s, l, c) => diagnostic(
                s.as_str(),
                *l,
                *c,
                self.summary(),
            ),
            BracketMatchError::ExtraClosingBracket(s, l, c) => diagnostic(
                s.as_str(),
                *l,
                *c,
                self.summary(),
            ),
        }
    }
}

/// The faults that stop a running program.
#[derive(Clone, Copy, Debug, PartialEq, Eq, Structural)]
pub enum ExecutionError {
    /// The data pointer was moved below the first cell of the tape.
    TapeUnderflow,
    /// The data pointer was moved past the last cell of a tape that may not grow.
    TapeOverflow,
    /// The input or the output stream reported a fault.
    IoFailure,
}

impl ExecutionError {
    /// What went wrong, in words.
    pub open spec fn summary_text(self) -> Seq<char> {
        match self {
            ExecutionError::TapeUnderflow => "Data pointer moved below the start of the tape"@,
            ExecutionError::TapeOverflow => "Data pointer moved past the end of the tape"@,
            ExecutionError::IoFailure => "Input or output stream failed"@,
        }
    }

    /// What went wrong, in words.
    pub fn summary(&self) -> (r: &'static str)
        ensures
            r@ == self.summary_text(),
    {
        match self {
            ExecutionError::TapeUnderflow => "Data pointer moved below the start of the tape",
            ExecutionError::TapeOverflow => "Data pointer moved past the end of the tape",
            ExecutionError::IoFailure => "Input or output stream failed",
        }
    }
}

} // verus!
