//! From source bytes to annotated instructions.
//!
//! Lines end at a line feed and are counted from one. Within a line every byte takes one
//! column, counted from one, whether it is an opcode or commentary. The line feed itself
//! belongs to the line it ends.

use vstd::prelude::*;
use crate::instruction::{opcode_of, InputInstruction, Instruction};

verus! {

/// The byte that ends a line.
pub const LINE_FEED: u8 = 0x0a;

/// The number of line feeds among the first `p` bytes.
pub open spec fn newlines_before(data: Seq<u8>, p: int) -> int
    decreases p,
{
    if p <= 0 {
        0
    } else {
        newlines_before(data, p - 1) + if data[p - 1] == LINE_FEED {
            1int
        } else {
            0int
        }
    }
}

/// The position of the first byte of the line that holds position `p`.
pub open spec fn line_start(data: Seq<u8>, p: int) -> int
    decreases p,
{
    if p <= 0 {
        0
    } else if data[p - 1] == LINE_FEED {
        p
    } else {
        line_start(data, p - 1)
    }
}

/// The line, counted from one, that holds position `p`.
pub open spec fn line_of(data: Seq<u8>, p: int) -> int {
    newlines_before(data, p) + 1
}

/// The column, counted from one, of position `p` within its line.
pub open spec fn column_of(data: Seq<u8>, p: int) -> int {
    p - line_start(data, p) + 1
}

/// The instructions that the first `p` bytes hold, in order, each with its line and column.
pub open spec fn tokens_upto(data: Seq<u8>, p: int) -> Seq<InputInstruction>
    decreases p,
{
    if p <= 0 {
        Seq::empty()
    } else {
        match opcode_of(data[p - 1]) {
            Some(inst) => tokens_upto(data, p - 1).push(
                InputInstruction {
                    inst,
                    line_number: line_of(data, p - 1) as usize,
                    char_number: column_of(data, p - 1) as usize,
                },
            ),
            None => tokens_upto(data, p - 1),
        }
    }
}

/// The instructions that a source holds.
pub open spec fn tokens(data: Seq<u8>) -> Seq<InputInstruction> {
    tokens_upto(data, data.len() as int)
}

/// The number of opcode bytes among the first `p` bytes.
pub open spec fn count_opcodes(data: Seq<u8>, p: int) -> int
    decreases p,
{
    if p <= 0 {
        0
    } else {
        count_opcodes(data, p - 1) + if opcode_of(data[p - 1]) is Some {
            1int
        } else {
            0int
        }
    }
}

/// Lines and columns of a position are at least one and at most the position plus one.
pub proof fn lemma_position_bounds(data: Seq<u8>, p: int)
    requires
        0 <= p,
    ensures
        1 <= line_of(data, p) <= p + 1,
        1 <= column_of(data, p) <= p + 1,
        0 <= line_start(data, p) <= p,
    decreases p,
{
    if p > 0 {
        lemma_position_bounds(data, p - 1);
    }
}

/// Tokenizing yields one instruction for each opcode byte, no more and no fewer.
pub proof fn lemma_tokens_count(data: Seq<u8>, p: int)
    ensures
        tokens_upto(data, p).len() == count_opcodes(data, p),
    decreases p,
{
    if p > 0 {
        lemma_tokens_count(data, p - 1);
    }
}

/// Every instruction stands on a line and in a column that are counted from one.
pub proof fn lemma_tokens_one_based(data: Seq<u8>, p: int, i: int)
    requires
        0 <= p <= usize::MAX,
        0 <= i < tokens_upto(data, p).len(),
    ensures
        1 <= tokens_upto(data, p)[i].line_number <= p,
        1 <= tokens_upto(data, p)[i].char_number <= p,
    decreases p,
{
    if opcode_of(data[p - 1]) is Some && i == tokens_upto(data, p - 1).len() {
        lemma_position_bounds(data, p - 1);
    } else {
        lemma_tokens_one_based(data, p - 1, i);
    }
}

/// Reads the instructions of a source.
///
/// Never fails: a byte that is no opcode is commentary, and a source without opcodes yields
/// no instructions.
pub fn tokenize(data: &[u8]) -> (r: Vec<InputInstruction>)
    ensures
        r@ == tokens(data@),
        r@.len() == count_opcodes(data@, data@.len() as int),
        forall|i: int|
            0 <= i < r@.len() ==> 1 <= (#[trigger] r@[i]).line_number && 1 <= r@[i].char_number,
{
    let n = data.len();
    let mut out: Vec<InputInstruction> = Vec::new();
    let mut line: usize = 0;
    let mut start: usize = 0;
    let mut i: usize = 0;
    while i < n
        invariant
            n == data@.len(),
            0 <= i <= n,
            line == newlines_before(data@, i as int),
            start == line_start(data@, i as int),
            start <= i,
            line <= i,
            out@ == tokens_upto(data@, i as int),
        decreases n - i,
    {
        let c = data[i];
        match Instruction::from_byte(c) {
            Some(inst) => {
                out.push(InputInstruction { inst, line_number: line + 1, char_number: i - start + 1 });
            },
            None => {},
        }
        if c == LINE_FEED {
            line = line + 1;
            start = i + 1;
        }
        i = i + 1;
    }
    proof {
        lemma_tokens_count(data@, n as int);
        assert forall|i: int| 0 <= i < out@.len() implies 1 <= (#[trigger] out@[i]).line_number && 1
            <= out@[i].char_number by {
            lemma_tokens_one_based(data@, n as int, i);
        }
    }
    out
}

} // verus!
