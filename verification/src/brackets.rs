//! Loop brackets: nesting depth, matched pairs, jump tables, and the single pass that
//! matches them.
//!
//! Everything here is stated over the nesting depth of a prefix: the number of loops that the
//! first `k` instructions have opened and not yet closed. A `BeginLoop` and an `EndLoop` match
//! when the depth returns, right after the `EndLoop`, to what it was right before the
//! `BeginLoop`, for the first time.

use vstd::prelude::*;
use crate::instruction::{opcodes, InputInstruction, Instruction};

verus! {

/// What one instruction adds to the nesting depth.
pub open spec fn delta(op: Instruction) -> int {
    match op {
        Instruction::BeginLoop => 1,
        Instruction::EndLoop => -1,
        _ => 0,
    }
}

/// The nesting depth after the first `k` instructions: loops opened minus loops closed.
pub open spec fn depth(ops: Seq<Instruction>, k: int) -> int
    decreases k,
{
    if k <= 0 {
        0
    } else {
        depth(ops, k - 1) + delta(ops[k - 1])
    }
}

/// No prefix closes more loops than it has opened.
pub open spec fn never_negative(ops: Seq<Instruction>) -> bool {
    forall|k: int| 0 <= k <= ops.len() ==> depth(ops, k) >= 0
}

/// Every loop that is opened is closed, and nothing else is closed.
pub open spec fn balanced(ops: Seq<Instruction>) -> bool {
    never_negative(ops) && depth(ops, ops.len() as int) == 0
}

/// Instruction `k` is the first `EndLoop` that has no `BeginLoop` to close.
pub open spec fn first_unmatched_close(ops: Seq<Instruction>, k: int) -> bool {
    &&& 0 <= k < ops.len()
    &&& depth(ops, k + 1) < 0
    &&& forall|m: int| 0 <= m <= k ==> depth(ops, m) >= 0
}

/// Instruction `i` is a `BeginLoop` that no later `EndLoop` closes.
pub open spec fn unclosed(ops: Seq<Instruction>, i: int) -> bool {
    &&& 0 <= i < ops.len()
    &&& ops[i] == Instruction::BeginLoop
    &&& forall|m: int| i < m <= ops.len() ==> depth(ops, m) > depth(ops, i)
}

/// Instruction `i` is the last `BeginLoop` that is never closed.
pub open spec fn innermost_unclosed(ops: Seq<Instruction>, i: int) -> bool {
    &&& unclosed(ops, i)
    &&& forall|j: int| i < j < ops.len() ==> !unclosed(ops, j)
}

/// The `BeginLoop` at `i` and the `EndLoop` at `j` delimit one loop.
pub open spec fn is_pair(ops: Seq<Instruction>, i: int, j: int) -> bool {
    &&& 0 <= i < j < ops.len()
    &&& ops[i] == Instruction::BeginLoop
    &&& ops[j] == Instruction::EndLoop
    &&& depth(ops, j + 1) == depth(ops, i)
    &&& forall|k: int| i < k <= j ==> depth(ops, k) > depth(ops, i)
}

/// `table` is the jump table of `ops`: it maps each bracket to its partner, in both
/// directions, and every other instruction to itself.
pub open spec fn is_jump_table(ops: Seq<Instruction>, table: Seq<usize>) -> bool {
    &&& table.len() == ops.len()
    &&& forall|p: int|
        0 <= p < ops.len() ==> match ops[p] {
            Instruction::BeginLoop => is_pair(ops, p, #[trigger] table[p] as int),
            Instruction::EndLoop => is_pair(ops, table[p] as int, p),
            _ => table[p] == p,
        }
}

/// The jump table of a balanced instruction sequence.
pub open spec fn jump_table_of(ops: Seq<Instruction>) -> Seq<usize> {
    choose|table: Seq<usize>| is_jump_table(ops, table)
}

/// How bracket matching fails.
#[derive(Clone, Copy, Debug, PartialEq, Eq, Structural)]
pub enum BracketFault {
    /// The instruction at this index is an `EndLoop` with no open loop to close.
    UnmatchedClose(usize),
    /// The instruction at this index is a `BeginLoop` that is never closed.
    UnmatchedOpen(usize),
}

/// One step of the depth: the depth after `k + 1` instructions from the depth after `k`.
pub proof fn lemma_depth_step(ops: Seq<Instruction>, k: int)
    requires
        0 <= k,
    ensures
        depth(ops, k + 1) == depth(ops, k) + delta(ops[k]),
{
}

/// A loop has one end: a `BeginLoop` is paired with at most one `EndLoop`.
pub proof fn lemma_pair_close_unique(ops: Seq<Instruction>, i: int, j1: int, j2: int)
    requires
        is_pair(ops, i, j1),
        is_pair(ops, i, j2),
    ensures
        j1 == j2,
{
    if j1 < j2 {
        assert(depth(ops, j1 + 1) > depth(ops, i));
    } else if j2 < j1 {
        assert(depth(ops, j2 + 1) > depth(ops, i));
    }
}

/// A loop has one start: an `EndLoop` is paired with at most one `BeginLoop`.
pub proof fn lemma_pair_open_unique(ops: Seq<Instruction>, i1: int, i2: int, j: int)
    requires
        is_pair(ops, i1, j),
        is_pair(ops, i2, j),
    ensures
        i1 == i2,
{
    if i1 < i2 {
        assert(depth(ops, i2) > depth(ops, i1));
    } else if i2 < i1 {
        assert(depth(ops, i1) > depth(ops, i2));
    }
}

/// Two loops never overlap in part: of two matched pairs, the one that starts later either
/// ends before the other ends (it is nested inside) or starts after the other has ended.
pub proof fn lemma_pairs_nest(ops: Seq<Instruction>, i1: int, j1: int, i2: int, j2: int)
    requires
        is_pair(ops, i1, j1),
        is_pair(ops, i2, j2),
        i1 < i2,
    ensures
        j2 < j1 || j1 < i2,
{
    if i2 <= j1 && j1 <= j2 {
        if j1 == j2 {
            lemma_pair_open_unique(ops, i1, i2, j1);
        } else {
            assert(i2 < j1);
            assert(depth(ops, i2) > depth(ops, i1));
            assert(depth(ops, j1 + 1) > depth(ops, i2));
        }
    }
}

/// An instruction sequence has at most one jump table.
pub proof fn lemma_jump_table_unique(ops: Seq<Instruction>, t1: Seq<usize>, t2: Seq<usize>)
    requires
        is_jump_table(ops, t1),
        is_jump_table(ops, t2),
    ensures
        t1 == t2,
{
    assert forall|p: int| 0 <= p < ops.len() implies t1[p] == t2[p] by {
        match ops[p] {
            Instruction::BeginLoop => {
                lemma_pair_close_unique(ops, p, t1[p] as int, t2[p] as int);
            },
            Instruction::EndLoop => {
                lemma_pair_open_unique(ops, t1[p] as int, t2[p] as int, p);
            },
            _ => {},
        }
    }
    assert(t1 =~= t2);
}

/// A jump table, where there is one, is the jump table.
pub proof fn lemma_jump_table_of(ops: Seq<Instruction>, table: Seq<usize>)
    requires
        is_jump_table(ops, table),
    ensures
        table == jump_table_of(ops),
{
    lemma_jump_table_unique(ops, table, jump_table_of(ops));
}

/// Following a jump table from a bracket and back returns to the bracket: the partner of a
/// `BeginLoop` is a later `EndLoop`, the partner of an `EndLoop` is an earlier `BeginLoop`, and
/// each is the partner of its partner.
pub proof fn lemma_jump_table_round_trip(ops: Seq<Instruction>, table: Seq<usize>, p: int)
    requires
        is_jump_table(ops, table),
        0 <= p < ops.len(),
    ensures
        0 <= table[p] < ops.len(),
        table[table[p] as int] == p,
        ops[p] == Instruction::BeginLoop ==> p < table[p] && ops[table[p] as int]
            == Instruction::EndLoop,
        ops[p] == Instruction::EndLoop ==> table[p] < p && ops[table[p] as int]
            == Instruction::BeginLoop,
        !ops[p].is_bracket() ==> table[p] == p,
{
    let q = table[p] as int;
    match ops[p] {
        Instruction::BeginLoop => {
            assert(is_pair(ops, p, q));
            assert(is_pair(ops, table[q] as int, q));
            lemma_pair_open_unique(ops, p, table[q] as int, q);
        },
        Instruction::EndLoop => {
            assert(is_pair(ops, q, p));
            assert(is_pair(ops, q, table[q] as int));
            lemma_pair_close_unique(ops, q, p, table[q] as int);
        },
        _ => {},
    }
}

/// The loops of a jump table are properly nested: for two `BeginLoop`s, the span of the later
/// one lies inside the span of the earlier one or after it.
pub proof fn lemma_jump_table_nests(ops: Seq<Instruction>, table: Seq<usize>, i1: int, i2: int)
    requires
        is_jump_table(ops, table),
        0 <= i1 < i2 < ops.len(),
        ops[i1] == Instruction::BeginLoop,
        ops[i2] == Instruction::BeginLoop,
    ensures
        i1 < table[i1] < ops.len(),
        i2 < table[i2] < ops.len(),
        ops[table[i1] as int] == Instruction::EndLoop,
        ops[table[i2] as int] == Instruction::EndLoop,
        table[i2] < table[i1] || table[i1] < i2,
{
    assert(is_pair(ops, i1, table[i1] as int));
    assert(is_pair(ops, i2, table[i2] as int));
    lemma_pairs_nest(ops, i1, table[i1] as int, i2, table[i2] as int);
}

proof fn lemma_table_never_negative(ops: Seq<Instruction>, table: Seq<usize>, k: int)
    requires
        is_jump_table(ops, table),
        0 <= k <= ops.len(),
    ensures
        depth(ops, k) >= 0,
    decreases k,
{
    if k > 0 {
        lemma_table_never_negative(ops, table, k - 1);
        if ops[k - 1] == Instruction::EndLoop {
            let i = table[k - 1] as int;
            assert(is_pair(ops, i, k - 1));
            lemma_table_never_negative(ops, table, i);
        }
    }
}

/// The last point, up to `k`, at which the depth was zero.
proof fn lemma_last_zero(ops: Seq<Instruction>, k: int) -> (q: int)
    requires
        0 <= k,
    ensures
        0 <= q <= k,
        depth(ops, q) == 0,
        forall|m: int| q < m <= k ==> depth(ops, m) != 0,
    decreases k,
{
    if depth(ops, k) == 0 {
        k
    } else {
        lemma_last_zero(ops, k - 1)
    }
}

/// Only a balanced instruction sequence has a jump table.
pub proof fn lemma_jump_table_balanced(ops: Seq<Instruction>, table: Seq<usize>)
    requires
        is_jump_table(ops, table),
    ensures
        balanced(ops),
{
    let n = ops.len() as int;
    assert forall|k: int| 0 <= k <= n implies depth(ops, k) >= 0 by {
        lemma_table_never_negative(ops, table, k);
    }
    if depth(ops, n) != 0 {
        let q = lemma_last_zero(ops, n);
        assert(q < n);
        assert(depth(ops, q + 1) != 0);
        assert(depth(ops, q + 1) >= 0);
        assert(ops[q] == Instruction::BeginLoop);
        let j = table[q] as int;
        assert(is_pair(ops, q, j));
        assert(depth(ops, j + 1) != 0);
    }
}

/// The three outcomes of bracket matching exclude one another: a balanced sequence has
/// neither an unmatched `EndLoop` nor an unclosed `BeginLoop`, and a sequence with an
/// unmatched `EndLoop` has a prefix of negative depth.
pub proof fn lemma_outcomes_exclusive(ops: Seq<Instruction>, k: int)
    ensures
        first_unmatched_close(ops, k) ==> !never_negative(ops),
        never_negative(ops) && unclosed(ops, k) ==> depth(ops, ops.len() as int) > 0,
        balanced(ops) ==> !first_unmatched_close(ops, k) && !unclosed(ops, k),
{
    if never_negative(ops) && unclosed(ops, k) {
        assert(depth(ops, k) >= 0);
        assert(depth(ops, ops.len() as int) > depth(ops, k));
    }
}

/// There is at most one first unmatched `EndLoop`, and at most one innermost unclosed
/// `BeginLoop`.
pub proof fn lemma_fault_unique(ops: Seq<Instruction>, a: int, b: int)
    ensures
        first_unmatched_close(ops, a) && first_unmatched_close(ops, b) ==> a == b,
        innermost_unclosed(ops, a) && innermost_unclosed(ops, b) ==> a == b,
{
    if first_unmatched_close(ops, a) && first_unmatched_close(ops, b) {
        if a < b {
            assert(depth(ops, a + 1) >= 0);
        } else if b < a {
            assert(depth(ops, b + 1) >= 0);
        }
    }
}

/// What the pass knows of its stack after `idx` instructions: it holds, from the bottom up,
/// the `BeginLoop`s that are still open, one for each level of depth.
spec fn open_stack(ops: Seq<Instruction>, stack: Seq<usize>, idx: int) -> bool {
    &&& stack.len() == depth(ops, idx)
    &&& forall|s: int|
        0 <= s < stack.len() ==> {
            &&& 0 <= #[trigger] stack[s] < idx
            &&& ops[stack[s] as int] == Instruction::BeginLoop
            &&& depth(ops, stack[s] as int) == s
            &&& forall|m: int| stack[s] < m <= idx ==> depth(ops, m) > s
        }
}

/// What the pass knows of its table after `idx` instructions: closed loops are paired, open
/// ones are on the stack and, like every other instruction, still map to themselves.
spec fn partial_table(ops: Seq<Instruction>, table: Seq<usize>, stack: Seq<usize>, idx: int) -> bool {
    &&& table.len() == idx
    &&& forall|p: int|
        0 <= p < idx ==> match ops[p] {
            Instruction::BeginLoop => is_pair(ops, p, #[trigger] table[p] as int) || (table[p] == p
                && stack.contains(p as usize)),
            Instruction::EndLoop => is_pair(ops, table[p] as int, p),
            _ => table[p] == p,
        }
}

/// Matches the loop brackets of an instruction sequence in one pass from left to right.
///
/// Succeeds exactly on balanced sequences, with their jump table. Otherwise it reports the
/// first `EndLoop` that closes nothing, if there is one, and else the innermost `BeginLoop`
/// that is left open at the end.
pub fn match_brackets(instructions: &[InputInstruction]) -> (r: Result<Vec<usize>, BracketFault>)
    ensures
        r is Ok <==> balanced(opcodes(instructions@)),
        match r {
            Ok(table) => table@ == jump_table_of(opcodes(instructions@)) && is_jump_table(
                opcodes(instructions@),
                table@,
            ),
            Err(BracketFault::UnmatchedClose(k)) => first_unmatched_close(
                opcodes(instructions@),
                k as int,
            ),
            Err(BracketFault::UnmatchedOpen(i)) => never_negative(opcodes(instructions@))
                && innermost_unclosed(opcodes(instructions@), i as int),
        },
{
    let ghost ops = opcodes(instructions@);
    let n = instructions.len();
    let mut stack: Vec<usize> = Vec::new();
    let mut table: Vec<usize> = Vec::new();
    let mut idx: usize = 0;
    while idx < n
        invariant
            n == instructions@.len(),
            ops == opcodes(instructions@),
            0 <= idx <= n,
            open_stack(ops, stack@, idx as int),
            partial_table(ops, table@, stack@, idx as int),
            forall|k: int| 0 <= k <= idx ==> depth(ops, k) >= 0,
        decreases n - idx,
    {
        let ghost old_stack = stack@;
        let ghost old_table = table@;
        proof {
            lemma_depth_step(ops, idx as int);
        }
        match instructions[idx].inst {
            Instruction::BeginLoop => {
                stack.push(idx);
                table.push(idx);
                proof {
                    assert(stack@[old_stack.len() as int] == idx);
                    assert forall|p: int| 0 <= p < idx + 1 implies match ops[p] {
                        Instruction::BeginLoop => is_pair(ops, p, #[trigger] table@[p] as int) || (
                        table@[p] == p && stack@.contains(p as usize)),
                        Instruction::EndLoop => is_pair(ops, table@[p] as int, p),
                        _ => table@[p] == p,
                    } by {
                        if p < idx {
                            assert(table@[p] == old_table[p]);
                            if ops[p] == Instruction::BeginLoop && !is_pair(
                                ops,
                                p,
                                old_table[p] as int,
                            ) {
                                let s = choose|s: int|
                                    0 <= s < old_stack.len() && old_stack[s] == p as usize;
                                assert(stack@[s] == p as usize);
                            }
                        }
                    }
                }
            },
            Instruction::EndLoop => {
                if stack.len() == 0 {
                    proof {
                        lemma_outcomes_exclusive(ops, idx as int);
                    }
                    return Err(BracketFault::UnmatchedClose(idx));
                }
                let open = stack[stack.len() - 1];
                stack.pop();
                table.set(open, idx);
                table.push(open);
                proof {
                    let top = old_stack.len() - 1;
                    assert(old_stack[top] == open);
                    assert(is_pair(ops, open as int, idx as int));
                    assert(stack@ =~= old_stack.subrange(0, top));
                    assert forall|p: int| 0 <= p < idx + 1 implies match ops[p] {
                        Instruction::BeginLoop => is_pair(ops, p, #[trigger] table@[p] as int) || (
                        table@[p] == p && stack@.contains(p as usize)),
                        Instruction::EndLoop => is_pair(ops, table@[p] as int, p),
                        _ => table@[p] == p,
                    } by {
                        if p < idx && p != open {
                            assert(table@[p] == old_table[p]);
                            if ops[p] == Instruction::BeginLoop && !is_pair(
                                ops,
                                p,
                                old_table[p] as int,
                            ) {
                                let s = choose|s: int|
                                    0 <= s < old_stack.len() && old_stack[s] == p as usize;
                                assert(s != top);
                                assert(stack@[s] == p as usize);
                            }
                        }
                    }
                }
            },
            _ => {
                table.push(idx);
                proof {
                    assert forall|p: int| 0 <= p < idx + 1 implies match ops[p] {
                        Instruction::BeginLoop => is_pair(ops, p, #[trigger] table@[p] as int) || (
                        table@[p] == p && stack@.contains(p as usize)),
                        Instruction::EndLoop => is_pair(ops, table@[p] as int, p),
                        _ => table@[p] == p,
                    } by {
                        if p < idx {
                            assert(table@[p] == old_table[p]);
                        }
                    }
                }
            },
        }
        idx = idx + 1;
    }
    if stack.len() > 0 {
        let open = stack[stack.len() - 1];
        proof {
            let top = stack@.len() - 1;
            assert(stack@[top] == open);
            assert(unclosed(ops, open as int));
            assert forall|j: int| open < j < ops.len() implies !unclosed(ops, j) by {
                assert(depth(ops, j) > top);
            }
            lemma_outcomes_exclusive(ops, open as int);
        }
        return Err(BracketFault::UnmatchedOpen(open));
    }
    proof {
        assert forall|p: int| 0 <= p < ops.len() implies match ops[p] {
            Instruction::BeginLoop => is_pair(ops, p, #[trigger] table@[p] as int),
            Instruction::EndLoop => is_pair(ops, table@[p] as int, p),
            _ => table@[p] == p,
        } by {
            if ops[p] == Instruction::BeginLoop && !is_pair(ops, p, table@[p] as int) {
                assert(stack@.contains(p as usize));
            }
        }
        lemma_jump_table_of(ops, table@);
    }
    Ok(table)
}

} // verus!
