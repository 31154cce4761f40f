//! Loop nesting: which `[` belongs to which `]`, and the jump table that
//! records it.

use std::collections::HashMap;
use vstd::prelude::*;
use crate::error::StructuralError;
use crate::instruction::Instruction;
use crate::machine::jumps_cover;

verus! {

broadcast use vstd::std_specs::hash::group_hash_axioms;

/// What an instruction does to the nesting depth.
pub open spec fn delta(instruction: Instruction) -> int {
    match instruction {
        Instruction::BeginLoop => 1,
        Instruction::EndLoop => -1,
        _ => 0,
    }
}

/// The nesting depth in front of position `n`: the number of `[` minus the
/// number of `]` among the first `n` instructions.
pub open spec fn depth(code: Seq<Instruction>, n: int) -> int
    decreases n,
{
    if n <= 0 {
        0
    } else {
        depth(code, n - 1) + delta(code[n - 1])
    }
}

/// Properly nested loops: the depth never drops below zero and is zero at
/// the end.
pub open spec fn balanced(code: Seq<Instruction>) -> bool {
    &&& forall|n: int| 0 <= n <= code.len() ==> depth(code, n) >= 0
    &&& depth(code, code.len() as int) == 0
}

/// The `[` at `open` and the `]` at `close` belong together: `close` is the
/// first position after `open` at which the depth is back to what it was in
/// front of `open`.
pub open spec fn matched(code: Seq<Instruction>, open: int, close: int) -> bool {
    &&& 0 <= open < close < code.len()
    &&& code[open] == Instruction::BeginLoop
    &&& code[close] == Instruction::EndLoop
    &&& depth(code, close + 1) == depth(code, open)
    &&& forall|k: int| open < k <= close ==> depth(code, k) > depth(code, open)
}

/// The positions `p` and `q` hold the two ends of one loop, in either order.
pub open spec fn paired(code: Seq<Instruction>, p: int, q: int) -> bool {
    matched(code, p, q) || matched(code, q, p)
}

/// The other end of the loop of which position `p` holds one end.
pub open spec fn partner(code: Seq<Instruction>, p: int) -> int {
    choose|q: int| paired(code, p, q)
}

/// The jump table of a program: defined at the positions of its loop
/// instructions and nowhere else, it maps each end of a loop to the other.
pub open spec fn jump_table(code: Seq<Instruction>) -> Map<usize, usize> {
    Map::new(
        |p: usize| p < code.len() && code[p as int].is_bracket(),
        |p: usize| partner(code, p as int) as usize,
    )
}

/// A `[` on the stack of open loops while the scan stands at `upto`: it is
/// the `level`-th loop still open, and the depth has stayed above `level`
/// ever since.
spec fn pending(code: Seq<Instruction>, open: int, level: int, upto: int) -> bool {
    &&& 0 <= open < upto
    &&& code[open] == Instruction::BeginLoop
    &&& depth(code, open) == level
    &&& forall|k: int| open < k <= upto ==> depth(code, k) > level
}

/// A loop has one partner only: whatever is paired with `p` is
/// `partner(code, p)`.
pub proof fn lemma_partner_unique(code: Seq<Instruction>, p: int, q: int)
    requires
        paired(code, p, q),
    ensures
        partner(code, p) == q,
        partner(code, q) == p,
{
    let q_other = partner(code, p);
    assert(paired(code, p, q_other));
    let p_other = partner(code, q);
    assert(paired(code, q, p));
    assert(paired(code, q, p_other));
    if matched(code, p, q) {
        assert(matched(code, p, q_other));
        assert(matched(code, p_other, q));
        if q_other < q {
            assert(depth(code, q_other + 1) > depth(code, p));
        } else if q < q_other {
            assert(depth(code, q + 1) > depth(code, p));
        }
        if p_other < p {
            assert(depth(code, p) > depth(code, p_other));
        } else if p < p_other {
            assert(depth(code, p_other) > depth(code, p));
        }
    } else {
        assert(matched(code, q, p));
        assert(matched(code, q_other, p));
        assert(matched(code, q, p_other));
        if p_other < p {
            assert(depth(code, p_other + 1) > depth(code, q));
        } else if p < p_other {
            assert(depth(code, p + 1) > depth(code, q));
        }
        if q_other < q {
            assert(depth(code, q) > depth(code, q_other));
        } else if q < q_other {
            assert(depth(code, q_other) > depth(code, q));
        }
    }
}

/// Scans to the right of an open `[` for the `]` that closes it.
proof fn lemma_find_close(code: Seq<Instruction>, open: int, k: int) -> (close: int)
    requires
        0 <= open < k <= code.len(),
        code[open] == Instruction::BeginLoop,
        forall|j: int| open < j <= k ==> depth(code, j) > depth(code, open),
        depth(code, code.len() as int) <= depth(code, open),
    ensures
        matched(code, open, close),
    decreases code.len() - k,
{
    assert(depth(code, k) > depth(code, open));
    assert(depth(code, k + 1) == depth(code, k) + delta(code[k]));
    if depth(code, k + 1) > depth(code, open) {
        lemma_find_close(code, open, k + 1)
    } else {
        k
    }
}

/// Scans to the left of a `]` for the `[` that it closes.
proof fn lemma_find_open(code: Seq<Instruction>, close: int, k: int) -> (open: int)
    requires
        0 <= k <= close < code.len(),
        code[close] == Instruction::EndLoop,
        forall|j: int| k < j <= close ==> #[trigger] depth(code, j) > depth(code, close + 1),
        depth(code, close + 1) >= 0,
    ensures
        matched(code, open, close),
    decreases k,
{
    assert(depth(code, k + 1) == depth(code, k) + delta(code[k]));
    if depth(code, k) > depth(code, close + 1) {
        lemma_find_open(code, close, k - 1)
    } else {
        assert(depth(code, k + 1) > depth(code, close + 1));
        k
    }
}

/// In a program with properly nested loops every loop instruction has its
/// partner, and the partner is a position of the program.
pub proof fn lemma_balanced_has_partner(code: Seq<Instruction>, p: int)
    requires
        balanced(code),
        0 <= p < code.len(),
        code[p].is_bracket(),
    ensures
        paired(code, p, partner(code, p)),
        0 <= partner(code, p) < code.len(),
        code[partner(code, p)].is_bracket(),
{
    if code[p] == Instruction::BeginLoop {
        assert(depth(code, p + 1) == depth(code, p) + 1);
        let q = lemma_find_close(code, p, p + 1);
        assert(paired(code, p, q));
    } else {
        assert(depth(code, p + 1) == depth(code, p) - 1);
        let q = lemma_find_open(code, p, p);
        assert(paired(code, p, q));
    }
}

/// A loop that begins inside another ends inside it: the partner of a
/// position strictly between the two ends of a loop lies strictly between
/// them too.
pub proof fn lemma_nested_loops(code: Seq<Instruction>, open: int, close: int, p: int, q: int)
    requires
        matched(code, open, close),
        open < p < close,
        paired(code, p, q),
    ensures
        open < q < close,
{
    if matched(code, p, q) {
        if q == close {
            lemma_partner_unique(code, p, q);
            lemma_partner_unique(code, open, close);
        } else if q > close {
            assert(depth(code, close + 1) > depth(code, p));
            assert(depth(code, p) > depth(code, open));
        }
    } else {
        if q == open {
            lemma_partner_unique(code, q, p);
            lemma_partner_unique(code, open, close);
        } else if q < open {
            assert(depth(code, open) > depth(code, q));
            assert(depth(code, p + 1) > depth(code, open));
        }
    }
}

/// The jump table of a program with properly nested loops is symmetric: it
/// is defined at the target of each of its keys, and maps that target back
/// to the key. Every target is a position of the program.
pub proof fn lemma_jump_table_symmetric(code: Seq<Instruction>)
    requires
        balanced(code),
        code.len() <= usize::MAX,
    ensures
        forall|p: usize| #[trigger]
            jump_table(code).contains_key(p) ==> jump_table(code).contains_key(
                jump_table(code)[p],
            ) && jump_table(code)[jump_table(code)[p]] == p,
        jumps_cover(code, jump_table(code)),
{
    let table = jump_table(code);
    assert forall|p: usize| #[trigger] table.contains_key(p) implies table.contains_key(table[p])
        && table[table[p]] == p && table[p] < code.len() by {
        lemma_balanced_has_partner(code, p as int);
        let q = partner(code, p as int);
        lemma_partner_unique(code, p as int, q);
        assert(table.contains_key(q as usize));
    }
}

/// Builds the jump table of `code` in one pass from left to right. A stack
/// holds the positions of the loops that are open; each `]` closes the loop
/// on top of it, and both ends are recorded. A `]` that finds the stack
/// empty, or a `[` left on it at the end, is a structural error.
pub fn build_matched_loops(code: Vec<Instruction>) -> (r: Result<
    HashMap<usize, usize>,
    StructuralError,
>)
    ensures
        r is Ok <==> balanced(code@),
        r matches Ok(table) ==> {
            &&& table@ == jump_table(code@)
            &&& jumps_cover(code@, table@)
            &&& forall|p: usize| #[trigger]
                table@.contains_key(p) ==> table@.contains_key(table@[p]) && table@[table@[p]] == p
        },
        r matches Err(e) ==> e == StructuralError::UnbalancedLoop,
{
    let mut stack: Vec<usize> = Vec::new();
    let mut table: HashMap<usize, usize> = HashMap::new();
    let n = code.len();
    let mut index: usize = 0;
    while index < n
        invariant
            n == code.len(),
            index <= n,
            forall|k: int| 0 <= k <= index ==> depth(code@, k) >= 0,
            stack.len() == depth(code@, index as int),
            forall|j: int|
                0 <= j < stack.len() ==> pending(code@, #[trigger] stack[j] as int, j, index as int),
            forall|p: usize| #[trigger]
                table@.contains_key(p) ==> p < index && table@[p] < index && paired(
                    code@,
                    p as int,
                    table@[p] as int,
                ),
            forall|p: int|
                0 <= p < index && #[trigger] code@[p] == Instruction::EndLoop
                    ==> table@.contains_key(p as usize),
            forall|p: int|
                0 <= p < index && #[trigger] code@[p] == Instruction::BeginLoop
                    ==> table@.contains_key(p as usize) || exists|j: int|
                    0 <= j < stack.len() && #[trigger] stack[j] == p,
        decreases n - index,
    {
        let instruction = code[index];
        assert(depth(code@, index + 1) == depth(code@, index as int) + delta(code@[index as int]));
        match instruction {
            Instruction::BeginLoop => {
                let ghost before = stack@;
                stack.push(index);
                assert forall|p: int|
                    0 <= p < index + 1 && #[trigger] code@[p] == Instruction::BeginLoop
                    implies table@.contains_key(p as usize) || exists|j: int|
                    0 <= j < stack.len() && #[trigger] stack[j] == p by {
                    if p == index {
                        assert(stack[before.len() as int] == p);
                    } else if !table@.contains_key(p as usize) {
                        let j = choose|j: int| 0 <= j < before.len() && #[trigger] before[j] == p;
                        assert(stack[j] == p);
                    }
                }
            },
            Instruction::EndLoop => {
                let ghost before = stack@;
                match stack.pop() {
                    None => {
                        assert(depth(code@, index + 1) < 0);
                        return Err(StructuralError::UnbalancedLoop);
                    },
                    Some(matching) => {
                        assert(pending(
                            code@,
                            before[before.len() - 1] as int,
                            before.len() - 1,
                            index as int,
                        ));
                        assert(matched(code@, matching as int, index as int));
                        table.insert(matching, index);
                        table.insert(index, matching);
                        assert forall|p: int|
                            0 <= p < index + 1 && #[trigger] code@[p] == Instruction::BeginLoop
                            implies table@.contains_key(p as usize) || exists|j: int|
                            0 <= j < stack.len() && #[trigger] stack[j] == p by {
                            if !table@.contains_key(p as usize) {
                                let j = choose|j: int|
                                    0 <= j < before.len() && #[trigger] before[j] == p;
                                assert(stack[j] == p);
                            }
                        }
                    },
                }
            },
            _ => {},
        }
        index += 1;
    }
    if stack.len() != 0 {
        return Err(StructuralError::UnbalancedLoop);
    }
    proof {
        assert forall|p: usize| #[trigger] table@.contains_key(p) implies table@[p] == partner(
            code@,
            p as int,
        ) && table@.contains_key(table@[p]) && table@[table@[p]] == p by {
            let q = table@[p];
            lemma_partner_unique(code@, p as int, q as int);
            assert(code@[q as int].is_bracket());
            assert(table@.contains_key(q));
            assert(paired(code@, q as int, table@[q] as int));
            lemma_partner_unique(code@, q as int, table@[q] as int);
        }
        assert(table@ =~= jump_table(code@));
    }
    Ok(table)
}

} // verus!
