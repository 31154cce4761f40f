//! The lexer: from source text to a program and its jump table.

use std::collections::HashMap;
use vstd::prelude::*;
use crate::error::StructuralError;
use crate::instruction::{decode, Instruction};
use crate::machine::jumps_cover;
use crate::nesting::{balanced, build_matched_loops, jump_table};

verus! {

broadcast use vstd::string::group_string_axioms;

/// The program that a source text denotes: the instructions of its
/// recognised characters, in order. Every other character is skipped.
pub open spec fn program_of(text: Seq<char>) -> Seq<Instruction> {
    text.filter_map(|c: char| decode(c))
}

/// Lexes `source` and resolves the jump targets of its loops. Fails when the
/// loop symbols of `source` are not properly nested.
pub fn lex(source: &str) -> (r: Result<(Vec<Instruction>, HashMap<usize, usize>), StructuralError>)
    ensures
        r is Ok <==> balanced(program_of(source@)),
        r matches Ok((code, table)) ==> {
            &&& code@ == program_of(source@)
            &&& table@ == jump_table(code@)
            &&& jumps_cover(code@, table@)
            &&& forall|p: usize| #[trigger]
                table@.contains_key(p) ==> table@.contains_key(table@[p]) && table@[table@[p]] == p
        },
        r matches Err(e) ==> e == StructuralError::UnbalancedLoop,
{
    let mut codes: Vec<Instruction> = Vec::new();
    for c in iter: source.chars()
        invariant
            iter.seq() == source@,
            codes@ == program_of(source@.take(iter.index() as int)),
    {
        proof {
            source@.lemma_filter_map_take_succ(|c: char| decode(c), iter.index() as int);
        }
        match Instruction::from_char(c) {
            Some(instruction) => codes.push(instruction),
            None => {},
        }
    }
    assert(source@.take(source@.len() as int) =~= source@);
    let copy = codes.clone();
    assert(copy@ =~= codes@);
    match build_matched_loops(copy) {
        Ok(table) => Ok((codes, table)),
        Err(e) => Err(e),
    }
}

} // verus!
