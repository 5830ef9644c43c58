//! What holds of the branches of a compiled function: every instruction
//! that names a block names one of the function's own block list, whatever
//! the source text.

use crate::interpret::ast::{BlockView, ParserView};
use crate::interpret::grammar::{
    bytecode, function, instruction, instructions, lemma_bytecode_follows, named_block,
    result_clause, skip_name, var_clause, var_clauses,
};
use crate::interpret::lexer::TokenView;
use crate::interpret::op::OpView;
use vstd::prelude::*;

verus! {

/// Whether `op`, if it names a block, names one of the first `blocks`
/// blocks.
pub open spec fn names_block_below(op: OpView, blocks: int) -> bool {
    match op {
        OpView::BLK(b) | OpView::LOOP(b) | OpView::BR(b) | OpView::BRIF(b) => b < blocks,
        _ => true,
    }
}

/// What holds while the function whose code starts at `base` is compiled:
/// the function has a block list; every open block is in the list; every
/// instruction emitted for the function that names a block names one of the
/// list; and the list has no more blocks than tokens were read.
pub open spec fn branches_resolved(p: ParserView, base: int) -> bool {
    let f = p.functions.len() as int;
    &&& p.scanner.wf()
    &&& p.scanner.tokens.len() <= usize::MAX
    &&& 0 <= base <= p.code.len()
    &&& f < p.blks_table.len()
    &&& p.blks_table[f].len() <= p.scanner.curr
    &&& forall|k: int| 0 <= k < p.blks_stack.len() ==> #[trigger] p.blks_stack[k] < p.blks_table[f].len()
    &&& forall|i: int| base <= i < p.code.len() ==> names_block_below(#[trigger] p.code[i], p.blks_table[f].len() as int)
}

/// What compiling a part of a function leaves as it is: the code emitted
/// before, the functions, and the block lists of the other functions.
pub open spec fn extends(q: ParserView, p: ParserView) -> bool {
    &&& q.functions == p.functions
    &&& q.blks_table.len() == p.blks_table.len()
    &&& p.code.len() <= q.code.len()
    &&& forall|i: int| 0 <= i < p.code.len() ==> #[trigger] q.code[i] == p.code[i]
    &&& forall|g: int| 0 <= g < p.blks_table.len() && g != p.functions.len() ==> #[trigger] q.blks_table[g] == p.blks_table[g]
}

/// A block that is found by its name is a block of the list.
pub proof fn lemma_named_block_exists(
    blocks: Seq<BlockView>,
    stack: Seq<usize>,
    id: Seq<char>,
    open: int,
)
    ensures
        named_block(blocks, stack, id, open) matches Some(idx) ==> idx < blocks.len(),
    decreases open,
{
    if 0 < open <= stack.len() {
        lemma_named_block_exists(blocks, stack, id, open - 1);
    }
}

/// An instruction that is compiled names, if it names a block, a block of
/// the function's list, and keeps what was resolved before resolved.
pub proof fn lemma_instruction_resolves(p: ParserView, slots: Map<Seq<char>, usize>, base: int)
    requires
        branches_resolved(p, base),
    ensures
        instruction(p, slots) matches Ok((q, found)) ==> branches_resolved(q, base) && extends(q, p),
{
    match p.tok(1) {
        Some(TokenView::Kwd(inst)) => {
            let p1 = p.moved(1);
            let f = p.functions.len() as int;
            lemma_named_block_exists(
                p1.blks_table[f],
                p1.blks_stack,
                match p1.tok(1) {
                    Some(TokenView::Id(id)) => id,
                    _ => Seq::empty(),
                },
                p1.blks_stack.len() as int,
            );
            match bytecode(p1, inst, slots) {
                Err(e) => {},
                Ok((q0, op)) => {
                    let q = q0.emit(op);
                    let n = q.blks_table[f].len() as int;
                    assert(p.blks_table[f].len() <= n);
                    assert(names_block_below(op, n));
                    assert forall|k: int| 0 <= k < q.blks_stack.len() implies #[trigger] q.blks_stack[k] < n by {
                        if k < p.blks_stack.len() {
                            assert(p.blks_stack[k] < p.blks_table[f].len());
                        }
                    }
                    assert forall|i: int| base <= i < q.code.len() implies names_block_below(
                        #[trigger] q.code[i],
                        n,
                    ) by {
                        if i < p.code.len() {
                            assert(names_block_below(p.code[i], p.blks_table[f].len() as int));
                        }
                    }
                },
            }
        },
        _ => {},
    }
}

/// A run of instructions that is compiled keeps the branches resolved.
pub proof fn lemma_instructions_resolve(p: ParserView, slots: Map<Seq<char>, usize>, base: int)
    requires
        branches_resolved(p, base),
    ensures
        instructions(p, slots) matches Ok(q) ==> branches_resolved(q, base) && extends(q, p),
    decreases p.scanner.remaining(),
{
    match instruction(p, slots) {
        Err(e) => {},
        Ok((q, found)) => {
            if found {
                lemma_instruction_resolves(p, slots, base);
                lemma_bytecode_follows(p.moved(1), p.tok(1)->0->Kwd_0, slots);
                lemma_instructions_resolve(q, slots, base);
            }
        },
    }
}

/// Reading a run of clauses moves the cursor and nothing else.
pub proof fn lemma_var_clauses_move_only(
    p: ParserView,
    word: Seq<char>,
    slots: Map<Seq<char>, usize>,
    slot: u32,
)
    requires
        p.scanner.wf(),
    ensures
        var_clauses(p, word, slots, slot) matches Ok((q, _, _)) ==> q == (ParserView {
            scanner: q.scanner,
            ..p
        }) && q.scanner.tokens == p.scanner.tokens && p.scanner.curr <= q.scanner.curr
            && q.scanner.wf(),
    decreases p.scanner.remaining(),
{
    match var_clause(p, word, slots, slot) {
        Err(e) => {},
        Ok((q, named, found)) => {
            if found && slot < u32::MAX {
                lemma_var_clauses_move_only(q, word, named, (slot + 1) as u32);
            }
        },
    }
}

/// In the code of a function that the compiler yields, every instruction
/// that names a block names a block of the function's own block list: a
/// branch that runs finds its block.  The code emitted before the function
/// and the block lists of the other functions stay as they are.
pub proof fn law_branches_name_blocks_of_their_function(p: ParserView)
    requires
        p.scanner.wf(),
        p.scanner.tokens.len() <= usize::MAX,
        p.functions.len() < p.blks_table.len(),
        p.blks_table[p.functions.len() as int].len() == 0,
        p.blks_stack.len() == 0,
    ensures
        function(p) matches Ok((q, _)) ==> extends(q, p) && forall|i: int|
            p.code.len() <= i < q.code.len() ==> names_block_below(
                #[trigger] q.code[i],
                q.blks_table[p.functions.len() as int].len() as int,
            ),
{
    let base = p.code.len() as int;
    let p0 = skip_name(p);
    lemma_var_clauses_move_only(p0, "param"@, Map::empty(), 0);
    match var_clauses(p0, "param"@, Map::empty(), 0) {
        Err(e) => {},
        Ok((q1, params, args)) => match result_clause(q1) {
            Err(e) => {},
            Ok((q2, result)) => {
                lemma_var_clauses_move_only(q2, "local"@, params, args);
                match var_clauses(q2, "local"@, params, args) {
                    Err(e) => {},
                    Ok((q3, slots, used)) => {
                        assert(branches_resolved(q3, base));
                        lemma_instructions_resolve(q3, slots, base);
                        match instructions(q3, slots) {
                            Err(e) => {},
                            Ok(q4) => {
                                let q = q4.emit(OpView::RET).moved(1);
                                assert(extends(q, p));
                            },
                        }
                    },
                }
            },
        }
    }
}

} // verus!
