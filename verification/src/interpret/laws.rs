//! What holds of the compiler and the engine whatever the program.

use crate::interpret::ast::{BlockTable, LabelView, Mod, ParserView};
use crate::interpret::error::{CompileError, Fault};
use crate::interpret::grammar::{branch_target, close_block, compile, global_type, open_block};
use crate::interpret::lexer::TokenView;
use crate::interpret::op::OpView;
use crate::interpret::parser::compiled;
use crate::interpret::semantics::{binary, le_bytes, le_value, wrap32, EvalView};
use vstd::prelude::*;

verus! {

/// Compiling is a function of the source text: two compilations of one
/// text fail alike, or yield modules and block tables of the same value,
/// and so bytecode arrays that are equal element by element.
pub proof fn law_compilation_is_deterministic(
    source: Seq<char>,
    first: Result<(Mod, BlockTable), CompileError>,
    second: Result<(Mod, BlockTable), CompileError>,
)
    requires
        compiled(first, compile(source)),
        compiled(second, compile(source)),
    ensures
        first is Ok <==> second is Ok,
        first is Err ==> first->Err_0 == second->Err_0,
        first is Ok ==> first->Ok_0.0@ == second->Ok_0.0@,
        first is Ok ==> first->Ok_0.0@.code.len() == second->Ok_0.0@.code.len(),
        first is Ok ==> forall|i: int|
            0 <= i < first->Ok_0.0@.code.len() ==> first->Ok_0.0@.code[i]
                == second->Ok_0.0@.code[i],
{
}

/// What wrapping keeps of an exact result is congruent to it modulo 2^32,
/// and is the result itself where that fits 32 bits.
#[verifier::rlimit(50)]
pub proof fn law_wrap32(x: int)
    ensures
        (wrap32(x) - x) % 0x1_0000_0000 == 0,
        i32::MIN <= x <= i32::MAX ==> wrap32(x) == x,
{
}

/// Addition, subtraction and multiplication give, for every pair of
/// operands, the result of two's-complement arithmetic on 32 bits: the
/// exact result where it fits, and the integer congruent to it modulo 2^32
/// in every case.  Division and remainder by zero give no value.
#[verifier::rlimit(50)]
pub proof fn law_arithmetic(a: i32, b: i32)
    ensures
        binary(OpView::I32ADD, a, b) == Ok::<i32, Fault>(wrap32(a + b)),
        binary(OpView::I32SUB, a, b) == Ok::<i32, Fault>(wrap32(a - b)),
        binary(OpView::I32MUL, a, b) == Ok::<i32, Fault>(wrap32(a * b)),
        i32::MIN <= a + b <= i32::MAX ==> binary(OpView::I32ADD, a, b) == Ok::<i32, Fault>(
            (a + b) as i32,
        ),
        i32::MIN <= a - b <= i32::MAX ==> binary(OpView::I32SUB, a, b) == Ok::<i32, Fault>(
            (a - b) as i32,
        ),
        i32::MIN <= a * b <= i32::MAX ==> binary(OpView::I32MUL, a, b) == Ok::<i32, Fault>(
            (a * b) as i32,
        ),
        binary(OpView::I32DIVS, a, 0) == Err::<i32, Fault>(Fault::DivisionByZero),
        binary(OpView::I32REMU, a, 0) == Err::<i32, Fault>(Fault::DivisionByZero),
{
    law_wrap32(a + b);
    law_wrap32(a - b);
    law_wrap32(a * b);
}

/// An instruction that divides or takes a remainder fails on a zero
/// right-hand operand in whatever state it runs: it never leaves a value.
pub proof fn law_division_by_zero_is_rejected(s: EvalView)
    requires
        s.stack.len() > 0,
        s.stack.last() == 0,
    ensures
        s.execute(OpView::I32DIVS) is Err,
        s.execute(OpView::I32REMU) is Err,
{
}

/// With `n` blocks open, a branch to depth `d`, 0 being the innermost,
/// resolves to the block that was opened as number `n - d - 1`; a depth of
/// `n` or more, or a negative one, resolves to nothing.
pub proof fn law_branch_depth(p: ParserView, depth: i32)
    requires
        p.tok(1) == Some(TokenView::Integer(depth)),
    ensures
        0 <= depth < p.blks_stack.len() ==> branch_target(p) == Ok::<usize, CompileError>(
            p.blks_stack[p.blks_stack.len() - depth - 1],
        ),
        !(0 <= depth < p.blks_stack.len()) ==> branch_target(p) == Err::<usize, CompileError>(
            CompileError::UnknownBlock { at: p.at(1) },
        ),
{
}

/// A block that is opened gets the next free index of its function's block
/// list and becomes the innermost open block; the blocks that were open
/// stay open, in their order.  The target of a loop is the position behind
/// its own header.  (The block lists are lists of a machine: none is longer
/// than an index can say.)
pub proof fn law_opened_block(p: ParserView, is_loop: bool)
    requires
        forall|f: int| 0 <= f < p.blks_table.len() ==> p.blks_table[f].len() <= usize::MAX,
    ensures
        open_block(p, is_loop) matches Ok((q, idx)) ==> {
            let f = p.functions.len() as int;
            &&& q.functions == p.functions
            &&& f < p.blks_table.len()
            &&& idx == p.blks_table[f].len()
            &&& q.blks_table[f].len() == idx + 1
            &&& q.blks_stack == p.blks_stack.push(idx)
            &&& q.blks_table[f][idx as int].is_loop == is_loop
            &&& is_loop ==> q.blks_table[f][idx as int].next_pc == q.code.len() + 1
        },
{
}

/// An `end` closes the innermost open block and leaves the others open.
/// The target of a plain block is the position behind its `end`; a loop
/// keeps the target it was opened with.  (The block lists are lists of a
/// machine: none is longer than an index can say.)
pub proof fn law_closed_block(p: ParserView)
    ensures
        close_block(p) matches Ok(q) ==> {
            let f = p.functions.len() as int;
            let idx = p.blks_stack.last() as int;
            &&& p.blks_stack.len() > 0
            &&& q.blks_stack == p.blks_stack.drop_last()
            &&& q.code == p.code
            &&& q.blks_table[f].len() == p.blks_table[f].len()
            &&& q.blks_table[f][idx].next_pc == if p.blks_table[f][idx].is_loop {
                p.blks_table[f][idx].next_pc as int
            } else {
                (p.code.len() + 1) as int
            }
        },
{
}

/// A conditional branch takes the condition off the stack, and then
/// continues at the target of its block if the condition is strictly
/// positive, and behind itself if it is zero or negative.
pub proof fn law_conditional_branch(s: EvalView, blk: usize)
    requires
        s.stack.len() > 0,
        s.calls.len() > 0,
        s.calls.last().fn_idx < s.blks_table.len(),
        blk < s.blks_table[s.calls.last().fn_idx as int].len(),
    ensures
        s.execute(OpView::BRIF(blk)) matches Ok(t) && t.stack == s.stack.drop_last() && t.pc == (
        if s.stack.last() > 0 {
            s.blks_table[s.calls.last().fn_idx as int][blk as int].next_pc
        } else {
            s.pc
        }) && t.calls == s.calls,
{
}

/// A step that executes a conditional branch to a loop re-enters the body
/// of the loop, at the target of the loop's block, as long as the condition
/// is strictly positive, and falls through to the next instruction the
/// first time it is not.  (The bytecode is that of a machine: no longer
/// than a program counter can say.)
pub proof fn law_loop_reentry(s: EvalView, blk: usize)
    requires
        s.module.code.len() <= usize::MAX,
        s.pc < s.module.code.len(),
        s.module.code[s.pc as int] == OpView::BRIF(blk),
        s.stack.len() > 0,
        s.calls.len() > 0,
        s.calls.last().fn_idx < s.blks_table.len(),
        blk < s.blks_table[s.calls.last().fn_idx as int].len(),
    ensures
        s.step() matches Ok(t) && t.stack == s.stack.drop_last() && t.calls == s.calls && t.pc
            == (if s.stack.last() > 0 {
            s.blks_table[s.calls.last().fn_idx as int][blk as int].next_pc as int
        } else {
            s.pc + 1
        }),
{
}

/// In a consistent module a call by name finds its function: with the
/// arguments on the stack, it succeeds.
pub proof fn law_named_call_finds_its_function(s: EvalView, name: Seq<char>)
    requires
        s.module.consistent(s.blks_table),
        s.module.funcs_refs.contains_key(name),
        s.stack.len() >= s.module.funcs[s.module.funcs_refs[name] as int].args,
    ensures
        s.invoke(LabelView::REF(name)) is Ok,
{
}

/// In a consistent module whose globals all have a current value, a read
/// of a global by name succeeds.
pub proof fn law_named_global_is_found(s: EvalView, name: Seq<char>)
    requires
        s.module.consistent(s.blks_table),
        s.globals.len() == s.module.globals.len(),
        s.module.globals_map.contains_key(name),
    ensures
        s.global_get(LabelView::REF(name)) is Ok,
{
}

/// Writing a global that is declared without the mutable qualifier fails
/// in every state.
pub proof fn law_immutable_global_rejects_writes(s: EvalView, label: LabelView)
    requires
        s.global_slot(label) matches Ok(idx) && idx < s.module.globals.len()
            && !s.module.globals[idx as int].mutable,
    ensures
        s.execute(OpView::GLOSET(label)) is Err,
        s.stack.len() > 0 ==> s.execute(OpView::GLOSET(label)) == Err::<EvalView, Fault>(
            Fault::ImmutableGlobal,
        ),
{
}

/// Writing a global that is declared mutable succeeds, and a read that
/// follows yields the value written.
pub proof fn law_mutable_global_keeps_writes(s: EvalView, label: LabelView)
    requires
        s.stack.len() > 0,
        s.global_slot(label) matches Ok(idx) && idx < s.module.globals.len()
            && s.module.globals[idx as int].mutable,
    ensures
        s.execute(OpView::GLOSET(label)) matches Ok(t) && t.execute(OpView::GLOGET(label))
            matches Ok(u) && u.stack == s.stack.drop_last().push(s.stack.last()),
{
}

/// A global is mutable exactly if its type is written `(mut i32)`.
pub proof fn law_global_mutability(p: ParserView)
    ensures
        global_type(p) matches Ok((_, mutable)) ==> mutable == (p.tok(1) == Some(
            TokenView::LParan,
        )),
{
}

/// The four bytes of an integer denote that integer.
#[verifier::rlimit(50)]
pub proof fn law_bytes_denote_value(v: i32)
    ensures
        le_bytes(v).len() == 4,
        le_value(le_bytes(v)) == v,
{
    let u: u32 = if v >= 0 {
        v as u32
    } else {
        (v + 0x1_0000_0000) as u32
    };
    let b0 = (u % 256) as u8;
    let b1 = (u / 256 % 256) as u8;
    let b2 = (u / 65536 % 256) as u8;
    let b3 = (u / 16777216) as u8;
    assert(u == (u % 256) + (u / 256 % 256) * 256 + (u / 65536 % 256) * 65536 + (u / 16777216)
        * 16777216 && u / 16777216 < 256) by (bit_vector);
    assert(le_bytes(v) =~= seq![b0, b1, b2, b3]);
    assert(b0 + b1 * 256 + b2 * 65536 + b3 * 16777216 == u);
}

/// A load that follows a store to the same place yields the value stored.
#[verifier::rlimit(50)]
pub proof fn law_load_after_store(s: EvalView, offset: i32, value: i32)
    requires
        0 <= offset,
        offset + 4 <= s.memory.len(),
    ensures
        s.with_stack(s.stack.push(offset).push(value)).execute(OpView::I32STORE) matches Ok(t)
            && t.with_stack(t.stack.push(offset)).execute(OpView::I32LOAD) matches Ok(u)
            && u.stack == s.stack.push(value),
{
    let s1 = s.with_stack(s.stack.push(offset).push(value));
    let t = s1.execute(OpView::I32STORE)->Ok_0;
    assert(s1.stack.take(s1.stack.len() - 2) =~= s.stack);
    law_bytes_denote_value(value);
    assert(t.memory.subrange(offset as int, offset + 4) =~= le_bytes(value));
    let t1 = t.with_stack(t.stack.push(offset));
    assert(t1.stack.drop_last() =~= s.stack);
}

} // verus!
