//! What the compiler makes of a token sequence, as mathematics.
//!
//! Each function takes the state of a compilation and says which state
//! follows, or which defect stops the compilation.  The cursor rests on the
//! token read last, so `p.tok(1)` is the next token.

use crate::interpret::ast::{
    BlockView, ExportType, ExportView, FnView, Global, LabelView, MemView, ModView, ParserView,
};
use crate::interpret::error::CompileError;
use crate::interpret::lexer::{lex, TokenView};
use crate::interpret::op::OpView;
use vstd::prelude::*;

verus! {

/// The keyword token that spells `word`.
pub open spec fn kwd(word: Seq<char>) -> Option<TokenView> {
    Some(TokenView::Kwd(word))
}

/// The name that the next token gives, if it is a name.
pub open spec fn next_name(p: ParserView) -> Option<Seq<char>> {
    match p.tok(1) {
        Some(TokenView::Id(id)) => Some(id),
        _ => None,
    }
}

/// The state behind an optional name.
pub open spec fn skip_name(p: ParserView) -> ParserView {
    if next_name(p) is Some {
        p.moved(1)
    } else {
        p
    }
}

/// A compilation neither loses tokens nor moves its cursor back.
pub open spec fn follows(q: ParserView, p: ParserView) -> bool {
    &&& q.scanner.tokens == p.scanner.tokens
    &&& p.scanner.curr <= q.scanner.curr
    &&& q.scanner.wf()
}

/// An optional `(result i32)`: whether it is there, and the state behind
/// it.  Once `(result` is read, the type must be `i32` and the parenthesis
/// must close.
pub open spec fn result_clause(p: ParserView) -> Result<(ParserView, bool), CompileError> {
    if p.tok(1) == Some(TokenView::LParan) && p.tok(2) == kwd("result"@) {
        if p.tok(3) != kwd("i32"@) {
            Err(CompileError::InvalidType { at: p.at(3) })
        } else if p.tok(4) != Some(TokenView::RParan) {
            Err(CompileError::ExpectedRParen { at: p.at(4) })
        } else {
            Ok((p.moved(4), true))
        }
    } else {
        Ok((p, false))
    }
}

/// An optional `(word [name] i32)`, where `word` is `param` or `local`:
/// whether it is there, the state behind it, and the slot table, in which a
/// name that the clause gives now stands for `slot`.
pub open spec fn var_clause(
    p: ParserView,
    word: Seq<char>,
    slots: Map<Seq<char>, usize>,
    slot: u32,
) -> Result<(ParserView, Map<Seq<char>, usize>, bool), CompileError> {
    if p.tok(1) == Some(TokenView::LParan) && p.tok(2) == kwd(word) {
        let q = skip_name(p.moved(2));
        let named = match next_name(p.moved(2)) {
            Some(id) => slots.insert(id, slot as usize),
            None => slots,
        };
        if q.tok(1) != kwd("i32"@) {
            Err(CompileError::InvalidType { at: q.at(1) })
        } else if q.tok(2) != Some(TokenView::RParan) {
            Err(CompileError::ExpectedRParen { at: q.at(2) })
        } else {
            Ok((q.moved(2), named, true))
        }
    } else {
        Ok((p, slots, false))
    }
}

/// All the `(word [name] i32)` clauses that follow one another: the state
/// behind them, the slot table, and the first slot that is still free.
/// Slots are handed out in the order of the clauses, from `slot` on.
pub open spec fn var_clauses(
    p: ParserView,
    word: Seq<char>,
    slots: Map<Seq<char>, usize>,
    slot: u32,
) -> Result<(ParserView, Map<Seq<char>, usize>, u32), CompileError>
    decreases p.scanner.remaining(),
    when p.scanner.wf()
{
    match var_clause(p, word, slots, slot) {
        Err(e) => Err(e),
        Ok((q, named, found)) => {
            if !found {
                Ok((p, slots, slot))
            } else if slot == u32::MAX {
                Err(CompileError::TooManyLocals { at: p.at(1) })
            } else {
                var_clauses(q, word, named, (slot + 1) as u32)
            }
        },
    }
}

/// The instruction that a keyword without operand stands for.
pub open spec fn plain_op(inst: Seq<char>) -> Option<OpView> {
    if inst == "i32.add"@ {
        Some(OpView::I32ADD)
    } else if inst == "i32.sub"@ {
        Some(OpView::I32SUB)
    } else if inst == "i32.mul"@ {
        Some(OpView::I32MUL)
    } else if inst == "i32.lt_s"@ {
        Some(OpView::I32LTS)
    } else if inst == "i32.rem_u"@ {
        Some(OpView::I32REMU)
    } else if inst == "i32.div_s"@ {
        Some(OpView::I32DIVS)
    } else if inst == "i32.ne"@ {
        Some(OpView::I32NE)
    } else if inst == "i32.eq"@ {
        Some(OpView::I32EQ)
    } else if inst == "i32.eqz"@ {
        Some(OpView::I32EQZ)
    } else if inst == "i32.load"@ {
        Some(OpView::I32LOAD)
    } else if inst == "i32.store"@ {
        Some(OpView::I32STORE)
    } else if inst == "i32.gt_s"@ {
        Some(OpView::I32GTS)
    } else if inst == "i32.ge_s"@ {
        Some(OpView::I32GES)
    } else if inst == "i32.le_s"@ {
        Some(OpView::I32LES)
    } else if inst == "i32.and"@ {
        Some(OpView::I32AND)
    } else if inst == "i32.or"@ {
        Some(OpView::I32OR)
    } else if inst == "i32.xor"@ {
        Some(OpView::I32XOR)
    } else if inst == "return"@ {
        Some(OpView::RET)
    } else if inst == "drop"@ {
        Some(OpView::DROP)
    } else if inst == "nop"@ {
        Some(OpView::NOP)
    } else {
        None
    }
}

/// The local slot that the next token, an operand, refers to: a name must
/// be in the slot table; an integer is the slot itself, taken as an
/// unsigned number.
pub open spec fn local_slot(p: ParserView, slots: Map<Seq<char>, usize>) -> Result<
    usize,
    CompileError,
> {
    match p.tok(1) {
        Some(TokenView::Id(id)) => if slots.contains_key(id) {
            Ok(slots[id])
        } else {
            Err(CompileError::UnknownLocal { at: p.at(1) })
        },
        Some(TokenView::Integer(n)) => Ok(n as usize),
        _ => Err(CompileError::ExpectedReference { at: p.at(1) }),
    }
}

/// The label that the token `k` places behind the current one gives: a
/// name as it stands, to be resolved when the instruction runs; an integer
/// as an index, taken as an unsigned number.
pub open spec fn label_operand(p: ParserView, k: int) -> Result<LabelView, CompileError> {
    match p.tok(k) {
        Some(TokenView::Id(id)) => Ok(LabelView::REF(id)),
        Some(TokenView::Integer(n)) => Ok(LabelView::U32(n as usize)),
        _ => Err(CompileError::ExpectedReference { at: p.at(k) }),
    }
}

/// The innermost of the `open` lowest entries of `stack` whose block bears
/// the name `id`.
pub open spec fn named_block(
    blocks: Seq<BlockView>,
    stack: Seq<usize>,
    id: Seq<char>,
    open: int,
) -> Option<usize>
    decreases open,
{
    if open <= 0 || open > stack.len() {
        None
    } else if stack[open - 1] < blocks.len() && blocks[stack[open - 1] as int].id == Some(id) {
        Some(stack[open - 1])
    } else {
        named_block(blocks, stack, id, open - 1)
    }
}

/// The block at nesting depth `depth`, where 0 is the innermost open block:
/// with `n` blocks open, the one that was opened as number `n - depth - 1`.
pub open spec fn block_at_depth(stack: Seq<usize>, depth: int) -> Option<usize> {
    if 0 <= depth < stack.len() {
        Some(stack[stack.len() - depth - 1])
    } else {
        None
    }
}

/// The block that the next token, the operand of a branch, refers to, as
/// an index into the block list of the function being compiled: a name
/// refers to the innermost open block that bears it, an integer to the
/// block at that depth.
pub open spec fn branch_target(p: ParserView) -> Result<usize, CompileError> {
    match p.tok(1) {
        Some(TokenView::Id(id)) => {
            if p.blks_stack.len() == 0 {
                Err(CompileError::UnknownBlock { at: p.at(1) })
            } else if p.functions.len() >= p.blks_table.len() {
                Err(CompileError::MissingBlockList { at: p.at(1) })
            } else {
                match named_block(
                    p.blks_table[p.functions.len() as int],
                    p.blks_stack,
                    id,
                    p.blks_stack.len() as int,
                ) {
                    Some(idx) => Ok(idx),
                    None => Err(CompileError::UnknownBlock { at: p.at(1) }),
                }
            }
        },
        Some(TokenView::Integer(depth)) => match block_at_depth(p.blks_stack, depth as int) {
            Some(idx) => Ok(idx),
            None => Err(CompileError::UnknownBlock { at: p.at(1) }),
        },
        _ => Err(CompileError::ExpectedReference { at: p.at(1) }),
    }
}

/// `block` or `loop`, with an optional name and an optional result: the new
/// block is appended to the block list of the function being compiled and
/// becomes the innermost open block.  A loop's branch target is fixed at
/// once: the position behind the `loop` instruction, which is about to be
/// emitted.  A plain block's target stays 0 until its `end`.
pub open spec fn open_block(p: ParserView, is_loop: bool) -> Result<
    (ParserView, usize),
    CompileError,
> {
    match result_clause(skip_name(p)) {
        Err(e) => Err(e),
        Ok((q, result)) => {
            let f = q.functions.len() as int;
            if f >= q.blks_table.len() {
                Err(CompileError::MissingBlockList { at: p.at(0) })
            } else if is_loop && q.code.len() >= usize::MAX {
                Err(CompileError::CodeTooLong { at: p.at(0) })
            } else {
                let block = BlockView {
                    id: next_name(p),
                    is_loop,
                    next_pc: if is_loop {
                        (q.code.len() + 1) as usize
                    } else {
                        0
                    },
                    result,
                };
                let idx = q.blks_table[f].len() as usize;
                Ok(
                    (
                        ParserView {
                            blks_table: q.blks_table.update(f, q.blks_table[f].push(block)),
                            blks_stack: q.blks_stack.push(idx),
                            ..q
                        },
                        idx,
                    ),
                )
            }
        },
    }
}

/// `end`: the innermost open block is closed.  The branch target of a plain
/// block is fixed now: the position behind the `end` instruction, which is
/// about to be emitted.  A loop keeps the target it has.
pub open spec fn close_block(p: ParserView) -> Result<ParserView, CompileError> {
    let f = p.functions.len() as int;
    if p.blks_stack.len() == 0 {
        Err(CompileError::UnmatchedEnd { at: p.at(0) })
    } else if f >= p.blks_table.len() || p.blks_stack.last() >= p.blks_table[f].len() {
        Err(CompileError::MissingBlockList { at: p.at(0) })
    } else {
        let idx = p.blks_stack.last() as int;
        let block = p.blks_table[f][idx];
        if block.is_loop {
            Ok(ParserView { blks_stack: p.blks_stack.drop_last(), ..p })
        } else if p.code.len() >= usize::MAX {
            Err(CompileError::CodeTooLong { at: p.at(0) })
        } else {
            let closed = BlockView { next_pc: (p.code.len() + 1) as usize, ..block };
            Ok(
                ParserView {
                    blks_table: p.blks_table.update(f, p.blks_table[f].update(idx, closed)),
                    blks_stack: p.blks_stack.drop_last(),
                    ..p
                },
            )
        }
    }
}

/// What the keyword `inst`, which was just read, compiles to, with the
/// state behind its operand.  A branch carries the index of the block it
/// resolves to, never a name or a depth.
pub open spec fn bytecode(p: ParserView, inst: Seq<char>, slots: Map<Seq<char>, usize>) -> Result<
    (ParserView, OpView),
    CompileError,
> {
    if plain_op(inst) is Some {
        Ok((p, plain_op(inst)->0))
    } else if inst == "i32.const"@ {
        match p.tok(1) {
            Some(TokenView::Integer(n)) => Ok((p.moved(1), OpView::I32CONST(n))),
            _ => Err(CompileError::ExpectedInteger { at: p.at(1) }),
        }
    } else if inst == "local.get"@ {
        match local_slot(p, slots) {
            Ok(i) => Ok((p.moved(1), OpView::LOCGET(i))),
            Err(e) => Err(e),
        }
    } else if inst == "local.set"@ {
        match local_slot(p, slots) {
            Ok(i) => Ok((p.moved(1), OpView::LOCSET(i))),
            Err(e) => Err(e),
        }
    } else if inst == "local.tee"@ {
        match local_slot(p, slots) {
            Ok(i) => Ok((p.moved(1), OpView::LOCTEE(i))),
            Err(e) => Err(e),
        }
    } else if inst == "global.get"@ {
        match label_operand(p, 1) {
            Ok(l) => Ok((p.moved(1), OpView::GLOGET(l))),
            Err(e) => Err(e),
        }
    } else if inst == "global.set"@ {
        match label_operand(p, 1) {
            Ok(l) => Ok((p.moved(1), OpView::GLOSET(l))),
            Err(e) => Err(e),
        }
    } else if inst == "call"@ {
        match label_operand(p, 1) {
            Ok(l) => Ok((p.moved(1), OpView::CALL(l))),
            Err(e) => Err(e),
        }
    } else if inst == "block"@ {
        match open_block(p, false) {
            Ok((q, idx)) => Ok((q, OpView::BLK(idx))),
            Err(e) => Err(e),
        }
    } else if inst == "loop"@ {
        match open_block(p, true) {
            Ok((q, idx)) => Ok((q, OpView::LOOP(idx))),
            Err(e) => Err(e),
        }
    } else if inst == "br"@ {
        match branch_target(p) {
            Ok(idx) => Ok((p.moved(1), OpView::BR(idx))),
            Err(e) => Err(e),
        }
    } else if inst == "br_if"@ {
        match branch_target(p) {
            Ok(idx) => Ok((p.moved(1), OpView::BRIF(idx))),
            Err(e) => Err(e),
        }
    } else if inst == "end"@ {
        match close_block(p) {
            Ok(q) => Ok((q, OpView::END)),
            Err(e) => Err(e),
        }
    } else {
        Err(CompileError::UnknownInstruction { at: p.at(0) })
    }
}

/// Compiling an instruction keeps the tokens and does not move back.
pub proof fn lemma_bytecode_follows(p: ParserView, inst: Seq<char>, slots: Map<Seq<char>, usize>)
    requires
        p.scanner.wf(),
    ensures
        bytecode(p, inst, slots) matches Ok((q, _)) ==> follows(q, p),
{
}

/// One instruction, if a keyword comes next: the state with the
/// instruction appended to the bytecode.
pub open spec fn instruction(p: ParserView, slots: Map<Seq<char>, usize>) -> Result<
    (ParserView, bool),
    CompileError,
> {
    match p.tok(1) {
        Some(TokenView::Kwd(inst)) => match bytecode(p.moved(1), inst, slots) {
            Ok((q, op)) => Ok((q.emit(op), true)),
            Err(e) => Err(e),
        },
        _ => Ok((p, false)),
    }
}

/// All the instructions that follow one another.
pub open spec fn instructions(p: ParserView, slots: Map<Seq<char>, usize>) -> Result<
    ParserView,
    CompileError,
>
    decreases p.scanner.remaining(),
    when p.scanner.wf()
{
    match instruction(p, slots) {
        Err(e) => Err(e),
        Ok((q, found)) => {
            if found {
                proof {
                    lemma_bytecode_follows(p.moved(1), p.tok(1)->0->Kwd_0, slots);
                }
                instructions(q, slots)
            } else {
                Ok(p)
            }
        },
    }
}

/// A function, of which `(func` was just read: an optional name, the
/// parameters, an optional result, the locals, the instructions, and the
/// closing parenthesis.  Parameters and locals share one range of slots
/// that starts at 0, parameters first.  The function's code starts where
/// the bytecode ended before, and always ends with a `RET` of its own.
pub open spec fn function(p: ParserView) -> Result<(ParserView, FnView), CompileError>
    recommends
        p.scanner.wf(),
{
    match var_clauses(skip_name(p), "param"@, Map::empty(), 0) {
        Err(e) => Err(e),
        Ok((q1, params, args)) => match result_clause(q1) {
            Err(e) => Err(e),
            Ok((q2, result)) => match var_clauses(q2, "local"@, params, args) {
                Err(e) => Err(e),
                Ok((q3, slots, used)) => match instructions(q3, slots) {
                    Err(e) => Err(e),
                    Ok(q4) => {
                        if q4.tok(1) != Some(TokenView::RParan) {
                            Err(CompileError::ExpectedRParen { at: q4.at(1) })
                        } else {
                            Ok(
                                (
                                    q4.emit(OpView::RET).moved(1),
                                    FnView {
                                        name: next_name(p),
                                        args,
                                        locals: (used - args) as u32,
                                        code_addr: p.code.len() as usize,
                                        result,
                                    },
                                ),
                            )
                        }
                    },
                },
            },
        },
    }
}

/// The kind of export that a keyword names.
pub open spec fn export_kind(t: Option<TokenView>) -> Option<ExportType> {
    if t == kwd("func"@) {
        Some(ExportType::FUNCTION)
    } else if t == kwd("global"@) {
        Some(ExportType::GLOBAL)
    } else if t == kwd("memory"@) {
        Some(ExportType::MEMORY)
    } else {
        None
    }
}

/// An export, of which `(export` was just read: `"name" (kind reference))`.
/// A later export of the same name replaces an earlier one.
pub open spec fn export_decl(p: ParserView) -> Result<ParserView, CompileError> {
    match p.tok(1) {
        Some(TokenView::String(name)) => {
            if p.tok(2) != Some(TokenView::LParan) {
                Err(CompileError::ExpectedLParen { at: p.at(2) })
            } else if export_kind(p.tok(3)) is None {
                Err(CompileError::UnknownExportKind { at: p.at(3) })
            } else if label_operand(p, 4) is Err {
                Err(CompileError::ExpectedReference { at: p.at(4) })
            } else if p.tok(5) != Some(TokenView::RParan) {
                Err(CompileError::ExpectedRParen { at: p.at(5) })
            } else if p.tok(6) != Some(TokenView::RParan) {
                Err(CompileError::ExpectedRParen { at: p.at(6) })
            } else {
                let export = ExportView {
                    export_type: export_kind(p.tok(3))->0,
                    export_ref: label_operand(p, 4)->Ok_0,
                };
                Ok(ParserView { exports: p.exports.insert(name, export), ..p.moved(6) })
            }
        },
        _ => Err(CompileError::ExpectedExportName { at: p.at(1) }),
    }
}

/// The type of a global, behind its optional name: `i32`, or `(mut i32)`
/// for a global that may be written.  Gives whether it is mutable.
pub open spec fn global_type(p: ParserView) -> Result<(ParserView, bool), CompileError> {
    if p.tok(1) == Some(TokenView::LParan) {
        if p.tok(2) != kwd("mut"@) {
            Err(CompileError::InvalidType { at: p.at(2) })
        } else if p.tok(3) != kwd("i32"@) {
            Err(CompileError::InvalidType { at: p.at(3) })
        } else if p.tok(4) != Some(TokenView::RParan) {
            Err(CompileError::ExpectedRParen { at: p.at(4) })
        } else {
            Ok((p.moved(4), true))
        }
    } else if p.tok(1) != kwd("i32"@) {
        Err(CompileError::InvalidType { at: p.at(1) })
    } else {
        Ok((p.moved(1), false))
    }
}

/// A global, of which `(global` was just read: an optional name, the type,
/// `(i32.const n)` and the closing parenthesis.  The global is appended to
/// the globals, and its name, if any, stands for its index from now on.
pub open spec fn global_decl(p: ParserView) -> Result<ParserView, CompileError> {
    match global_type(skip_name(p)) {
        Err(e) => Err(e),
        Ok((q, mutable)) => {
            if q.tok(1) != Some(TokenView::LParan) {
                Err(CompileError::ExpectedLParen { at: q.at(1) })
            } else if q.tok(2) != kwd("i32.const"@) {
                Err(CompileError::ExpectedInitialValue { at: q.at(2) })
            } else {
                match q.tok(3) {
                    Some(TokenView::Integer(value)) => {
                        if q.tok(4) != Some(TokenView::RParan) {
                            Err(CompileError::ExpectedRParen { at: q.at(4) })
                        } else if q.tok(5) != Some(TokenView::RParan) {
                            Err(CompileError::ExpectedRParen { at: q.at(5) })
                        } else {
                            Ok(
                                ParserView {
                                    globals: p.globals.push(Global { mutable, value }),
                                    globals_map: match next_name(p) {
                                        Some(id) => p.globals_map.insert(
                                            id,
                                            p.globals.len() as usize,
                                        ),
                                        None => p.globals_map,
                                    },
                                    ..q.moved(5)
                                },
                            )
                        }
                    },
                    _ => Err(CompileError::ExpectedInteger { at: q.at(3) }),
                }
            }
        },
    }
}

/// The memory, of which `(memory` was just read: an optional name, the
/// number of pages, taken as an unsigned number, and the closing
/// parenthesis.  A later declaration replaces an earlier one.
pub open spec fn memory_decl(p: ParserView) -> Result<ParserView, CompileError> {
    let q = skip_name(p);
    match q.tok(1) {
        Some(TokenView::Integer(n)) => {
            if q.tok(2) != Some(TokenView::RParan) {
                Err(CompileError::ExpectedRParen { at: q.at(2) })
            } else {
                Ok(
                    ParserView {
                        memory: Some(MemView { name: next_name(p), initial_capacity: n as u32 }),
                        ..q.moved(2)
                    },
                )
            }
        },
        _ => Err(CompileError::ExpectedInteger { at: q.at(1) }),
    }
}

/// A function declaration: the function gets a block list of its own, is
/// compiled, and is appended to the functions; its name, if any, stands for
/// its index from now on.  No block stays open behind it.
pub open spec fn function_decl(p: ParserView) -> Result<ParserView, CompileError>
    recommends
        p.scanner.wf(),
{
    match function(ParserView { blks_table: p.blks_table.push(Seq::empty()), ..p }) {
        Err(e) => Err(e),
        Ok((q, f)) => Ok(
            ParserView {
                funcs_refs: match f.name {
                    Some(id) => q.funcs_refs.insert(id, q.functions.len() as usize),
                    None => q.funcs_refs,
                },
                functions: q.functions.push(f),
                blks_stack: Seq::empty(),
                ..q
            },
        ),
    }
}

/// A declaration, of which the opening parenthesis was just read: its
/// keyword decides which of the four it is.
pub open spec fn declaration(p: ParserView) -> Result<ParserView, CompileError>
    recommends
        p.scanner.wf(),
{
    if p.tok(1) == kwd("memory"@) {
        memory_decl(p.moved(1))
    } else if p.tok(1) == kwd("global"@) {
        global_decl(p.moved(1))
    } else if p.tok(1) == kwd("export"@) {
        export_decl(p.moved(1))
    } else if p.tok(1) == kwd("func"@) {
        function_decl(p.moved(1))
    } else {
        Err(CompileError::UnknownDeclaration { at: p.at(1) })
    }
}

/// The declarations of a module, up to and with the parenthesis that
/// closes it.
pub open spec fn declarations(p: ParserView) -> Result<ParserView, CompileError>
    decreases p.scanner.remaining(),
    when p.scanner.wf()
{
    match p.tok(1) {
        Some(TokenView::LParan) => match declaration(p.moved(1)) {
            Err(e) => Err(e),
            Ok(q) => {
                proof {
                    lemma_declaration_follows(p.moved(1));
                }
                declarations(q)
            },
        },
        Some(TokenView::RParan) => Ok(p.moved(1)),
        _ => Err(CompileError::ExpectedParen { at: p.at(1) }),
    }
}

/// The module that a token sequence describes, and its block table: the
/// tokens must be `(module`, declarations, and `)`, and nothing else.
pub open spec fn module(tokens: Seq<TokenView>) -> Result<
    (ModView, Seq<Seq<BlockView>>),
    CompileError,
> {
    let p = ParserView::fresh(tokens);
    if p.tok(0) != Some(TokenView::LParan) {
        Err(CompileError::ExpectedLParen { at: p.at(0) })
    } else if p.tok(1) != kwd("module"@) {
        Err(CompileError::ExpectedModule { at: p.at(1) })
    } else {
        match declarations(p.moved(1)) {
            Err(e) => Err(e),
            Ok(q) => if q.tok(1) is Some {
                Err(CompileError::TrailingTokens { at: q.at(1) })
            } else {
                Ok((q.module(), q.blks_table))
            },
        }
    }
}

/// The module that a source text describes, and its block table.
pub open spec fn compile(source: Seq<char>) -> Result<
    (ModView, Seq<Seq<BlockView>>),
    CompileError,
> {
    match lex(source) {
        Err(e) => Err(CompileError::Lex(e)),
        Ok(tokens) => module(tokens),
    }
}

/// A run of clauses keeps the tokens and does not move back.
pub proof fn lemma_var_clauses_follows(
    p: ParserView,
    word: Seq<char>,
    slots: Map<Seq<char>, usize>,
    slot: u32,
)
    requires
        p.scanner.wf(),
    ensures
        var_clauses(p, word, slots, slot) matches Ok((q, _, next)) ==> follows(q, p) && slot
            <= next,
    decreases p.scanner.remaining(),
{
    match var_clause(p, word, slots, slot) {
        Err(e) => {},
        Ok((q, named, found)) => {
            if found && slot < u32::MAX {
                lemma_var_clauses_follows(q, word, named, (slot + 1) as u32);
            }
        },
    }
}

/// A run of instructions keeps the tokens and does not move back.
pub proof fn lemma_instructions_follows(p: ParserView, slots: Map<Seq<char>, usize>)
    requires
        p.scanner.wf(),
    ensures
        instructions(p, slots) matches Ok(q) ==> follows(q, p),
    decreases p.scanner.remaining(),
{
    match instruction(p, slots) {
        Err(e) => {},
        Ok((q, found)) => {
            if found {
                lemma_bytecode_follows(p.moved(1), p.tok(1)->0->Kwd_0, slots);
                lemma_instructions_follows(q, slots);
            }
        },
    }
}

/// A function keeps the tokens and moves forward.
pub proof fn lemma_function_follows(p: ParserView)
    requires
        p.scanner.wf(),
    ensures
        function(p) matches Ok((q, _)) ==> follows(q, p) && p.scanner.curr < q.scanner.curr,
{
    let p0 = skip_name(p);
    lemma_var_clauses_follows(p0, "param"@, Map::empty(), 0);
    match var_clauses(p0, "param"@, Map::empty(), 0) {
        Err(e) => {},
        Ok((q1, params, args)) => match result_clause(q1) {
            Err(e) => {},
            Ok((q2, result)) => {
                lemma_var_clauses_follows(q2, "local"@, params, args);
                match var_clauses(q2, "local"@, params, args) {
                    Err(e) => {},
                    Ok((q3, slots, used)) => {
                        lemma_instructions_follows(q3, slots);
                    },
                }
            },
        },
    }
}

/// A declaration keeps the tokens and moves forward.
pub proof fn lemma_declaration_follows(p: ParserView)
    requires
        p.scanner.wf(),
    ensures
        declaration(p) matches Ok(q) ==> follows(q, p) && p.scanner.curr < q.scanner.curr,
{
    if p.tok(1) == kwd("func"@) {
        lemma_function_follows(
            ParserView { blks_table: p.moved(1).blks_table.push(Seq::empty()), ..p.moved(1) },
        );
    }
}

} // verus!
