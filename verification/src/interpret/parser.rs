//! The bytecode compiler: a recursive-descent, single-pass compilation of
//! the token sequence into a module, with every branch resolved to a block
//! of the function it stands in.

use crate::interpret::ast::{
    block_table_view, blocks_view, exports_view, Block, BlockTable, BlockView, Export,
    ExportType, Fn, Global, Label, Mem, Mod, ModView, Parser, ParserView,
};
use crate::interpret::error::CompileError;
use crate::interpret::grammar::{
    branch_target, bytecode, close_block, compile, declaration, declarations,
    export_decl, function, function_decl, global_decl, global_type,
    instruction, instructions, label_operand, lemma_bytecode_follows, lemma_declaration_follows,
    local_slot, memory_decl, module, named_block, next_name,
    open_block, plain_op, result_clause, skip_name, var_clause, var_clauses,
};
use crate::interpret::lexer::{get_tokens, tokens_view, Token, TokenView};
use crate::interpret::op::{OpView, OP};
use crate::interpret::scanner::Scanner;
use crate::interpret::text::{name_view, str_eq};
use vstd::hash_map::StringHashMap;
use vstd::prelude::*;

verus! {

broadcast use crate::interpret::scanner::lemma_scanner_wf;

/// Whether a compilation step did what `expected` asks for: it failed with
/// the expected error, or it returned the expected value and left the
/// parser in the expected state.
pub open spec fn parsed<T>(
    r: Result<T, CompileError>,
    after: ParserView,
    expected: Result<(ParserView, T), CompileError>,
) -> bool {
    match expected {
        Ok((q, v)) => r == Ok::<T, CompileError>(v) && after == q,
        Err(e) => r == Err::<T, CompileError>(e),
    }
}

/// The mathematical value of a token that was read and copied.
pub open spec fn token_view(t: Option<Token>) -> Option<TokenView> {
    match t {
        Some(t) => Some(t@),
        None => None,
    }
}

/// The instruction that a keyword without operand stands for.
pub fn plain_op_of(inst: &str) -> (r: Option<OP>)
    ensures
        match plain_op(inst@) {
            Some(op) => r matches Some(o) && o@ == op,
            None => r is None,
        },
{
    if str_eq(inst, "i32.add") {
        Some(OP::I32ADD)
    } else if str_eq(inst, "i32.sub") {
        Some(OP::I32SUB)
    } else if str_eq(inst, "i32.mul") {
        Some(OP::I32MUL)
    } else if str_eq(inst, "i32.lt_s") {
        Some(OP::I32LTS)
    } else if str_eq(inst, "i32.rem_u") {
        Some(OP::I32REMU)
    } else if str_eq(inst, "i32.div_s") {
        Some(OP::I32DIVS)
    } else if str_eq(inst, "i32.ne") {
        Some(OP::I32NE)
    } else if str_eq(inst, "i32.eq") {
        Some(OP::I32EQ)
    } else if str_eq(inst, "i32.eqz") {
        Some(OP::I32EQZ)
    } else if str_eq(inst, "i32.load") {
        Some(OP::I32LOAD)
    } else if str_eq(inst, "i32.store") {
        Some(OP::I32STORE)
    } else if str_eq(inst, "i32.gt_s") {
        Some(OP::I32GTS)
    } else if str_eq(inst, "i32.ge_s") {
        Some(OP::I32GES)
    } else if str_eq(inst, "i32.le_s") {
        Some(OP::I32LES)
    } else if str_eq(inst, "i32.and") {
        Some(OP::I32AND)
    } else if str_eq(inst, "i32.or") {
        Some(OP::I32OR)
    } else if str_eq(inst, "i32.xor") {
        Some(OP::I32XOR)
    } else if str_eq(inst, "return") {
        Some(OP::RET)
    } else if str_eq(inst, "drop") {
        Some(OP::DROP)
    } else if str_eq(inst, "nop") {
        Some(OP::NOP)
    } else {
        None
    }
}

impl Parser {
    /// Whether the next token is the keyword `word`.
    fn next_is_kwd(&self, word: &str) -> (r: bool)
        ensures
            r == (self@.tok(1) == Some(TokenView::Kwd(word@))),
    {
        match self.scanner.peek1() {
            Some(Token::Kwd(k)) => str_eq(k.as_str(), word),
            _ => false,
        }
    }

    /// Whether the next two tokens are `(` and the keyword `word`.
    fn next_opens(&self, word: &str) -> (r: bool)
        ensures
            r == (self@.tok(1) == Some(TokenView::LParan) && self@.tok(2) == Some(
                TokenView::Kwd(word@),
            )),
    {
        let paren = match self.scanner.peek1() {
            Some(Token::LParan) => true,
            _ => false,
        };
        let keyword = match self.scanner.peek2() {
            Some(Token::Kwd(k)) => str_eq(k.as_str(), word),
            _ => false,
        };
        paren && keyword
    }

    /// Reads the next token and copies it.
    fn take_token(&mut self) -> (r: Option<Token>)
        ensures
            final(self)@ == old(self)@.moved(1),
            token_view(r) == old(self)@.tok(1),
    {
        match self.scanner.get_next_token() {
            Some(t) => Some(t.clone()),
            None => None,
        }
    }

    /// Reads the next token, which must be the keyword `word`.
    fn expect_kwd(&mut self, word: &str) -> (r: bool)
        ensures
            final(self)@ == old(self)@.moved(1),
            r == (old(self)@.tok(1) == Some(TokenView::Kwd(word@))),
    {
        match self.scanner.get_next_token() {
            Some(Token::Kwd(k)) => str_eq(k.as_str(), word),
            _ => false,
        }
    }

    /// Reads the next token, which must be `)`.
    fn expect_rparan(&mut self) -> (r: bool)
        ensures
            final(self)@ == old(self)@.moved(1),
            r == (old(self)@.tok(1) == Some(TokenView::RParan)),
    {
        match self.scanner.get_next_token() {
            Some(Token::RParan) => true,
            _ => false,
        }
    }

    /// Reads the next token, which must be `(`.
    fn expect_lparan(&mut self) -> (r: bool)
        ensures
            final(self)@ == old(self)@.moved(1),
            r == (old(self)@.tok(1) == Some(TokenView::LParan)),
    {
        match self.scanner.get_next_token() {
            Some(Token::LParan) => true,
            _ => false,
        }
    }

    /// Reads a name, if one comes next.
    fn take_name(&mut self) -> (r: Option<String>)
        ensures
            final(self)@ == skip_name(old(self)@),
            name_view(r) == next_name(old(self)@),
    {
        let name = match self.scanner.peek1() {
            Some(Token::Id(id)) => Some(id.clone()),
            _ => None,
        };
        if name.is_some() {
            self.scanner.advance();
        }
        name
    }

    /// Compiles a function, of which `(func` was just read.
    #[verifier::loop_isolation(false)]
    pub fn parse_fn(&mut self) -> (r: Result<Fn, CompileError>)
        ensures
            match function(old(self)@) {
                Ok((q, f)) => r matches Ok(g) && g@ == f && final(self)@ == q,
                Err(e) => r == Err::<Fn, CompileError>(e),
            },
    {
        let mut locals_map: StringHashMap<usize> = StringHashMap::new();
        let fn_code_addr = self.code_memory.len();
        let name = self.take_name();
        let mut args: u32 = 0;
        let ghost start = self@;
        loop
            invariant
                    var_clauses(start, "param"@, Map::empty(), 0) == var_clauses(
                    self@,
                    "param"@,
                    locals_map@,
                    args,
                ),
            decreases self@.scanner.remaining(),
        {
            let here = self.scanner.position();
            let ghost before = self@;
            match self.parse_var("param", &mut locals_map, args) {
                Err(e) => {
                    return Err(e);
                },
                Ok(found) => {
                    if !found {
                        break ;
                    }
                    if args == u32::MAX {
                        assert(before.tok(1) is Some);
                        return Err(CompileError::TooManyLocals { at: here + 1 });
                    }
                    args += 1;
                },
            }
        }
        let result = match self.parse_result() {
            Ok(b) => b,
            Err(e) => {
                return Err(e);
            },
        };
        let ghost middle = self@;
        let ghost params = locals_map@;
        let mut n_locals: u32 = args;
        loop
            invariant
                    args <= n_locals,
                var_clauses(middle, "local"@, params, args) == var_clauses(
                    self@,
                    "local"@,
                    locals_map@,
                    n_locals,
                ),
            decreases self@.scanner.remaining(),
        {
            let here = self.scanner.position();
            let ghost before = self@;
            match self.parse_var("local", &mut locals_map, n_locals) {
                Err(e) => {
                    return Err(e);
                },
                Ok(found) => {
                    if !found {
                        break ;
                    }
                    if n_locals == u32::MAX {
                        assert(before.tok(1) is Some);
                        return Err(CompileError::TooManyLocals { at: here + 1 });
                    }
                    n_locals += 1;
                },
            }
        }
        let ghost body = self@;
        loop
            invariant
                    instructions(body, locals_map@) == instructions(self@, locals_map@),
            decreases self@.scanner.remaining(),
        {
            let ghost before = self@;
            match self.parse_instruction(&locals_map) {
                Err(e) => {
                    return Err(e);
                },
                Ok(found) => {
                    if !found {
                        break ;
                    }
                    proof {
                        lemma_bytecode_follows(
                            before.moved(1),
                            before.tok(1)->0->Kwd_0,
                            locals_map@,
                        );
                    }
                },
            }
        }
        let ghost end = self@;
        self.code_memory.push(OP::RET);
        if !self.expect_rparan() {
            return Err(CompileError::ExpectedRParen { at: self.scanner.position() });
        }
        assert(self@ =~~= end.emit(OpView::RET).moved(1));
        Ok(Fn { name, args, locals: n_locals - args, code_addr: fn_code_addr, result })
    }

    /// Compiles one instruction, if a keyword comes next, and appends it to
    /// the bytecode.
    pub fn parse_instruction(&mut self, locals_map: &StringHashMap<usize>) -> (r: Result<
        bool,
        CompileError,
    >)
        ensures
            parsed(r, final(self)@, instruction(old(self)@, locals_map@)),
    {
        let inst: String = match self.scanner.peek1() {
            Some(Token::Kwd(inst)) => inst.clone(),
            _ => {
                return Ok(false);
            },
        };
        self.scanner.advance();
        let op = match self.parse_to_bytecode(inst.as_str(), locals_map) {
            Ok(op) => op,
            Err(e) => {
                return Err(e);
            },
        };
        let ghost operand = self@;
        self.code_memory.push(op);
        assert(self@ =~~= operand.emit(op@));
        Ok(true)
    }

    /// The local slot that the next token refers to.
    fn parse_local(&mut self, vars_map: &StringHashMap<usize>) -> (r: Result<usize, CompileError>)
        ensures
            final(self)@ == old(self)@.moved(1),
            r == local_slot(old(self)@, vars_map@),
    {
        match self.scanner.get_next_token() {
            Some(Token::Id(id)) => match vars_map.get(id.as_str()) {
                Some(idx) => Ok(*idx),
                None => Err(CompileError::UnknownLocal { at: self.scanner.position() }),
            },
            Some(Token::Integer(idx)) => Ok(*idx as usize),
            _ => Err(CompileError::ExpectedReference { at: self.scanner.position() }),
        }
    }

    /// The label that the next token gives.
    fn parse_label(&mut self) -> (r: Result<Label, CompileError>)
        ensures
            final(self)@ == old(self)@.moved(1),
            match label_operand(old(self)@, 1) {
                Ok(l) => r matches Ok(label) && label@ == l,
                Err(e) => r == Err::<Label, CompileError>(e),
            },
    {
        match self.scanner.get_next_token() {
            Some(Token::Id(id)) => Ok(Label::REF(id.clone())),
            Some(Token::Integer(idx)) => Ok(Label::U32(*idx as usize)),
            _ => Err(CompileError::ExpectedReference { at: self.scanner.position() }),
        }
    }

    /// The innermost open block that bears the name `id`.
    #[verifier::loop_isolation(false)]
    fn find_named_block(&self, id: &str) -> (r: Option<usize>)
        requires
            self.functions.len() < self.blks_table.len(),
        ensures
            r == named_block(
                self@.blks_table[self@.functions.len() as int],
                self@.blks_stack,
                id@,
                self@.blks_stack.len() as int,
            ),
    {
        let blocks = &self.blks_table[self.functions.len()];
        let ghost views = self@.blks_table[self@.functions.len() as int];
        assert(views == blocks_view(blocks@));
        let mut open = self.blks_stack.len();
        while open > 0
            invariant
                open <= self.blks_stack.len(),
                views == blocks_view(blocks@),
                named_block(views, self.blks_stack@, id@, self.blks_stack.len() as int)
                    == named_block(views, self.blks_stack@, id@, open as int),
            decreases open,
        {
            let idx = self.blks_stack[open - 1];
            if idx < blocks.len() {
                assert(views[idx as int] == blocks@[idx as int]@);
                match &blocks[idx].id {
                    Some(name) => {
                        if str_eq(name.as_str(), id) {
                            return Some(idx);
                        }
                    },
                    None => {},
                }
            }
            open -= 1;
        }
        None
    }

    /// The block that the next token, the operand of a branch, refers to.
    fn parse_branch_target(&mut self) -> (r: Result<usize, CompileError>)
        ensures
            final(self)@ == old(self)@.moved(1),
            r == branch_target(old(self)@),
    {
        match self.take_token() {
            Some(Token::Id(id)) => {
                if self.blks_stack.len() == 0 {
                    Err(CompileError::UnknownBlock { at: self.scanner.position() })
                } else if self.functions.len() >= self.blks_table.len() {
                    Err(CompileError::MissingBlockList { at: self.scanner.position() })
                } else {
                    match self.find_named_block(id.as_str()) {
                        Some(idx) => Ok(idx),
                        None => Err(CompileError::UnknownBlock { at: self.scanner.position() }),
                    }
                }
            },
            Some(Token::Integer(nesting)) => {
                if nesting >= 0 && (nesting as usize) < self.blks_stack.len() {
                    Ok(self.blks_stack[self.blks_stack.len() - (nesting as usize) - 1])
                } else {
                    Err(CompileError::UnknownBlock { at: self.scanner.position() })
                }
            },
            _ => Err(CompileError::ExpectedReference { at: self.scanner.position() }),
        }
    }

    /// Opens a block or a loop, of which the keyword was just read.
    fn parse_block(&mut self, is_loop: bool) -> (r: Result<usize, CompileError>)
        ensures
            parsed(r, final(self)@, open_block(old(self)@, is_loop)),
    {
        let here = self.scanner.position();
        let fn_idx = self.functions.len();
        let blk_id = self.take_name();
        let has_result = match self.parse_result() {
            Ok(b) => b,
            Err(e) => {
                return Err(e);
            },
        };
        let ghost q = self@;
        if fn_idx >= self.blks_table.len() {
            return Err(CompileError::MissingBlockList { at: here });
        }
        let mut next_pc: usize = 0;
        if is_loop {
            if self.code_memory.len() == usize::MAX {
                return Err(CompileError::CodeTooLong { at: here });
            }
            next_pc = self.code_memory.len() + 1;
        }
        let blk = Block { id: blk_id, is_loop: is_loop, next_pc: next_pc, result: has_result };
        let blk_idx = self.blks_table[fn_idx].len();
        self.blks_table[fn_idx].push(blk);
        self.blks_stack.push(blk_idx);
        assert(self@ =~~= (ParserView {
            blks_table: q.blks_table.update(
                fn_idx as int,
                q.blks_table[fn_idx as int].push(blk@),
            ),
            blks_stack: q.blks_stack.push(blk_idx),
            ..q
        }));
        Ok(blk_idx)
    }

    /// Closes the innermost open block, of which `end` was just read.
    fn parse_end(&mut self) -> (r: Result<(), CompileError>)
        ensures
            parsed(r, final(self)@, match close_block(old(self)@) {
                Ok(q) => Ok((q, ())),
                Err(e) => Err(e),
            }),
    {
        let ghost p = self@;
        let fn_idx = self.functions.len();
        let blk_idx = match self.blks_stack.pop() {
            Some(idx) => idx,
            None => {
                return Err(CompileError::UnmatchedEnd { at: self.scanner.position() });
            },
        };
        if fn_idx >= self.blks_table.len() {
            return Err(CompileError::MissingBlockList { at: self.scanner.position() });
        }
        if blk_idx >= self.blks_table[fn_idx].len() {
            return Err(CompileError::MissingBlockList { at: self.scanner.position() });
        }
        if !self.blks_table[fn_idx][blk_idx].is_loop {
            let here = self.code_memory.len();
            if here == usize::MAX {
                return Err(CompileError::CodeTooLong { at: self.scanner.position() });
            }
            self.blks_table[fn_idx][blk_idx].next_pc = here + 1;
        }
        assert(self@ =~~= close_block(p)->Ok_0);
        Ok(())
    }

    /// Compiles the instruction whose keyword `inst` was just read.
    pub fn parse_to_bytecode(&mut self, inst: &str, vars_map: &StringHashMap<usize>) -> (r: Result<
        OP,
        CompileError,
    >)
        ensures
            match bytecode(old(self)@, inst@, vars_map@) {
                Ok((q, op)) => r matches Ok(o) && o@ == op && final(self)@ == q,
                Err(e) => r == Err::<OP, CompileError>(e),
            },
    {
        match plain_op_of(inst) {
            Some(op) => {
                return Ok(op);
            },
            None => {},
        }
        if str_eq(inst, "i32.const") {
            match self.scanner.get_next_token() {
                Some(Token::Integer(n)) => Ok(OP::I32CONST(*n)),
                _ => Err(CompileError::ExpectedInteger { at: self.scanner.position() }),
            }
        } else if str_eq(inst, "local.get") {
            match self.parse_local(vars_map) {
                Ok(idx) => Ok(OP::LOCGET(idx)),
                Err(e) => Err(e),
            }
        } else if str_eq(inst, "local.set") {
            match self.parse_local(vars_map) {
                Ok(idx) => Ok(OP::LOCSET(idx)),
                Err(e) => Err(e),
            }
        } else if str_eq(inst, "local.tee") {
            match self.parse_local(vars_map) {
                Ok(idx) => Ok(OP::LOCTEE(idx)),
                Err(e) => Err(e),
            }
        } else if str_eq(inst, "global.get") {
            match self.parse_label() {
                Ok(label) => Ok(OP::GLOGET(label)),
                Err(e) => Err(e),
            }
        } else if str_eq(inst, "global.set") {
            match self.parse_label() {
                Ok(label) => Ok(OP::GLOSET(label)),
                Err(e) => Err(e),
            }
        } else if str_eq(inst, "call") {
            match self.parse_label() {
                Ok(label) => Ok(OP::CALL(label)),
                Err(e) => Err(e),
            }
        } else if str_eq(inst, "block") {
            match self.parse_block(false) {
                Ok(blk_idx) => Ok(OP::BLK(blk_idx)),
                Err(e) => Err(e),
            }
        } else if str_eq(inst, "loop") {
            match self.parse_block(true) {
                Ok(blk_idx) => Ok(OP::LOOP(blk_idx)),
                Err(e) => Err(e),
            }
        } else if str_eq(inst, "br") {
            match self.parse_branch_target() {
                Ok(blk_idx) => Ok(OP::BR(blk_idx)),
                Err(e) => Err(e),
            }
        } else if str_eq(inst, "br_if") {
            match self.parse_branch_target() {
                Ok(blk_idx) => Ok(OP::BRIF(blk_idx)),
                Err(e) => Err(e),
            }
        } else if str_eq(inst, "end") {
            match self.parse_end() {
                Ok(()) => Ok(OP::END),
                Err(e) => Err(e),
            }
        } else {
            Err(CompileError::UnknownInstruction { at: self.scanner.position() })
        }
    }

    /// Reads an optional `(result i32)`.
    pub fn parse_result(&mut self) -> (r: Result<bool, CompileError>)
        ensures
            parsed(r, final(self)@, result_clause(old(self)@)),
    {
        if !self.next_opens("result") {
            return Ok(false);
        }
        self.scanner.advance();
        self.scanner.advance();
        if !self.expect_kwd("i32") {
            return Err(CompileError::InvalidType { at: self.scanner.position() });
        }
        if !self.expect_rparan() {
            return Err(CompileError::ExpectedRParen { at: self.scanner.position() });
        }
        assert(self@ =~~= old(self)@.moved(4));
        Ok(true)
    }

    /// Reads an optional `(var_kwd [name] i32)` and enters its name, if it
    /// has one, into the slot table as slot `n_locals`.
    pub fn parse_var(
        &mut self,
        var_kwd: &str,
        locals_map: &mut StringHashMap<usize>,
        n_locals: u32,
    ) -> (r: Result<bool, CompileError>)
        ensures
            match var_clause(old(self)@, var_kwd@, old(locals_map)@, n_locals) {
                Ok((q, named, found)) => r == Ok::<bool, CompileError>(found) && final(self)@ == q
                    && final(locals_map)@ == named,
                Err(e) => r == Err::<bool, CompileError>(e),
            },
    {
        if !self.next_opens(var_kwd) {
            return Ok(false);
        }
        self.scanner.advance();
        self.scanner.advance();
        match self.take_name() {
            Some(id) => {
                locals_map.insert(id, n_locals as usize);
            },
            None => {},
        }
        let ghost q = self@;
        if !self.expect_kwd("i32") {
            return Err(CompileError::InvalidType { at: self.scanner.position() });
        }
        if !self.expect_rparan() {
            return Err(CompileError::ExpectedRParen { at: self.scanner.position() });
        }
        assert(self@ =~~= q.moved(2));
        Ok(true)
    }

    /// Compiles an export, of which `(export` was just read.
    pub fn parse_export(&mut self) -> (r: Result<(), CompileError>)
        ensures
            parsed(r, final(self)@, match export_decl(old(self)@) {
                Ok(q) => Ok((q, ())),
                Err(e) => Err(e),
            }),
    {
        let ghost p = self@;
        let export_name: String = match self.scanner.get_next_token() {
            Some(Token::String(name)) => name.clone(),
            _ => {
                return Err(CompileError::ExpectedExportName { at: self.scanner.position() });
            },
        };
        if !self.expect_lparan() {
            return Err(CompileError::ExpectedLParen { at: self.scanner.position() });
        }
        let export_type = match self.scanner.get_next_token() {
            Some(Token::Kwd(kwd)) => {
                if str_eq(kwd.as_str(), "func") {
                    ExportType::FUNCTION
                } else if str_eq(kwd.as_str(), "global") {
                    ExportType::GLOBAL
                } else if str_eq(kwd.as_str(), "memory") {
                    ExportType::MEMORY
                } else {
                    return Err(CompileError::UnknownExportKind { at: self.scanner.position() });
                }
            },
            _ => {
                return Err(CompileError::UnknownExportKind { at: self.scanner.position() });
            },
        };
        let export_ref = match self.parse_label() {
            Ok(label) => label,
            Err(e) => {
                return Err(e);
            },
        };
        if !self.expect_rparan() {
            return Err(CompileError::ExpectedRParen { at: self.scanner.position() });
        }
        if !self.expect_rparan() {
            return Err(CompileError::ExpectedRParen { at: self.scanner.position() });
        }
        let ghost before = self.exports@;
        let export = Export::new(export_type, export_ref);
        let ghost inserted = export@;
        self.exports.insert(export_name, export);
        assert(self@ =~~= export_decl(p)->Ok_0) by {
            assert(exports_view(self.exports@) =~= exports_view(before).insert(
                export_name@,
                inserted,
            ));
        }
        Ok(())
    }

    /// Reads the type of a global: `i32` or `(mut i32)`.
    fn parse_global_type(&mut self) -> (r: Result<bool, CompileError>)
        ensures
            parsed(r, final(self)@, global_type(old(self)@)),
    {
        let paren = match self.scanner.peek1() {
            Some(Token::LParan) => true,
            _ => false,
        };
        if paren {
            self.scanner.advance();
            if !self.expect_kwd("mut") {
                return Err(CompileError::InvalidType { at: self.scanner.position() });
            }
            if !self.expect_kwd("i32") {
                return Err(CompileError::InvalidType { at: self.scanner.position() });
            }
            if !self.expect_rparan() {
                return Err(CompileError::ExpectedRParen { at: self.scanner.position() });
            }
            assert(self@ =~~= old(self)@.moved(4));
            Ok(true)
        } else {
            if !self.expect_kwd("i32") {
                return Err(CompileError::InvalidType { at: self.scanner.position() });
            }
            Ok(false)
        }
    }

    /// Compiles a global, of which `(global` was just read.
    pub fn parse_global(&mut self) -> (r: Result<(), CompileError>)
        ensures
            parsed(r, final(self)@, match global_decl(old(self)@) {
                Ok(q) => Ok((q, ())),
                Err(e) => Err(e),
            }),
    {
        let ghost p = self@;
        match self.take_name() {
            Some(id) => {
                self.globals_map.insert(id, self.globals.len());
            },
            None => {},
        }
        let is_mut = match self.parse_global_type() {
            Ok(b) => b,
            Err(e) => {
                return Err(e);
            },
        };
        if !self.expect_lparan() {
            return Err(CompileError::ExpectedLParen { at: self.scanner.position() });
        }
        if !self.expect_kwd("i32.const") {
            return Err(CompileError::ExpectedInitialValue { at: self.scanner.position() });
        }
        let value: i32 = match self.scanner.get_next_token() {
            Some(Token::Integer(n)) => *n,
            _ => {
                return Err(CompileError::ExpectedInteger { at: self.scanner.position() });
            },
        };
        if !self.expect_rparan() {
            return Err(CompileError::ExpectedRParen { at: self.scanner.position() });
        }
        if !self.expect_rparan() {
            return Err(CompileError::ExpectedRParen { at: self.scanner.position() });
        }
        self.globals.push(Global { mutable: is_mut, value });
        assert(self@ =~~= global_decl(p)->Ok_0);
        Ok(())
    }

    /// Compiles the memory declaration, of which `(memory` was just read.
    pub fn parse_memory(&mut self) -> (r: Result<(), CompileError>)
        ensures
            parsed(r, final(self)@, match memory_decl(old(self)@) {
                Ok(q) => Ok((q, ())),
                Err(e) => Err(e),
            }),
    {
        let ghost p = self@;
        let name = self.take_name();
        let initial_capacity: u32 = match self.scanner.get_next_token() {
            Some(Token::Integer(n)) => *n as u32,
            _ => {
                return Err(CompileError::ExpectedInteger { at: self.scanner.position() });
            },
        };
        if !self.expect_rparan() {
            return Err(CompileError::ExpectedRParen { at: self.scanner.position() });
        }
        self.memory = Some(Mem::new(name, initial_capacity));
        assert(self@ =~~= memory_decl(p)->Ok_0);
        Ok(())
    }

    /// Compiles a function declaration, of which `(func` was just read, and
    /// enters the function into the module.
    pub fn parse_function_decl(&mut self) -> (r: Result<(), CompileError>)
        ensures
            parsed(r, final(self)@, match function_decl(old(self)@) {
                Ok(q) => Ok((q, ())),
                Err(e) => Err(e),
            }),
    {
        let ghost p = self@;
        self.blks_table.push(Vec::new());
        assert(self@ =~~= (ParserView { blks_table: p.blks_table.push(Seq::empty()), ..p }));
        let function = match self.parse_fn() {
            Ok(f) => f,
            Err(e) => {
                return Err(e);
            },
        };
        match &function.name {
            Some(name) => {
                self.funcs_refs.insert(name.clone(), self.functions.len());
            },
            None => {},
        }
        self.functions.push(function);
        self.blks_stack.clear();
        assert(self@ =~~= function_decl(p)->Ok_0);
        Ok(())
    }

    /// Compiles a declaration, of which the opening parenthesis was just
    /// read.
    pub fn parse_declaration(&mut self) -> (r: Result<(), CompileError>)
        ensures
            parsed(r, final(self)@, match declaration(old(self)@) {
                Ok(q) => Ok((q, ())),
                Err(e) => Err(e),
            }),
    {
        if self.next_is_kwd("memory") {
            self.scanner.advance();
            self.parse_memory()
        } else if self.next_is_kwd("global") {
            self.scanner.advance();
            self.parse_global()
        } else if self.next_is_kwd("export") {
            self.scanner.advance();
            self.parse_export()
        } else if self.next_is_kwd("func") {
            self.scanner.advance();
            self.parse_function_decl()
        } else {
            self.scanner.advance();
            Err(CompileError::UnknownDeclaration { at: self.scanner.position() })
        }
    }
}

/// Whether `r` is what the mathematical result `expected` asks for: the
/// same error, or a module and a block table with the expected values.
pub open spec fn compiled(
    r: Result<(Mod, BlockTable), CompileError>,
    expected: Result<(ModView, Seq<Seq<BlockView>>), CompileError>,
) -> bool {
    match expected {
        Ok((m, table)) => r matches Ok((module, blks_table)) && module@ == m && block_table_view(
            blks_table@,
        ) == table,
        Err(e) => r == Err::<(Mod, BlockTable), CompileError>(e),
    }
}

/// Compiles a token sequence.
#[verifier::loop_isolation(false)]
pub fn parse_tokens(tokens: Vec<Token>) -> (r: Result<(Mod, BlockTable), CompileError>)
    ensures
        compiled(r, module(tokens_view(tokens@))),
{
    let scanner = Scanner::new(tokens);
    let mut parser = Parser::new(scanner);
    match parser.scanner.current_debug() {
        Some(Token::LParan) => {},
        _ => {
            return Err(CompileError::ExpectedLParen { at: parser.scanner.position() });
        },
    }
    if !parser.expect_kwd("module") {
        return Err(CompileError::ExpectedModule { at: parser.scanner.position() });
    }
    let ghost start = parser@;
    loop
        invariant
            declarations(start) == declarations(parser@),
        decreases parser@.scanner.remaining(),
    {
        let ghost before = parser@;
        match parser.scanner.get_next_token() {
            Some(Token::LParan) => {
                assert(parser@ =~~= before.moved(1));
                proof {
                    lemma_declaration_follows(before.moved(1));
                }
                match parser.parse_declaration() {
                    Ok(()) => {},
                    Err(e) => {
                        return Err(e);
                    },
                }
            },
            Some(Token::RParan) => {
                assert(parser@ =~~= before.moved(1));
                break ;
            },
            _ => {
                return Err(CompileError::ExpectedParen { at: parser.scanner.position() });
            },
        }
    }
    if parser.scanner.peek1().is_some() {
        parser.scanner.advance();
        return Err(CompileError::TrailingTokens { at: parser.scanner.position() });
    }
    let ghost q = parser@;
    let module = Mod {
        memory: parser.memory,
        exports: parser.exports,
        funcs: parser.functions,
        funcs_refs: parser.funcs_refs,
        globals_map: parser.globals_map,
        globals: parser.globals,
        code: parser.code_memory,
        start: None,
    };
    assert(module@ =~~= q.module());
    Ok((module, parser.blks_table))
}

/// Compiles a source text into a module and its block table, or reports the
/// first defect of the text.  Nothing is produced for a text with a defect.
pub fn parse_source(source: &str) -> (r: Result<(Mod, BlockTable), CompileError>)
    ensures
        compiled(r, compile(source@)),
{
    match get_tokens(source) {
        Ok(tokens) => parse_tokens(tokens),
        Err(e) => Err(CompileError::Lex(e)),
    }
}

} // verus!
