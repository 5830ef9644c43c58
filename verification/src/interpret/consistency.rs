//! The invariant of a compiled module: every name of a function or a
//! global stands for an index that exists, every function has a block list
//! and code of its own, and the compiler establishes all of this.

use crate::interpret::ast::{BlockView, ModView, ParserView};
use crate::interpret::grammar::{
    bytecode, declaration, declarations, export_decl, follows, function, function_decl,
    global_decl, instruction, instructions, memory_decl, module, next_name, result_clause,
    skip_name, var_clause, var_clauses,
};
use crate::interpret::lexer::TokenView;
use vstd::prelude::*;

verus! {

impl ModView {
    /// Whether the module is consistent with its block table `blocks`:
    ///
    /// - each function has a block list;
    /// - each function's code starts within the bytecode;
    /// - each name of a function stands for the index of a function;
    /// - each name of a global stands for the index of a global.
    pub open spec fn consistent(self, blocks: Seq<Seq<BlockView>>) -> bool {
        &&& blocks.len() == self.funcs.len()
        &&& forall|f: int| 0 <= f < self.funcs.len() ==> (#[trigger] self.funcs[f]).code_addr
            < self.code.len()
        &&& forall|name: Seq<char>| #[trigger]
            self.funcs_refs.contains_key(name) ==> self.funcs_refs[name] < self.funcs.len()
        &&& forall|name: Seq<char>| #[trigger]
            self.globals_map.contains_key(name) ==> self.globals_map[name] < self.globals.len()
    }
}

/// What holds of a compilation between two declarations: the module so far
/// is consistent, and there is no more bytecode, and there are no more
/// functions or globals, than tokens were read.
pub open spec fn settled(p: ParserView) -> bool {
    &&& p.scanner.wf()
    &&& p.scanner.tokens.len() <= usize::MAX
    &&& p.code.len() <= p.scanner.curr
    &&& p.functions.len() <= p.scanner.curr
    &&& p.globals.len() <= p.scanner.curr
    &&& p.module().consistent(p.blks_table)
}

/// What compiling the inside of a function leaves as it is: the
/// declarations of the module and the number of block lists.
pub open spec fn same_module(q: ParserView, p: ParserView) -> bool {
    &&& q.memory == p.memory
    &&& q.exports == p.exports
    &&& q.functions == p.functions
    &&& q.funcs_refs == p.funcs_refs
    &&& q.globals == p.globals
    &&& q.globals_map == p.globals_map
    &&& q.blks_table.len() == p.blks_table.len()
}

/// Compiling an instruction leaves the module and the bytecode as they
/// are: the instruction is emitted by the caller.
pub proof fn lemma_bytecode_keeps_module(
    p: ParserView,
    inst: Seq<char>,
    slots: Map<Seq<char>, usize>,
)
    requires
        p.scanner.wf(),
    ensures
        bytecode(p, inst, slots) matches Ok((q, _)) ==> same_module(q, p) && follows(q, p)
            && q.code == p.code,
{
}

/// Compiling a run of instructions leaves the module as it is and emits no
/// more instructions than it reads tokens.
pub proof fn lemma_instructions_keep_module(p: ParserView, slots: Map<Seq<char>, usize>)
    requires
        p.scanner.wf(),
    ensures
        instructions(p, slots) matches Ok(q) ==> same_module(q, p) && follows(q, p)
            && p.code.len() <= q.code.len() && q.code.len() - p.code.len() <= q.scanner.curr
            - p.scanner.curr,
    decreases p.scanner.remaining(),
{
    match instruction(p, slots) {
        Err(e) => {},
        Ok((q, found)) => {
            if found {
                lemma_bytecode_keeps_module(p.moved(1), p.tok(1)->0->Kwd_0, slots);
                lemma_instructions_keep_module(q, slots);
            }
        },
    }
}

/// Reading a run of clauses moves the cursor and nothing else.
pub proof fn lemma_var_clauses_keep_module(
    p: ParserView,
    word: Seq<char>,
    slots: Map<Seq<char>, usize>,
    slot: u32,
)
    requires
        p.scanner.wf(),
    ensures
        var_clauses(p, word, slots, slot) matches Ok((q, _, _)) ==> same_module(q, p) && follows(
            q,
            p,
        ) && q.code == p.code,
    decreases p.scanner.remaining(),
{
    match var_clause(p, word, slots, slot) {
        Err(e) => {},
        Ok((q, named, found)) => {
            if found && slot < u32::MAX {
                lemma_var_clauses_keep_module(q, word, named, (slot + 1) as u32);
            }
        },
    }
}

/// Compiling a function leaves the module as it is, emits at least the
/// function's `RET` and no more instructions than it reads tokens, and
/// records where the function's code starts.
pub proof fn lemma_function_keeps_module(p: ParserView)
    requires
        p.scanner.wf(),
        p.code.len() <= usize::MAX,
    ensures
        function(p) matches Ok((q, f)) ==> same_module(q, p) && follows(q, p) && p.code.len()
            < q.code.len() && q.code.len() - p.code.len() <= q.scanner.curr - p.scanner.curr
            && f.code_addr == p.code.len(),
{
    let p0 = skip_name(p);
    lemma_var_clauses_keep_module(p0, "param"@, Map::empty(), 0);
    match var_clauses(p0, "param"@, Map::empty(), 0) {
        Err(e) => {},
        Ok((q1, params, args)) => match result_clause(q1) {
            Err(e) => {},
            Ok((q2, result)) => {
                lemma_var_clauses_keep_module(q2, "local"@, params, args);
                match var_clauses(q2, "local"@, params, args) {
                    Err(e) => {},
                    Ok((q3, slots, used)) => {
                        lemma_instructions_keep_module(q3, slots);
                    },
                }
            },
        }
    }
}

/// A module stays consistent where its functions and its names stay as
/// they are and neither its bytecode nor its globals get fewer.
pub proof fn lemma_consistency_is_kept(p: ParserView, q: ParserView)
    requires
        p.module().consistent(p.blks_table),
        q.functions == p.functions,
        q.funcs_refs == p.funcs_refs,
        q.globals_map == p.globals_map,
        q.blks_table.len() == p.blks_table.len(),
        p.globals.len() <= q.globals.len(),
        p.code.len() <= q.code.len(),
    ensures
        q.module().consistent(q.blks_table),
{
    let m = p.module();
    let n = q.module();
    assert forall|f: int| 0 <= f < n.funcs.len() implies (#[trigger] n.funcs[f]).code_addr
        < n.code.len() by {
        assert(m.funcs[f].code_addr < m.code.len());
    }
    assert forall|name: Seq<char>| #[trigger] n.funcs_refs.contains_key(name) implies n.funcs_refs[name]
        < n.funcs.len() by {
        assert(m.funcs_refs.contains_key(name));
    }
    assert forall|name: Seq<char>| #[trigger] n.globals_map.contains_key(name) implies n.globals_map[name]
        < n.globals.len() by {
        assert(m.globals_map.contains_key(name));
    }
}

/// A function declaration leaves a settled compilation settled.
pub proof fn lemma_function_decl_settles(p: ParserView)
    requires
        settled(p),
        p.tok(2) is Some,
    ensures
        function_decl(p.moved(2)) matches Ok(q) ==> settled(q) && follows(q, p) && p.scanner.curr
            < q.scanner.curr,
{
    let p2 = p.moved(2);
    let opened = ParserView { blks_table: p2.blks_table.push(Seq::empty()), ..p2 };
    lemma_function_keeps_module(opened);
    match function_decl(p2) {
        Err(e) => {},
        Ok(q) => {
            let f = function(opened)->Ok_0.1;
            let m = p.module();
            let n = q.module();
            assert(n.funcs == m.funcs.push(f));
            assert forall|g: int| 0 <= g < n.funcs.len() implies (#[trigger] n.funcs[g]).code_addr
                < n.code.len() by {
                if g < m.funcs.len() {
                    assert(m.funcs[g].code_addr < m.code.len());
                }
            }
            assert forall|name: Seq<char>| #[trigger]
                n.funcs_refs.contains_key(name) implies n.funcs_refs[name] < n.funcs.len() by {
                if f.name != Some(name) {
                    assert(m.funcs_refs.contains_key(name));
                }
            }
            assert forall|name: Seq<char>| #[trigger]
                n.globals_map.contains_key(name) implies n.globals_map[name] < n.globals.len() by {
                assert(m.globals_map.contains_key(name));
            }
        },
    }
}

/// A declaration of a global leaves a settled compilation settled.
pub proof fn lemma_global_decl_settles(p: ParserView)
    requires
        settled(p),
        p.tok(2) is Some,
    ensures
        global_decl(p.moved(2)) matches Ok(q) ==> settled(q) && follows(q, p) && p.scanner.curr
            < q.scanner.curr,
{
    match global_decl(p.moved(2)) {
        Err(e) => {},
        Ok(q) => {
            let m = p.module();
            let n = q.module();
            assert forall|f: int| 0 <= f < n.funcs.len() implies (#[trigger] n.funcs[f]).code_addr
                < n.code.len() by {
                assert(m.funcs[f].code_addr < m.code.len());
            }
            assert forall|name: Seq<char>| #[trigger]
                n.funcs_refs.contains_key(name) implies n.funcs_refs[name] < n.funcs.len() by {
                assert(m.funcs_refs.contains_key(name));
            }
            assert forall|name: Seq<char>| #[trigger]
                n.globals_map.contains_key(name) implies n.globals_map[name] < n.globals.len() by {
                if next_name(p.moved(2)) != Some(name) {
                    assert(m.globals_map.contains_key(name));
                }
            }
        },
    }
}

/// A declaration of an export or of the memory leaves a settled
/// compilation settled.
pub proof fn lemma_plain_decl_settles(p: ParserView)
    requires
        settled(p),
        p.tok(2) is Some,
    ensures
        export_decl(p.moved(2)) matches Ok(q) ==> settled(q) && follows(q, p) && p.scanner.curr
            < q.scanner.curr,
        memory_decl(p.moved(2)) matches Ok(q) ==> settled(q) && follows(q, p) && p.scanner.curr
            < q.scanner.curr,
{
    match export_decl(p.moved(2)) {
        Err(e) => {},
        Ok(q) => {
            lemma_consistency_is_kept(p, q);
        },
    }
    match memory_decl(p.moved(2)) {
        Err(e) => {},
        Ok(q) => {
            lemma_consistency_is_kept(p, q);
        },
    }
}

/// A declaration leaves a settled compilation settled.
pub proof fn lemma_declaration_settles(p: ParserView)
    requires
        settled(p),
        p.tok(1) == Some(TokenView::LParan),
    ensures
        declaration(p.moved(1)) matches Ok(q) ==> settled(q) && follows(q, p) && p.scanner.curr
            < q.scanner.curr,
{
    if p.tok(2) is Some {
        assert(p.moved(1).moved(1) == p.moved(2));
        lemma_function_decl_settles(p);
        lemma_global_decl_settles(p);
        lemma_plain_decl_settles(p);
    }
}

/// The declarations of a module leave a settled compilation settled.
pub proof fn lemma_declarations_settle(p: ParserView)
    requires
        settled(p),
    ensures
        declarations(p) matches Ok(q) ==> settled(q),
    decreases p.scanner.remaining(),
{
    match p.tok(1) {
        Some(TokenView::LParan) => {
            lemma_declaration_settles(p);
            match declaration(p.moved(1)) {
                Err(e) => {},
                Ok(q) => {
                    lemma_declarations_settle(q);
                },
            }
        },
        _ => {},
    }
}

/// Every module that the compiler yields is consistent with the block
/// table that it yields with it.
pub proof fn law_compiled_module_is_consistent(tokens: Seq<TokenView>)
    requires
        tokens.len() <= usize::MAX,
    ensures
        module(tokens) matches Ok((m, blocks)) ==> m.consistent(blocks),
{
    let p = ParserView::fresh(tokens);
    if p.tok(0) == Some(TokenView::LParan) && p.tok(1) == Some(TokenView::Kwd("module"@)) {
        lemma_declarations_settle(p.moved(1));
    }
}

} // verus!
