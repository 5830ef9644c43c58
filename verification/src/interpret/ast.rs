//! The module data model: what the compiler produces and the engine reads.

use crate::interpret::error::Fault;
use crate::interpret::lexer::TokenView;
use crate::interpret::op::{code_view, OpView, OP};
use crate::interpret::scanner::{Scanner, ScannerView};
use crate::interpret::text::name_view;
use vstd::hash_map::StringHashMap;
use vstd::prelude::*;

verus! {

pub const IDX_LIMIT: u8 = 32;

/// A reference to a function or a global: by name or by position.
#[derive(Debug, PartialEq)]
pub enum Label {
    REF(String),
    U32(usize),
}

/// The mathematical value of a [`Label`].
pub enum LabelView {
    REF(Seq<char>),
    U32(usize),
}

impl View for Label {
    type V = LabelView;

    open spec fn view(&self) -> LabelView {
        match *self {
            Label::REF(s) => LabelView::REF(s@),
            Label::U32(i) => LabelView::U32(i),
        }
    }
}

impl Clone for Label {
    fn clone(&self) -> (r: Self)
        ensures
            r@ == self@,
    {
        match self {
            Label::REF(s) => Label::REF(s.clone()),
            Label::U32(i) => Label::U32(*i),
        }
    }
}

/// The memory declaration of a module: an optional name and the number of
/// pages the linear memory starts with.
#[derive(Debug, PartialEq)]
pub struct Mem {
    pub name: Option<String>,
    pub initial_capacity: u32,
}

/// The mathematical value of a [`Mem`].
pub struct MemView {
    pub name: Option<Seq<char>>,
    pub initial_capacity: u32,
}

impl View for Mem {
    type V = MemView;

    open spec fn view(&self) -> MemView {
        MemView { name: name_view(self.name), initial_capacity: self.initial_capacity }
    }
}

impl Mem {
    pub fn new(name: Option<String>, initial_capacity: u32) -> (r: Self)
        ensures
            r.name == name,
            r.initial_capacity == initial_capacity,
    {
        Self { name, initial_capacity }
    }
}

/// The mathematical value of an optional memory declaration.
pub open spec fn mem_view(mem: Option<Mem>) -> Option<MemView> {
    match mem {
        Some(m) => Some(m@),
        None => None,
    }
}

/// Per function, its blocks in the order in which they were opened.
pub type BlockTable = Vec<Vec<Block>>;

/// A control-flow region of one function.  `next_pc` is where a branch to
/// the block continues: behind the matching `end` for a plain block, behind
/// the header for a loop.
#[derive(Debug)]
pub struct Block {
    pub id: Option<String>,
    pub is_loop: bool,
    pub next_pc: usize,
    pub result: bool,
}

/// The mathematical value of a [`Block`].
pub struct BlockView {
    pub id: Option<Seq<char>>,
    pub is_loop: bool,
    pub next_pc: usize,
    pub result: bool,
}

impl View for Block {
    type V = BlockView;

    open spec fn view(&self) -> BlockView {
        BlockView {
            id: name_view(self.id),
            is_loop: self.is_loop,
            next_pc: self.next_pc,
            result: self.result,
        }
    }
}

/// The mathematical value of one function's block list.
pub open spec fn blocks_view(blocks: Seq<Block>) -> Seq<BlockView> {
    blocks.map_values(|b: Block| b@)
}

/// The mathematical value of a block table.
pub open spec fn block_table_view(table: Seq<Vec<Block>>) -> Seq<Seq<BlockView>> {
    table.map_values(|blocks: Vec<Block>| blocks_view(blocks@))
}

/// A global declaration: whether it may be written, and its initial value.
#[derive(Debug, Clone, Copy, PartialEq)]
pub struct Global {
    pub mutable: bool,
    pub value: i32,
}

/// A function record: where its code starts and how many slots it needs.
#[derive(Debug)]
pub struct Fn {
    pub name: Option<String>,
    pub args: u32,
    pub locals: u32,
    pub code_addr: usize,
    pub result: bool,
}

/// The mathematical value of a [`Fn`].
pub struct FnView {
    pub name: Option<Seq<char>>,
    pub args: u32,
    pub locals: u32,
    pub code_addr: usize,
    pub result: bool,
}

impl View for Fn {
    type V = FnView;

    open spec fn view(&self) -> FnView {
        FnView {
            name: name_view(self.name),
            args: self.args,
            locals: self.locals,
            code_addr: self.code_addr,
            result: self.result,
        }
    }
}

impl Fn {
    /// A nameless function without parameters, locals or result, whose code
    /// starts at 0.
    #[allow(non_snake_case)]
    pub fn Empty() -> (r: Self)
        ensures
            r@ == (FnView { name: None, args: 0, locals: 0, code_addr: 0, result: false }),
    {
        Self { name: None, args: 0, locals: 0, code_addr: 0, result: false }
    }
}

/// The mathematical value of a function list.
pub open spec fn funcs_view(funcs: Seq<Fn>) -> Seq<FnView> {
    funcs.map_values(|f: Fn| f@)
}

/// What an export makes reachable from outside.
#[derive(Debug, Clone, Copy, PartialEq)]
pub enum ExportType {
    FUNCTION,
    GLOBAL,
    MEMORY,
}

/// An exported entity: its kind and a reference to it.
#[derive(Debug, PartialEq)]
pub struct Export {
    pub export_type: ExportType,
    pub export_ref: Label,
}

/// The mathematical value of an [`Export`].
pub struct ExportView {
    pub export_type: ExportType,
    pub export_ref: LabelView,
}

impl View for Export {
    type V = ExportView;

    open spec fn view(&self) -> ExportView {
        ExportView { export_type: self.export_type, export_ref: self.export_ref@ }
    }
}

impl Export {
    pub fn new(export_type: ExportType, export_ref: Label) -> (r: Self)
        ensures
            r.export_type == export_type,
            r.export_ref == export_ref,
    {
        Self { export_type, export_ref }
    }
}

/// The mathematical value of an export table.
pub open spec fn exports_view(exports: Map<Seq<char>, Export>) -> Map<Seq<char>, ExportView> {
    exports.map_values(|e: Export| e@)
}

/// A compiled program.
pub struct Mod {
    pub memory: Option<Mem>,
    pub exports: StringHashMap<Export>,
    pub funcs: Vec<Fn>,
    pub funcs_refs: StringHashMap<usize>,
    pub globals_map: StringHashMap<usize>,
    pub globals: Vec<Global>,
    pub code: Vec<OP>,
    pub start: Option<usize>,
}

/// The mathematical value of a [`Mod`].
pub struct ModView {
    pub memory: Option<MemView>,
    pub exports: Map<Seq<char>, ExportView>,
    pub funcs: Seq<FnView>,
    pub funcs_refs: Map<Seq<char>, usize>,
    pub globals_map: Map<Seq<char>, usize>,
    pub globals: Seq<Global>,
    pub code: Seq<OpView>,
    pub start: Option<usize>,
}

impl View for Mod {
    type V = ModView;

    open spec fn view(&self) -> ModView {
        ModView {
            memory: mem_view(self.memory),
            exports: exports_view(self.exports@),
            funcs: funcs_view(self.funcs@),
            funcs_refs: self.funcs_refs@,
            globals_map: self.globals_map@,
            globals: self.globals@,
            code: code_view(self.code@),
            start: self.start,
        }
    }
}

impl ModView {
    /// The index of the function called `name`: the module must have
    /// functions, and one of them must carry the name.
    pub open spec fn fn_index(self, name: Seq<char>) -> Result<usize, Fault> {
        if self.funcs.len() == 0 {
            Err(Fault::NoFunctions)
        } else if self.funcs_refs.contains_key(name) {
            Ok(self.funcs_refs[name])
        } else {
            Err(Fault::UnknownFunction)
        }
    }

    /// The index of the global that `label` refers to.  A name resolves
    /// through the name table; an index must lie within the globals.
    pub open spec fn global_index(self, label: LabelView) -> Result<usize, Fault> {
        match label {
            LabelView::REF(name) => {
                if self.globals_map.contains_key(name) {
                    Ok(self.globals_map[name])
                } else {
                    Err(Fault::UnknownGlobal)
                }
            },
            LabelView::U32(idx) => {
                if idx < self.globals.len() {
                    Ok(idx)
                } else {
                    Err(Fault::GlobalOutOfRange)
                }
            },
        }
    }
}

impl Mod {
    /// Resolves a function name to its index.
    pub fn get_fn_idx(&self, fn_id: &str) -> (r: Result<usize, Fault>)
        ensures
            r == self@.fn_index(fn_id@),
    {
        if self.funcs.len() == 0 {
            return Err(Fault::NoFunctions);
        }
        match self.funcs_refs.get(fn_id) {
            Some(idx) => Ok(*idx),
            None => Err(Fault::UnknownFunction),
        }
    }

    /// Resolves a reference to a global to its index.
    pub fn get_global(&self, label: &Label) -> (r: Result<usize, Fault>)
        ensures
            r == self@.global_index(label@),
    {
        match label {
            Label::REF(name) => {
                match self.globals_map.get(name.as_str()) {
                    Some(idx) => Ok(*idx),
                    None => Err(Fault::UnknownGlobal),
                }
            },
            Label::U32(idx) => {
                if *idx < self.globals.len() {
                    Ok(*idx)
                } else {
                    Err(Fault::GlobalOutOfRange)
                }
            },
        }
    }
}

/// The state of a compilation: the cursor over the tokens and everything
/// compiled so far.  `blks_stack` holds the blocks that are open in the
/// function being compiled, innermost last, each by its index in that
/// function's block list.
pub struct Parser {
    pub memory: Option<Mem>,
    pub scanner: Scanner,
    pub exports: StringHashMap<Export>,
    pub functions: Vec<Fn>,
    pub code_memory: Vec<OP>,
    pub funcs_refs: StringHashMap<usize>,
    pub globals: Vec<Global>,
    pub globals_map: StringHashMap<usize>,
    pub blks_table: Vec<Vec<Block>>,
    pub blks_stack: Vec<usize>,
}

/// The mathematical value of a [`Parser`].
#[verifier::ext_equal]
pub struct ParserView {
    pub memory: Option<MemView>,
    pub scanner: ScannerView,
    pub exports: Map<Seq<char>, ExportView>,
    pub functions: Seq<FnView>,
    pub code: Seq<OpView>,
    pub funcs_refs: Map<Seq<char>, usize>,
    pub globals: Seq<Global>,
    pub globals_map: Map<Seq<char>, usize>,
    pub blks_table: Seq<Seq<BlockView>>,
    pub blks_stack: Seq<usize>,
}

impl ParserView {
    /// The state in which nothing of `tokens` has been compiled.
    pub open spec fn fresh(tokens: Seq<TokenView>) -> ParserView {
        ParserView {
            memory: None,
            scanner: ScannerView { tokens, curr: 0 },
            exports: Map::empty(),
            functions: Seq::empty(),
            code: Seq::empty(),
            funcs_refs: Map::empty(),
            globals: Seq::empty(),
            globals_map: Map::empty(),
            blks_table: Seq::empty(),
            blks_stack: Seq::empty(),
        }
    }

    /// The token `k` places behind the current one.
    pub open spec fn tok(self, k: int) -> Option<TokenView> {
        self.scanner.at(k)
    }

    /// The position of the token `k` places behind the current one; the
    /// number of tokens where there is no such token.
    pub open spec fn at(self, k: int) -> usize {
        self.scanner.moved(k).curr as usize
    }

    /// The same state with the cursor `n` tokens further.
    pub open spec fn moved(self, n: int) -> ParserView {
        ParserView { scanner: self.scanner.moved(n), ..self }
    }

    /// The same state with `op` appended to the bytecode.
    pub open spec fn emit(self, op: OpView) -> ParserView {
        ParserView { code: self.code.push(op), ..self }
    }

    /// The module that the state holds.
    pub open spec fn module(self) -> ModView {
        ModView {
            memory: self.memory,
            exports: self.exports,
            funcs: self.functions,
            funcs_refs: self.funcs_refs,
            globals_map: self.globals_map,
            globals: self.globals,
            code: self.code,
            start: None,
        }
    }
}

impl View for Parser {
    type V = ParserView;

    open spec fn view(&self) -> ParserView {
        ParserView {
            memory: mem_view(self.memory),
            scanner: self.scanner@,
            exports: exports_view(self.exports@),
            functions: funcs_view(self.functions@),
            code: code_view(self.code_memory@),
            funcs_refs: self.funcs_refs@,
            globals: self.globals@,
            globals_map: self.globals_map@,
            blks_table: block_table_view(self.blks_table@),
            blks_stack: self.blks_stack@,
        }
    }
}

impl Parser {
    /// A parser that has compiled nothing of what `scanner` holds.
    pub fn new(scanner: Scanner) -> (r: Self)
        ensures
            r@ == (ParserView { scanner: scanner@, ..ParserView::fresh(scanner@.tokens) }),
            r.scanner == scanner,
    {
        let r = Self {
            memory: None,
            scanner: scanner,
            exports: StringHashMap::new(),
            functions: Vec::new(),
            code_memory: Vec::new(),
            funcs_refs: StringHashMap::new(),
            globals: Vec::new(),
            globals_map: StringHashMap::new(),
            blks_table: Vec::new(),
            blks_stack: Vec::new(),
        };
        assert(r@ =~~= (ParserView { scanner: scanner@, ..ParserView::fresh(scanner@.tokens) })) by {
            assert(exports_view(Map::<Seq<char>, Export>::empty()) =~= Map::empty());
        }
        r
    }
}

} // verus!
