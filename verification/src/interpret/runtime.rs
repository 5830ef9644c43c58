//! The state of the execution engine: call frames, linear memory, and the
//! evaluator that owns them.

use crate::interpret::ast::{block_table_view, BlockTable, Fn, Mod};
use crate::interpret::error::Fault;
use crate::interpret::op::OP;
use crate::interpret::semantics::{fresh_locals, le_bytes, le_value, EvalView, FrameView};
use vstd::prelude::*;

verus! {

/// The number of bytes in one page of linear memory.
pub const PAGE: u32 = 65536;

/// The single stack through which operands, arguments, results and branch
/// conditions pass.
pub type ValueStack = Vec<i32>;

/// One active function invocation.
#[derive(Debug)]
pub struct FnFrame {
    pub fn_idx: usize,
    pub locals: Vec<i32>,
    pub ret: usize,
}

impl View for FnFrame {
    type V = FrameView;

    open spec fn view(&self) -> FrameView {
        FrameView { fn_idx: self.fn_idx, locals: self.locals@, ret: self.ret }
    }
}

impl FnFrame {
    pub fn new(fn_idx: usize, locals: Vec<i32>, ret: usize) -> (r: Self)
        ensures
            r.fn_idx == fn_idx,
            r.locals == locals,
            r.ret == ret,
    {
        Self { fn_idx, locals, ret }
    }
}

/// The mathematical value of a stack of call frames.
pub open spec fn frames_view(calls: Seq<FnFrame>) -> Seq<FrameView> {
    calls.map_values(|f: FnFrame| f@)
}

/// The local slots with which `function` is entered: its parameters are
/// popped from `caller_stack`, the value pushed last landing in slot 0, and
/// its other locals are zero.  With fewer values on the stack than the
/// function has parameters, nothing can be said of the stack afterwards.
pub fn set_fn_variables(function: &Fn, caller_stack: &mut ValueStack) -> (r: Result<
    ValueStack,
    Fault,
>)
    ensures
        match r {
            Ok(vars) => old(caller_stack)@.len() >= function.args && vars@ == fresh_locals(
                old(caller_stack)@,
                function.args as nat,
                function.locals as nat,
            ) && final(caller_stack)@ == old(caller_stack)@.take(
                old(caller_stack)@.len() - function.args,
            ),
            Err(f) => old(caller_stack)@.len() < function.args && f == Fault::MissingArguments,
        },
{
    let mut vars_table: Vec<i32> = Vec::new();
    let args = function.args;
    if caller_stack.len() < args as usize {
        return Err(Fault::MissingArguments);
    }
    let ghost before = caller_stack@;
    let mut arg: u32 = 0;
    while arg < args
        invariant
            arg <= args,
            before.len() >= args,
            caller_stack@ == before.take(before.len() - arg),
            vars_table@ == Seq::new(arg as nat, |i: int| before[before.len() - 1 - i]),
        decreases args - arg,
    {
        match caller_stack.pop() {
            Some(v) => {
                vars_table.push(v);
            },
            None => {},
        }
        arg += 1;
        assert(caller_stack@ =~= before.take(before.len() - arg));
        assert(vars_table@ =~= Seq::new(arg as nat, |i: int| before[before.len() - 1 - i]));
    }
    let mut local: u32 = 0;
    while local < function.locals
        invariant
            local <= function.locals,
            args == function.args,
            vars_table@ == fresh_locals(before, args as nat, local as nat),
        decreases function.locals - local,
    {
        vars_table.push(0);
        local += 1;
        assert(vars_table@ =~= fresh_locals(before, args as nat, local as nat));
    }
    Ok(vars_table)
}

/// Byte-addressable memory, a whole number of pages long.
#[derive(Debug)]
pub struct LinearMemory {
    pub bytes: Vec<u8>,
}

/// The integer that stands in word `k` of `bytes`, a word being four bytes.
pub open spec fn word_at(bytes: Seq<u8>, k: int) -> i32 {
    le_value(bytes.subrange(4 * k, 4 * k + 4))
}

/// Whether the listing of a memory shows word `k`: every word that is not
/// zero, and of each run of zero words the first.
pub open spec fn word_is_listed(bytes: Seq<u8>, k: int) -> bool {
    word_at(bytes, k) != 0 || k == 0 || word_at(bytes, k - 1) != 0
}

/// The listing of the first `words` words of a memory: each word that is
/// shown, with its number.
pub open spec fn listing(bytes: Seq<u8>, words: int) -> Seq<(usize, i32)>
    decreases words,
{
    if words <= 0 {
        Seq::empty()
    } else if word_is_listed(bytes, words - 1) {
        listing(bytes, words - 1).push(((words - 1) as usize, word_at(bytes, words - 1)))
    } else {
        listing(bytes, words - 1)
    }
}

/// How many bytes the hexadecimal dump of a memory shows, groups of four
/// before group `group` having been shown: the dump ends with the first
/// group whose last byte is zero, or with the memory.
pub open spec fn dump_end(bytes: Seq<u8>, group: int) -> int
    decreases bytes.len() - 4 * group,
{
    if group < 0 || 4 * group + 4 > bytes.len() {
        bytes.len() as int
    } else if bytes[4 * group + 3] == 0 {
        4 * group + 4
    } else {
        dump_end(bytes, group + 1)
    }
}

/// The integer whose four bytes, least significant first, are given.
#[verifier::rlimit(50)]
pub fn word_of(b0: u8, b1: u8, b2: u8, b3: u8) -> (v: i32)
    ensures
        v == le_value(seq![b0, b1, b2, b3]),
{
    let u: u32 = b0 as u32 + (b1 as u32) * 256 + (b2 as u32) * 65536 + (b3 as u32) * 16777216;
    if u > 0x7fff_ffff {
        (u as i64 - 0x1_0000_0000) as i32
    } else {
        u as i32
    }
}

/// The four bytes of `v`, least significant first.
#[verifier::rlimit(50)]
pub fn bytes_of(v: i32) -> (b: [u8; 4])
    ensures
        b@ == le_bytes(v),
{
    let u: u32 = if v >= 0 {
        v as u32
    } else {
        (v as i64 + 0x1_0000_0000) as u32
    };
    let b = [(u % 256) as u8, (u / 256 % 256) as u8, (u / 65536 % 256) as u8, (u / 16777216) as u8];
    assert(b@ =~= le_bytes(v));
    b
}

impl LinearMemory {
    /// The integer whose four bytes stand at `offset`.
    pub fn load(&self, offset: usize) -> (v: i32)
        requires
            offset + 4 <= self.bytes.len(),
        ensures
            v == le_value(self.bytes@.subrange(offset as int, offset + 4)),
    {
        let v = word_of(
            self.bytes[offset],
            self.bytes[offset + 1],
            self.bytes[offset + 2],
            self.bytes[offset + 3],
        );
        assert(self.bytes@.subrange(offset as int, offset + 4) =~= seq![
            self.bytes@[offset as int],
            self.bytes@[offset + 1],
            self.bytes@[offset + 2],
            self.bytes@[offset + 3],
        ]);
        v
    }

    /// Writes the four bytes of `v` at `offset`.
    pub fn store(&mut self, offset: usize, v: i32)
        requires
            offset + 4 <= old(self).bytes.len(),
        ensures
            final(self).bytes@ == old(self).bytes@.take(offset as int) + le_bytes(v) + old(
                self,
            ).bytes@.skip(offset + 4),
    {
        let b = bytes_of(v);
        self.bytes[offset] = b[0];
        self.bytes[offset + 1] = b[1];
        self.bytes[offset + 2] = b[2];
        self.bytes[offset + 3] = b[3];
        assert(self.bytes@ =~= old(self).bytes@.take(offset as int) + le_bytes(v) + old(
            self,
        ).bytes@.skip(offset + 4));
    }

    /// How many bytes, from the first on, the hexadecimal dump of the memory
    /// shows.
    pub fn dump_len(&self) -> (n: usize)
        ensures
            n == dump_end(self.bytes@, 0),
            n <= self.bytes.len(),
    {
        let len = self.bytes.len();
        let mut at: usize = 0;
        while len - at >= 4
            invariant
                at <= len,
                len == self.bytes.len(),
                at % 4 == 0,
                dump_end(self.bytes@, 0) == dump_end(self.bytes@, at as int / 4),
            decreases len - at,
        {
            if self.bytes[at + 3] == 0 {
                return at + 4;
            }
            at += 4;
        }
        len
    }

    /// The lines of the listing of the memory as signed integers of four
    /// bytes each: every word that is not zero, and of each run of zero
    /// words the first, each with its number.  The memory must be a whole
    /// number of words long.  Printing the lines is left to the caller.
    pub fn pretty_print_as_integers(&self) -> (r: Vec<(usize, i32)>)
        requires
            self.bytes.len() % 4 == 0,
        ensures
            r@ == listing(self.bytes@, self.bytes.len() as int / 4),
    {
        let mut lines: Vec<(usize, i32)> = Vec::new();
        let mut before_is_zero = false;
        let mut address: usize = 0;
        let words = self.bytes.len() / 4;
        while address < words
            invariant
                address <= words,
                words == self.bytes.len() as int / 4,
                self.bytes.len() % 4 == 0,
                lines@ == listing(self.bytes@, address as int),
                before_is_zero == (address > 0 && word_at(self.bytes@, address - 1) == 0),
            decreases words - address,
        {
            let n = self.load(4 * address);
            if n == 0 && before_is_zero {
            } else {
                lines.push((address, n));
            }
            before_is_zero = n == 0;
            address += 1;
        }
        lines
    }
}

/// The execution engine: a compiled module with its block table, and the
/// state of a run.
pub struct Evaluator {
    pub module: Mod,
    pub globals: Vec<i32>,
    pub memory: LinearMemory,
    pub stack: ValueStack,
    pub pc: usize,
    pub calls: Vec<FnFrame>,
    pub blks_table: BlockTable,
    /// What the built-in `print` has emitted, oldest first.
    pub output: Vec<i32>,
}

impl View for Evaluator {
    type V = EvalView;

    open spec fn view(&self) -> EvalView {
        EvalView {
            module: self.module@,
            blks_table: block_table_view(self.blks_table@),
            globals: self.globals@,
            memory: self.memory.bytes@,
            stack: self.stack@,
            pc: self.pc,
            calls: frames_view(self.calls@),
            output: self.output@,
        }
    }
}

/// How many bytes the linear memory of `module` starts with: 65536 for each
/// page that it declares, none without a declaration.
pub open spec fn memory_size(module: Mod) -> int {
    match module.memory {
        Some(mem) => mem.initial_capacity * 65536,
        None => 0,
    }
}

impl Evaluator {
    /// Pushes `params` onto the value stack, the first of them first.
    pub fn add_parameters(&mut self, params: Vec<i32>)
        ensures
            final(self)@ == old(self)@.with_stack(old(self)@.stack + params@),
    {
        let mut params = params;
        self.stack.append(&mut params);
    }

    /// The initial values of the globals that `module` declares.
    pub fn set_globals(module: &Mod) -> (globals: Vec<i32>)
        ensures
            globals@ == module.globals@.map_values(|g: crate::interpret::ast::Global| g.value),
    {
        let mut globals: Vec<i32> = Vec::new();
        let mut i: usize = 0;
        while i < module.globals.len()
            invariant
                i <= module.globals.len(),
                globals@ == module.globals@.take(i as int).map_values(
                    |g: crate::interpret::ast::Global| g.value,
                ),
            decreases module.globals.len() - i,
        {
            globals.push(module.globals[i].value);
            i += 1;
            assert(globals@ =~= module.globals@.take(i as int).map_values(
                |g: crate::interpret::ast::Global| g.value,
            ));
        }
        assert(module.globals@.take(i as int) == module.globals@);
        globals
    }

    /// An engine for `module`: the globals hold their initial values, the
    /// memory is zero, and nothing is on the stacks.  The size of the memory
    /// must be a number that the machine can address.
    pub fn new(module: Mod, blks_table: BlockTable) -> (r: Self)
        requires
            memory_size(module) <= usize::MAX,
        ensures
            r.module == module,
            r.blks_table == blks_table,
            r.globals@ == module.globals@.map_values(|g: crate::interpret::ast::Global| g.value),
            r.memory.bytes@ == Seq::new(memory_size(module) as nat, |i: int| 0u8),
            r.stack@ == Seq::<i32>::empty(),
            r.pc == 0,
            r.calls@ == Seq::<FnFrame>::empty(),
            r.output@ == Seq::<i32>::empty(),
    {
        let pages: u32 = match &module.memory {
            Some(mem) => mem.initial_capacity,
            None => 0,
        };
        assert(memory_size(module) == pages * 65536);
        let page: usize = PAGE as usize;
        assert(page == 65536);
        let size: usize = page * (pages as usize);
        let new_memory: Vec<u8> = vec![0u8; size];
        assert(new_memory@ =~= Seq::new(memory_size(module) as nat, |i: int| 0u8));
        let globals = Evaluator::set_globals(&module);
        Self {
            module,
            globals,
            memory: LinearMemory { bytes: new_memory },
            stack: Vec::new(),
            pc: 0,
            calls: Vec::new(),
            blks_table,
            output: Vec::new(),
        }
    }

    /// The instruction at the program counter.
    pub fn next_opcode(&self) -> (r: Result<&OP, Fault>)
        ensures
            match r {
                Ok(op) => self.pc < self.module.code.len() && *op == self.module.code[self.pc as int],
                Err(f) => self.pc >= self.module.code.len() && f == Fault::PcOutOfRange,
            },
    {
        if self.pc < self.module.code.len() {
            Ok(&self.module.code[self.pc])
        } else {
            Err(Fault::PcOutOfRange)
        }
    }
}

} // verus!
