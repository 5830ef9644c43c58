//! The execution engine: a stack machine over the flat bytecode array.

use crate::interpret::ast::{blocks_view, Label, LabelView};
use crate::interpret::error::Fault;
use crate::interpret::op::OP;
use crate::interpret::runtime::{set_fn_variables, Evaluator, FnFrame};
use crate::interpret::semantics::{binary, truth, wrap32, EvalView};
use crate::interpret::text::str_eq;
use vstd::prelude::*;

verus! {

/// Whether a step did what `expected` asks for: it failed with the expected
/// fault, or it succeeded and left the engine in the expected state.
/// Nothing is said of the state in which a fault leaves the engine.
pub open spec fn stepped(r: Result<(), Fault>, after: EvalView, expected: Result<EvalView, Fault>) -> bool {
    match expected {
        Ok(s) => r is Ok && after == s,
        Err(f) => r == Err::<(), Fault>(f),
    }
}

/// 1 for true, 0 for false.
pub fn truth_value(b: bool) -> (r: i32)
    ensures
        r == truth(b),
{
    if b {
        1
    } else {
        0
    }
}

/// The magnitude of an integer.
spec fn magnitude(x: int) -> int {
    if x < 0 {
        -x
    } else {
        x
    }
}

/// A quotient of natural numbers is at most the dividend, and at most half
/// of it where the divisor is 2 or more.
proof fn lemma_quotient_bounds(x: int, d: int)
    by (nonlinear_arith)
    requires
        x >= 0,
        d > 0,
    ensures
        0 <= x / d <= x,
        d >= 2 ==> 2 * (x / d) <= x,
{
}

/// What the instruction `op`, one with two operands, makes of them.
#[verifier::rlimit(50)]
pub fn compute(op: &OP, lhs: i32, rhs: i32) -> (r: Result<i32, Fault>)
    ensures
        r == binary(op@, lhs, rhs),
{
    match op {
        OP::I32ADD => {
            let v = lhs.wrapping_add(rhs);
            assert(v == wrap32(lhs + rhs));
            Ok(v)
        },
        OP::I32SUB => {
            let v = lhs.wrapping_sub(rhs);
            assert(v == wrap32(lhs - rhs));
            Ok(v)
        },
        OP::I32MUL => {
            let v = lhs.wrapping_mul(rhs);
            assert(v == wrap32(lhs * rhs));
            Ok(v)
        },
        OP::I32DIVS => {
            if rhs == 0 {
                Err(Fault::DivisionByZero)
            } else {
                proof {
                    lemma_quotient_bounds(magnitude(lhs as int), magnitude(rhs as int));
                }
                match lhs.checked_div(rhs) {
                    Some(v) => Ok(v),
                    None => Err(Fault::Overflow),
                }
            }
        },
        OP::I32REMU => {
            if rhs == 0 {
                Err(Fault::DivisionByZero)
            } else {
                match lhs.checked_rem(rhs) {
                    Some(v) => Ok(v),
                    None => Err(Fault::Overflow),
                }
            }
        },
        OP::I32AND => Ok(truth_value(lhs != 0 && rhs != 0)),
        OP::I32OR => Ok(truth_value(lhs != 0 || rhs != 0)),
        OP::I32LTS => Ok(truth_value(lhs < rhs)),
        OP::I32GTS => Ok(truth_value(lhs > rhs)),
        OP::I32GES => Ok(truth_value(lhs >= rhs)),
        OP::I32LES => Ok(truth_value(lhs <= rhs)),
        OP::I32EQ => Ok(truth_value(lhs == rhs)),
        _ => Err(Fault::Unimplemented),
    }
}

impl Evaluator {
    /// Replaces the two operands on top of the stack by the result of `op`.
    fn apply_binary(&mut self, op: &OP) -> (r: Result<(), Fault>)
        ensures
            stepped(r, final(self)@, old(self)@.apply_binary(op@)),
    {
        let rhs = match self.stack.pop() {
            Some(v) => v,
            None => {
                return Err(Fault::StackUnderflow);
            },
        };
        match op {
            OP::I32DIVS => {
                if rhs == 0 {
                    return Err(Fault::DivisionByZero);
                }
            },
            _ => {},
        }
        let lhs = match self.stack.pop() {
            Some(v) => v,
            None => {
                return Err(Fault::StackUnderflow);
            },
        };
        match compute(op, lhs, rhs) {
            Ok(v) => {
                self.stack.push(v);
                assert(self@ =~~= old(self)@.apply_binary(op@)->Ok_0);
                Ok(())
            },
            Err(f) => Err(f),
        }
    }

    /// The index of the global that `label` refers to.
    fn global_slot(&self, label: &Label) -> (r: Result<usize, Fault>)
        ensures
            r == self@.global_slot(label@),
    {
        let idx = match label {
            Label::REF(id) => match self.module.globals_map.get(id.as_str()) {
                Some(idx) => *idx,
                None => {
                    return Err(Fault::UnknownGlobal);
                },
            },
            Label::U32(idx) => *idx,
        };
        if idx >= self.globals.len() {
            Err(Fault::GlobalOutOfRange)
        } else {
            Ok(idx)
        }
    }

    /// Pushes the current value of a global.
    fn global_get(&mut self, label: &Label) -> (r: Result<(), Fault>)
        ensures
            stepped(r, final(self)@, old(self)@.global_get(label@)),
    {
        match self.global_slot(label) {
            Ok(idx) => {
                self.stack.push(self.globals[idx]);
                assert(self@ =~~= old(self)@.global_get(label@)->Ok_0);
                Ok(())
            },
            Err(f) => Err(f),
        }
    }

    /// Pops a value and makes it the current value of a global.
    fn global_set(&mut self, label: &Label) -> (r: Result<(), Fault>)
        ensures
            stepped(r, final(self)@, old(self)@.global_set(label@)),
    {
        let n = match self.stack.pop() {
            Some(n) => n,
            None => {
                return Err(Fault::StackUnderflow);
            },
        };
        let ghost popped = self@;
        assert(popped.global_slot(label@) == old(self)@.global_slot(label@));
        match self.global_slot(label) {
            Ok(idx) => {
                if idx >= self.module.globals.len() {
                    return Err(Fault::GlobalOutOfRange);
                }
                if !self.module.globals[idx].mutable {
                    return Err(Fault::ImmutableGlobal);
                }
                self.globals[idx] = n;
                assert(self@ =~~= old(self)@.global_set(label@)->Ok_0);
                Ok(())
            },
            Err(f) => Err(f),
        }
    }

    /// Pushes the value of a local of the innermost frame.
    fn local_get(&mut self, idx: usize) -> (r: Result<(), Fault>)
        ensures
            stepped(r, final(self)@, old(self)@.local_get(idx)),
    {
        if self.calls.len() == 0 {
            return Err(Fault::NoFrame);
        }
        let frame = &self.calls[self.calls.len() - 1];
        assert(frame@ == self@.calls.last());
        if idx >= frame.locals.len() {
            return Err(Fault::LocalOutOfRange);
        }
        let n: i32 = frame.locals[idx];
        self.stack.push(n);
        assert(self@ =~~= old(self)@.local_get(idx)->Ok_0);
        Ok(())
    }

    /// Stores the top of the stack in a local of the innermost frame, and
    /// takes it off the stack unless `keep` is set.
    fn local_set(&mut self, idx: usize, keep: bool) -> (r: Result<(), Fault>)
        ensures
            stepped(r, final(self)@, old(self)@.local_set(idx, keep)),
    {
        let n = match self.stack.pop() {
            Some(n) => n,
            None => {
                return Err(Fault::StackUnderflow);
            },
        };
        if keep {
            self.stack.push(n);
            assert(self.stack@ =~= old(self).stack@);
        }
        if self.calls.len() == 0 {
            return Err(Fault::NoFrame);
        }
        let this_fn_idx = self.calls.len() - 1;
        assert(self.calls@[this_fn_idx as int]@ == old(self)@.calls.last());
        if idx >= self.calls[this_fn_idx].locals.len() {
            return Err(Fault::LocalOutOfRange);
        }
        self.calls[this_fn_idx].locals[idx] = n;
        assert(self@ =~~= old(self)@.local_set(idx, keep)->Ok_0);
        Ok(())
    }

    /// Continues at the target of a block of the current function.
    fn branch(&mut self, blk_idx: usize) -> (r: Result<(), Fault>)
        ensures
            stepped(r, final(self)@, old(self)@.branch(blk_idx)),
    {
        if self.calls.len() == 0 {
            return Err(Fault::NoFrame);
        }
        let fn_idx = self.calls[self.calls.len() - 1].fn_idx;
        assert(fn_idx == self@.calls.last().fn_idx);
        if fn_idx >= self.blks_table.len() {
            return Err(Fault::BlockOutOfRange);
        }
        assert(self@.blks_table[fn_idx as int] == blocks_view(self.blks_table@[fn_idx as int]@));
        if blk_idx >= self.blks_table[fn_idx].len() {
            return Err(Fault::BlockOutOfRange);
        }
        self.pc = self.blks_table[fn_idx][blk_idx].next_pc;
        assert(self@ =~~= old(self)@.branch(blk_idx)->Ok_0);
        Ok(())
    }

    /// Enters function `fn_idx`.
    fn enter(&mut self, fn_idx: usize) -> (r: Result<(), Fault>)
        ensures
            stepped(r, final(self)@, old(self)@.enter(fn_idx)),
    {
        if fn_idx >= self.module.funcs.len() {
            return Err(Fault::FunctionOutOfRange);
        }
        let new_fn = &self.module.funcs[fn_idx];
        assert(new_fn@ == self@.module.funcs[fn_idx as int]);
        let new_locals = match set_fn_variables(new_fn, &mut self.stack) {
            Ok(vars) => vars,
            Err(f) => {
                return Err(f);
            },
        };
        let new_fn_frame = FnFrame::new(fn_idx, new_locals, self.pc);
        self.pc = new_fn.code_addr;
        self.calls.push(new_fn_frame);
        assert(self@ =~~= old(self)@.enter(fn_idx)->Ok_0);
        Ok(())
    }

    /// Enters the function that `label` refers to.
    fn invoke(&mut self, label: &Label) -> (r: Result<(), Fault>)
        ensures
            stepped(r, final(self)@, old(self)@.invoke(label@)),
    {
        match label {
            Label::REF(name) => match self.module.get_fn_idx(name.as_str()) {
                Ok(idx) => self.enter(idx),
                Err(f) => Err(f),
            },
            Label::U32(idx) => self.enter(*idx),
        }
    }

    /// Runs until no call frame is left, for `budget` steps at most, and
    /// yields the value on top of the stack, if there is one.
    #[verifier::loop_isolation(false)]
    pub fn run_steps(&mut self, budget: u64) -> (r: Result<Option<i32>, Fault>)
        ensures
            match old(self)@.run(budget as nat) {
                Ok(s) => r == Ok::<Option<i32>, Fault>(s.result().1) && final(self)@ == s.result().0,
                Err(f) => r == Err::<Option<i32>, Fault>(f),
            },
    {
        let mut left = budget;
        while self.calls.len() != 0
            invariant
                old(self)@.run(budget as nat) == self@.run(left as nat),
            decreases left,
        {
            if left == 0 {
                return Err(Fault::StepLimit);
            }
            match self.step() {
                Ok(()) => {},
                Err(f) => {
                    return Err(f);
                },
            }
            left -= 1;
        }
        let ghost end = self@;
        let result = self.stack.pop();
        assert(self@ =~~= end.result().0);
        Ok(result)
    }

    /// Runs until the outermost call has returned, and yields the value on
    /// top of the stack, if there is one.  The run gives up after
    /// `u64::MAX` steps.
    pub fn run(&mut self) -> (r: Result<Option<i32>, Fault>)
        ensures
            match old(self)@.run(u64::MAX as nat) {
                Ok(s) => r == Ok::<Option<i32>, Fault>(s.result().1) && final(self)@ == s.result().0,
                Err(f) => r == Err::<Option<i32>, Fault>(f),
            },
    {
        self.run_steps(u64::MAX)
    }

    /// Fetches the instruction at the program counter, moves the counter
    /// behind it, and executes the instruction.
    pub fn step(&mut self) -> (r: Result<(), Fault>)
        ensures
            stepped(r, final(self)@, old(self)@.step()),
    {
        let next_op = match self.next_opcode() {
            Ok(op) => op.clone(),
            Err(f) => {
                return Err(f);
            },
        };
        assert(next_op@ == self@.module.code[self.pc as int]);
        self.pc += 1;
        self.evaluate_bytecode(next_op)
    }

    /// Executes one instruction.
    pub fn evaluate_bytecode(&mut self, opcode: OP) -> (r: Result<(), Fault>)
        ensures
            stepped(r, final(self)@, old(self)@.execute(opcode@)),
    {
        match opcode {
            OP::I32CONST(n) => {
                self.stack.push(n);
                assert(self@ =~~= old(self)@.execute(opcode@)->Ok_0);
                Ok(())
            },
            OP::I32EQZ => {
                match self.stack.pop() {
                    Some(n) => {
                        self.stack.push(truth_value(n == 0));
                        assert(self@ =~~= old(self)@.execute(opcode@)->Ok_0);
                        Ok(())
                    },
                    None => Err(Fault::StackUnderflow),
                }
            },
            OP::LOCGET(idx) => self.local_get(idx),
            OP::LOCSET(idx) => self.local_set(idx, false),
            OP::LOCTEE(idx) => self.local_set(idx, true),
            OP::GLOGET(label) => self.global_get(&label),
            OP::GLOSET(label) => self.global_set(&label),
            OP::BLK(_) => Ok(()),
            OP::LOOP(_) => Ok(()),
            OP::END => Ok(()),
            OP::BR(blk_idx) => self.branch(blk_idx),
            OP::BRIF(blk_idx) => {
                match self.stack.pop() {
                    Some(condition) => {
                        if condition <= 0 {
                            assert(self@ =~~= old(self)@.execute(opcode@)->Ok_0);
                            return Ok(());
                        }
                        assert(self@ =~~= old(self)@.with_stack(old(self)@.stack.drop_last()));
                        self.branch(blk_idx)
                    },
                    None => Err(Fault::StackUnderflow),
                }
            },
            OP::CALL(fn_label) => {
                let builtin = match &fn_label {
                    Label::REF(id) => str_eq(id.as_str(), "print"),
                    Label::U32(_) => false,
                };
                assert(builtin == (fn_label@ == LabelView::REF("print"@)));
                if builtin && self.stack.len() > 0 {
                    match self.stack.pop() {
                        Some(val) => {
                            self.output.push(val);
                        },
                        None => {},
                    }
                    assert(self@ =~~= old(self)@.execute(opcode@)->Ok_0);
                    Ok(())
                } else {
                    self.invoke(&fn_label)
                }
            },
            OP::RET => {
                match self.calls.pop() {
                    Some(this_fn_frame) => {
                        self.pc = this_fn_frame.ret;
                        assert(self@ =~~= old(self)@.execute(opcode@)->Ok_0);
                        Ok(())
                    },
                    None => Err(Fault::NoFrame),
                }
            },
            OP::DROP => {
                let _ = self.stack.pop();
                assert(self@ =~~= old(self)@.execute(opcode@)->Ok_0);
                Ok(())
            },
            OP::I32LOAD => {
                match self.stack.pop() {
                    Some(offset) => {
                        if offset < 0 || self.memory.bytes.len() < 4 || offset as usize
                            > self.memory.bytes.len() - 4 {
                            return Err(Fault::MemoryOutOfBounds);
                        }
                        let n = self.memory.load(offset as usize);
                        self.stack.push(n);
                        assert(self@ =~~= old(self)@.execute(opcode@)->Ok_0);
                        Ok(())
                    },
                    None => Err(Fault::StackUnderflow),
                }
            },
            OP::I32STORE => {
                if self.stack.len() < 2 {
                    return Err(Fault::StackUnderflow);
                }
                let val = self.stack.pop().unwrap();
                let offset = self.stack.pop().unwrap();
                if offset < 0 || self.memory.bytes.len() < 4 || offset as usize
                    > self.memory.bytes.len() - 4 {
                    return Err(Fault::MemoryOutOfBounds);
                }
                self.memory.store(offset as usize, val);
                assert(self@ =~~= old(self)@.execute(opcode@)->Ok_0);
                Ok(())
            },
            OP::I32NE => Err(Fault::Unimplemented),
            OP::I32XOR => Err(Fault::Unimplemented),
            OP::NOP => Err(Fault::Unimplemented),
            _ => self.apply_binary(&opcode),
        }
    }

    /// Invokes the function that `label` refers to: its parameters are
    /// taken from the value stack, and the engine is left at the start of
    /// its code, ready to run.
    pub fn call(&mut self, label: &Label) -> (r: Result<(), Fault>)
        ensures
            stepped(r, final(self)@, old(self)@.invoke(label@)),
    {
        self.invoke(label)
    }
}

} // verus!
