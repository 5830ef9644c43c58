//! What the execution engine does, as mathematics: the state of the
//! machine, the effect of each instruction on it, and the run to
//! completion.

use crate::interpret::ast::{BlockView, LabelView, ModView};
use crate::interpret::error::Fault;
use crate::interpret::op::OpView;
use vstd::prelude::*;

verus! {

/// One active function invocation: the function, its local slots
/// (parameters first) and the program counter to return to.
pub struct FrameView {
    pub fn_idx: usize,
    pub locals: Seq<i32>,
    pub ret: usize,
}

/// The state of the machine.
#[verifier::ext_equal]
pub struct EvalView {
    pub module: ModView,
    pub blks_table: Seq<Seq<BlockView>>,
    /// The current values of the globals, as distinct from their declarations.
    pub globals: Seq<i32>,
    pub memory: Seq<u8>,
    /// The value stack, top last.
    pub stack: Seq<i32>,
    pub pc: usize,
    /// The call frames, innermost last.
    pub calls: Seq<FrameView>,
    /// The values that the built-in `print` has emitted, oldest first.
    pub output: Seq<i32>,
}

/// The 32-bit signed integer that is congruent to `x` modulo 2^32: what
/// two's-complement arithmetic keeps of an exact result.
pub open spec fn wrap32(x: int) -> i32 {
    if x % 0x1_0000_0000 > i32::MAX {
        (x % 0x1_0000_0000 - 0x1_0000_0000) as i32
    } else {
        (x % 0x1_0000_0000) as i32
    }
}

/// The quotient of `x` by a non-zero `d`, rounded towards zero.
pub open spec fn trunc_div(x: int, d: int) -> int {
    if x >= 0 && d > 0 {
        x / d
    } else if x < 0 && d < 0 {
        (-x) / (-d)
    } else if x < 0 {
        -((-x) / d)
    } else {
        -(x / (-d))
    }
}

/// The remainder that goes with [`trunc_div`]: it has the sign of `x`, and
/// its magnitude is what is left of the magnitude of `x`.
pub open spec fn trunc_rem(x: int, d: int) -> int {
    let m = if d < 0 {
        -d
    } else {
        d
    };
    if x >= 0 {
        x % m
    } else {
        -((-x) % m)
    }
}

/// 1 for true, 0 for false.
pub open spec fn truth(b: bool) -> i32 {
    if b {
        1
    } else {
        0
    }
}

/// The four bytes of `v`, least significant first.
pub open spec fn le_bytes(v: i32) -> Seq<u8> {
    let u: int = if v >= 0 {
        v as int
    } else {
        v + 0x1_0000_0000
    };
    seq![
        (u % 256) as u8,
        (u / 256 % 256) as u8,
        (u / 65536 % 256) as u8,
        (u / 16777216) as u8,
    ]
}

/// The integer whose four bytes, least significant first, are `b`.
pub open spec fn le_value(b: Seq<u8>) -> i32
    recommends
        b.len() == 4,
{
    wrap32(b[0] + b[1] * 256 + b[2] * 65536 + b[3] * 16777216)
}

/// What an instruction with two operands makes of them.  Addition,
/// subtraction and multiplication wrap; comparisons give 1 or 0.
pub open spec fn binary(op: OpView, lhs: i32, rhs: i32) -> Result<i32, Fault> {
    match op {
        OpView::I32ADD => Ok(wrap32(lhs + rhs)),
        OpView::I32SUB => Ok(wrap32(lhs - rhs)),
        OpView::I32MUL => Ok(wrap32(lhs * rhs)),
        OpView::I32DIVS => if rhs == 0 {
            Err(Fault::DivisionByZero)
        } else if lhs == i32::MIN && rhs == -1 {
            Err(Fault::Overflow)
        } else {
            Ok(trunc_div(lhs as int, rhs as int) as i32)
        },
        OpView::I32REMU => if rhs == 0 {
            Err(Fault::DivisionByZero)
        } else if lhs == i32::MIN && rhs == -1 {
            Err(Fault::Overflow)
        } else {
            Ok(trunc_rem(lhs as int, rhs as int) as i32)
        },
        OpView::I32AND => Ok(truth(lhs != 0 && rhs != 0)),
        OpView::I32OR => Ok(truth(lhs != 0 || rhs != 0)),
        OpView::I32LTS => Ok(truth(lhs < rhs)),
        OpView::I32GTS => Ok(truth(lhs > rhs)),
        OpView::I32GES => Ok(truth(lhs >= rhs)),
        OpView::I32LES => Ok(truth(lhs <= rhs)),
        OpView::I32EQ => Ok(truth(lhs == rhs)),
        _ => Err(Fault::Unimplemented),
    }
}

impl EvalView {
    /// The same state with another value stack.
    pub open spec fn with_stack(self, stack: Seq<i32>) -> EvalView {
        EvalView { stack, ..self }
    }

    /// The state after two operands were replaced by the result of `op`.
    /// The right-hand operand is on top.  A division by zero is found when
    /// the divisor is popped, before the dividend is asked for.
    pub open spec fn apply_binary(self, op: OpView) -> Result<EvalView, Fault> {
        let n = self.stack.len() as int;
        if n == 0 {
            Err(Fault::StackUnderflow)
        } else if op is I32DIVS && self.stack[n - 1] == 0 {
            Err(Fault::DivisionByZero)
        } else if n == 1 {
            Err(Fault::StackUnderflow)
        } else {
            match binary(op, self.stack[n - 2], self.stack[n - 1]) {
                Ok(v) => Ok(self.with_stack(self.stack.take(n - 2).push(v))),
                Err(f) => Err(f),
            }
        }
    }

    /// The index of the global that `label` refers to, within the current
    /// values.
    pub open spec fn global_slot(self, label: LabelView) -> Result<usize, Fault> {
        match label {
            LabelView::REF(name) => if !self.module.globals_map.contains_key(name) {
                Err(Fault::UnknownGlobal)
            } else if self.module.globals_map[name] >= self.globals.len() {
                Err(Fault::GlobalOutOfRange)
            } else {
                Ok(self.module.globals_map[name])
            },
            LabelView::U32(idx) => if idx >= self.globals.len() {
                Err(Fault::GlobalOutOfRange)
            } else {
                Ok(idx)
            },
        }
    }

    /// Reading a global pushes its current value.
    pub open spec fn global_get(self, label: LabelView) -> Result<EvalView, Fault> {
        match self.global_slot(label) {
            Ok(idx) => Ok(self.with_stack(self.stack.push(self.globals[idx as int]))),
            Err(f) => Err(f),
        }
    }

    /// Writing a global pops the value and stores it as the current value.
    /// The global must be declared mutable.
    pub open spec fn global_set(self, label: LabelView) -> Result<EvalView, Fault> {
        if self.stack.len() == 0 {
            Err(Fault::StackUnderflow)
        } else {
            match self.global_slot(label) {
                Err(f) => Err(f),
                Ok(idx) => if idx >= self.module.globals.len() {
                    Err(Fault::GlobalOutOfRange)
                } else if !self.module.globals[idx as int].mutable {
                    Err(Fault::ImmutableGlobal)
                } else {
                    Ok(
                        EvalView {
                            globals: self.globals.update(idx as int, self.stack.last()),
                            stack: self.stack.drop_last(),
                            ..self
                        },
                    )
                },
            }
        }
    }

    /// Reading a local of the innermost frame pushes its value.
    pub open spec fn local_get(self, idx: usize) -> Result<EvalView, Fault> {
        if self.calls.len() == 0 {
            Err(Fault::NoFrame)
        } else if idx >= self.calls.last().locals.len() {
            Err(Fault::LocalOutOfRange)
        } else {
            Ok(self.with_stack(self.stack.push(self.calls.last().locals[idx as int])))
        }
    }

    /// Writing a local of the innermost frame stores the top of the stack
    /// in it; `keep` says whether the value stays on the stack.
    pub open spec fn local_set(self, idx: usize, keep: bool) -> Result<EvalView, Fault> {
        if self.stack.len() == 0 {
            Err(Fault::StackUnderflow)
        } else if self.calls.len() == 0 {
            Err(Fault::NoFrame)
        } else if idx >= self.calls.last().locals.len() {
            Err(Fault::LocalOutOfRange)
        } else {
            let frame = self.calls.last();
            let written = FrameView {
                locals: frame.locals.update(idx as int, self.stack.last()),
                ..frame
            };
            Ok(
                EvalView {
                    calls: self.calls.drop_last().push(written),
                    stack: if keep {
                        self.stack
                    } else {
                        self.stack.drop_last()
                    },
                    ..self
                },
            )
        }
    }

    /// A branch continues at the target of block `blk` of the function that
    /// the innermost frame belongs to.
    pub open spec fn branch(self, blk: usize) -> Result<EvalView, Fault> {
        if self.calls.len() == 0 {
            Err(Fault::NoFrame)
        } else {
            let f = self.calls.last().fn_idx as int;
            if f >= self.blks_table.len() || blk >= self.blks_table[f].len() {
                Err(Fault::BlockOutOfRange)
            } else {
                Ok(EvalView { pc: self.blks_table[f][blk as int].next_pc, ..self })
            }
        }
    }

    /// A conditional branch pops the condition and branches only if it is
    /// strictly positive.
    pub open spec fn branch_if(self, blk: usize) -> Result<EvalView, Fault> {
        if self.stack.len() == 0 {
            Err(Fault::StackUnderflow)
        } else if self.stack.last() <= 0 {
            Ok(self.with_stack(self.stack.drop_last()))
        } else {
            self.with_stack(self.stack.drop_last()).branch(blk)
        }
    }

    /// Function `fn_idx` is entered: its parameters are popped, the value
    /// pushed last landing in slot 0; its other locals are zero; a frame
    /// that remembers the current program counter is pushed; and the
    /// program counter moves to the function's code.
    pub open spec fn enter(self, fn_idx: usize) -> Result<EvalView, Fault> {
        if fn_idx >= self.module.funcs.len() {
            Err(Fault::FunctionOutOfRange)
        } else {
            let f = self.module.funcs[fn_idx as int];
            if self.stack.len() < f.args {
                Err(Fault::MissingArguments)
            } else {
                let frame = FrameView {
                    fn_idx,
                    locals: fresh_locals(self.stack, f.args as nat, f.locals as nat),
                    ret: self.pc,
                };
                Ok(
                    EvalView {
                        stack: self.stack.take(self.stack.len() - f.args),
                        calls: self.calls.push(frame),
                        pc: f.code_addr,
                        ..self
                    },
                )
            }
        }
    }

    /// The function that `label` refers to is entered.  An index is not
    /// looked up; a name is, in a module that has functions.
    pub open spec fn invoke(self, label: LabelView) -> Result<EvalView, Fault> {
        match label {
            LabelView::REF(name) => match self.module.fn_index(name) {
                Ok(idx) => self.enter(idx),
                Err(f) => Err(f),
            },
            LabelView::U32(idx) => self.enter(idx),
        }
    }

    /// A call instruction.  The name `print` with a value on the stack is
    /// the built-in: the value is popped and emitted, and no frame is
    /// pushed.  Every other call enters the function.
    pub open spec fn call_op(self, label: LabelView) -> Result<EvalView, Fault> {
        if label == LabelView::REF("print"@) && self.stack.len() > 0 {
            Ok(
                EvalView {
                    output: self.output.push(self.stack.last()),
                    stack: self.stack.drop_last(),
                    ..self
                },
            )
        } else {
            self.invoke(label)
        }
    }

    /// A return pops the innermost frame and continues where it says.
    pub open spec fn ret(self) -> Result<EvalView, Fault> {
        if self.calls.len() == 0 {
            Err(Fault::NoFrame)
        } else {
            Ok(EvalView { pc: self.calls.last().ret, calls: self.calls.drop_last(), ..self })
        }
    }

    /// A load pops a byte offset and pushes the integer whose four bytes
    /// stand there, least significant first.
    pub open spec fn load(self) -> Result<EvalView, Fault> {
        if self.stack.len() == 0 {
            Err(Fault::StackUnderflow)
        } else {
            let offset = self.stack.last() as int;
            if offset < 0 || offset + 4 > self.memory.len() {
                Err(Fault::MemoryOutOfBounds)
            } else {
                Ok(
                    self.with_stack(
                        self.stack.drop_last().push(
                            le_value(self.memory.subrange(offset, offset + 4)),
                        ),
                    ),
                )
            }
        }
    }

    /// A store pops a value, then a byte offset, and writes the four bytes
    /// of the value there, least significant first.
    pub open spec fn store(self) -> Result<EvalView, Fault> {
        let n = self.stack.len() as int;
        if n < 2 {
            Err(Fault::StackUnderflow)
        } else {
            let offset = self.stack[n - 2] as int;
            if offset < 0 || offset + 4 > self.memory.len() {
                Err(Fault::MemoryOutOfBounds)
            } else {
                Ok(
                    EvalView {
                        memory: self.memory.take(offset) + le_bytes(self.stack[n - 1])
                            + self.memory.skip(offset + 4),
                        stack: self.stack.take(n - 2),
                        ..self
                    },
                )
            }
        }
    }

    /// The effect of one instruction on the state, the program counter
    /// standing behind the instruction already.
    pub open spec fn execute(self, op: OpView) -> Result<EvalView, Fault> {
        match op {
            OpView::I32CONST(n) => Ok(self.with_stack(self.stack.push(n))),
            OpView::I32EQZ => if self.stack.len() == 0 {
                Err(Fault::StackUnderflow)
            } else {
                Ok(self.with_stack(self.stack.drop_last().push(truth(self.stack.last() == 0))))
            },
            OpView::LOCGET(idx) => self.local_get(idx),
            OpView::LOCSET(idx) => self.local_set(idx, false),
            OpView::LOCTEE(idx) => self.local_set(idx, true),
            OpView::GLOGET(label) => self.global_get(label),
            OpView::GLOSET(label) => self.global_set(label),
            OpView::BLK(_) | OpView::LOOP(_) | OpView::END => Ok(self),
            OpView::BR(blk) => self.branch(blk),
            OpView::BRIF(blk) => self.branch_if(blk),
            OpView::CALL(label) => self.call_op(label),
            OpView::RET => self.ret(),
            OpView::DROP => if self.stack.len() == 0 {
                Ok(self)
            } else {
                Ok(self.with_stack(self.stack.drop_last()))
            },
            OpView::I32LOAD => self.load(),
            OpView::I32STORE => self.store(),
            OpView::I32NE | OpView::I32XOR | OpView::NOP => Err(Fault::Unimplemented),
            _ => self.apply_binary(op),
        }
    }

    /// One step: the instruction at the program counter is fetched, the
    /// counter moves behind it, and the instruction takes effect.
    pub open spec fn step(self) -> Result<EvalView, Fault> {
        if self.pc >= self.module.code.len() {
            Err(Fault::PcOutOfRange)
        } else {
            (EvalView { pc: (self.pc + 1) as usize, ..self }).execute(
                self.module.code[self.pc as int],
            )
        }
    }

    /// The state in which a run ends: steps are taken until no call frame
    /// is left.  A run that needs more than `budget` steps ends with
    /// [`Fault::StepLimit`].
    pub open spec fn run(self, budget: nat) -> Result<EvalView, Fault>
        decreases budget,
    {
        if self.calls.len() == 0 {
            Ok(self)
        } else if budget == 0 {
            Err(Fault::StepLimit)
        } else {
            match self.step() {
                Ok(next) => next.run((budget - 1) as nat),
                Err(f) => Err(f),
            }
        }
    }

    /// What a finished run yields: the top of the stack, which it takes
    /// off, or nothing if the stack is empty.
    pub open spec fn result(self) -> (EvalView, Option<i32>) {
        if self.stack.len() == 0 {
            (self, None)
        } else {
            (self.with_stack(self.stack.drop_last()), Some(self.stack.last()))
        }
    }
}

/// The local slots of a function on entry: slot `i` of the `args`
/// parameters holds the value `i` places below the top of the stack; the
/// `locals` slots behind them hold 0.
pub open spec fn fresh_locals(stack: Seq<i32>, args: nat, locals: nat) -> Seq<i32> {
    Seq::new(
        args + locals,
        |i: int|
            if i < args {
                stack[stack.len() - 1 - i]
            } else {
                0i32
            },
    )
}

} // verus!
