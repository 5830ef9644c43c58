//! The typed errors of the tokenizer, the compiler and the engine.

use vstd::prelude::*;

verus! {

/// Why a source text could not be turned into tokens.
#[derive(Debug, Clone, Copy, PartialEq, Eq)]
pub enum LexError {
    /// No token or comment starts with the character at `at`.
    UnexpectedChar { at: usize },
    /// The token or comment that starts at `at` is not complete.
    Unterminated { at: usize },
    /// The integer literal that starts at `at` does not fit 32 bits.
    IntegerOutOfRange { at: usize },
}

/// Why a source text could not be compiled.  Compilation stops at the first
/// defect, so a value of this type describes that defect alone: what was
/// expected, and `at`, the position in the token sequence of the token that
/// is not what was expected.  Where the tokens end too early, `at` is their
/// number.
#[derive(Debug, Clone, Copy, PartialEq, Eq)]
pub enum CompileError {
    /// The source text is not a sequence of tokens.
    Lex(LexError),
    /// An opening parenthesis was expected.
    ExpectedLParen { at: usize },
    /// A closing parenthesis was expected.
    ExpectedRParen { at: usize },
    /// A parenthesis was expected: one that opens a declaration, or the one
    /// that closes the module.
    ExpectedParen { at: usize },
    /// The text does not open with the keyword `module`.
    ExpectedModule { at: usize },
    /// A top-level form is not one of `memory`, `global`, `export`, `func`.
    UnknownDeclaration { at: usize },
    /// Tokens follow the parenthesis that closes the module.
    TrailingTokens { at: usize },
    /// A type annotation is missing or names another type than `i32`.
    InvalidType { at: usize },
    /// An integer literal was expected.
    ExpectedInteger { at: usize },
    /// A name or an index was expected as an operand.
    ExpectedReference { at: usize },
    /// The quoted name of an export was expected.
    ExpectedExportName { at: usize },
    /// An export names another kind than `func`, `global`, `memory`.
    UnknownExportKind { at: usize },
    /// A global lacks its `(i32.const n)` initial value.
    ExpectedInitialValue { at: usize },
    /// An instruction keyword that the compiler does not know.
    UnknownInstruction { at: usize },
    /// A local variable is named that the function does not declare.
    UnknownLocal { at: usize },
    /// A branch names no open block, by name or by depth.
    UnknownBlock { at: usize },
    /// An `end` closes a block that was never opened.
    UnmatchedEnd { at: usize },
    /// The clause at `at` declares one parameter or local more than a count
    /// holds.
    TooManyLocals { at: usize },
    /// The parser holds no block list for the function being compiled, or
    /// an open block that the list does not have.
    MissingBlockList { at: usize },
    /// The bytecode is too long for a branch target to be a position in it.
    CodeTooLong { at: usize },
}

/// Why the engine stopped before the outermost call returned.
#[derive(Debug, Clone, Copy, PartialEq, Eq)]
pub enum Fault {
    /// An operand was popped from an empty value stack.
    StackUnderflow,
    /// Division or remainder with a zero right-hand operand.
    DivisionByZero,
    /// Division or remainder of the least integer by minus one.
    Overflow,
    /// A local slot outside the current frame.
    LocalOutOfRange,
    /// A global index outside the module's globals.
    GlobalOutOfRange,
    /// A global name that the module does not define.
    UnknownGlobal,
    /// A write to a global that is not declared mutable.
    ImmutableGlobal,
    /// A call into a module without functions.
    NoFunctions,
    /// A function name that the module does not define.
    UnknownFunction,
    /// A function index outside the module's functions.
    FunctionOutOfRange,
    /// A call with fewer values on the stack than the function has parameters.
    MissingArguments,
    /// A memory access outside the linear memory.
    MemoryOutOfBounds,
    /// A branch to a block that the current function does not have.
    BlockOutOfRange,
    /// An instruction that needs a call frame ran without one.
    NoFrame,
    /// The program counter is outside the bytecode array.
    PcOutOfRange,
    /// An instruction that the engine does not implement.
    Unimplemented,
    /// The run did not finish within its budget of steps.
    StepLimit,
}

} // verus!
