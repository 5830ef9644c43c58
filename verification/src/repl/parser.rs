//! The commands of the shell, and what the engine answers to each.
//!
//! A command addresses an export of the module: it calls a function with
//! integer arguments, reads a global, or reads the memory.

use crate::interpret::ast::{ExportType, Label, LabelView};
use crate::interpret::error::{Fault, LexError};
use crate::interpret::runtime::{listing, Evaluator};
use crate::interpret::semantics::EvalView;
use crate::repl::lexer::{get_tokens, scan, Scan, Token, TokenView};
use vstd::prelude::*;

verus! {

/// A command of the shell.
#[derive(Debug, PartialEq)]
pub enum Command {
    /// Call the function export of this name with these arguments.
    Call(String, Vec<i32>),
    /// Read the global export of this name.
    GetGlobal(String),
    /// Read the memory export of this name.
    GetMemory(String),
}

/// The mathematical value of a [`Command`].
pub enum CommandView {
    Call(Seq<char>, Seq<i32>),
    GetGlobal(Seq<char>),
    GetMemory(Seq<char>),
}

impl View for Command {
    type V = CommandView;

    open spec fn view(&self) -> CommandView {
        match *self {
            Command::Call(name, args) => CommandView::Call(name@, args@),
            Command::GetGlobal(name) => CommandView::GetGlobal(name@),
            Command::GetMemory(name) => CommandView::GetMemory(name@),
        }
    }
}

/// What the engine answers to a command.
#[derive(Debug, PartialEq)]
pub enum Reply {
    /// The function ran to its end and left this value, or none.
    Returned(Option<i32>),
    /// The current value of the global.
    Global(i32),
    /// The memory as integers: see [`crate::interpret::runtime::LinearMemory::pretty_print_as_integers`].
    Memory(Vec<(usize, i32)>),
}

/// The mathematical value of a [`Reply`].
pub enum ReplyView {
    Returned(Option<i32>),
    Global(i32),
    Memory(Seq<(usize, i32)>),
}

impl View for Reply {
    type V = ReplyView;

    open spec fn view(&self) -> ReplyView {
        match *self {
            Reply::Returned(v) => ReplyView::Returned(v),
            Reply::Global(v) => ReplyView::Global(v),
            Reply::Memory(lines) => ReplyView::Memory(lines@),
        }
    }
}

/// Why a command was not answered.
#[derive(Debug, Clone, Copy, PartialEq)]
pub enum CommandError {
    /// The line does not open with the address of an export.
    NoSuchCommand,
    /// An integer on the line does not fit 32 bits.
    IntegerOutOfRange,
    /// An integer was expected.
    ExpectedInteger,
    /// A keyword was expected.
    ExpectedKeyword,
    /// The module exports nothing under the name.
    NoSuchExport,
    /// The export is of this kind, which is not the kind that the command
    /// addresses.
    WrongKind(ExportType),
    /// The engine stopped with a fault.
    Faulted(Fault),
    /// The memory is not a whole number of words long.
    RaggedMemory,
}

/// The integers that stand one behind the other in `tokens` from position
/// `from` on.
pub open spec fn integer_run(tokens: Seq<TokenView>, from: int) -> Seq<i32>
    decreases tokens.len() - from,
{
    if 0 <= from < tokens.len() && tokens[from] is Integer {
        seq![tokens[from]->Integer_0] + integer_run(tokens, from + 1)
    } else {
        Seq::empty()
    }
}

/// The command that a line gives.  The first token must address an export.
/// The arguments of a call are the integers that follow the token behind
/// the address, which is the opening parenthesis and is not looked at.
/// What follows a defect of the line is not read; an integer that is too
/// large is no argument, and the line is refused.
pub open spec fn command_of(line: Scan) -> Result<CommandView, CommandError> {
    if line.defect matches Some(LexError::IntegerOutOfRange { .. }) {
        Err(CommandError::IntegerOutOfRange)
    } else if line.tokens.len() == 0 {
        Err(CommandError::NoSuchCommand)
    } else {
        match line.tokens[0] {
            TokenView::Function(name) => Ok(
                CommandView::Call(name, integer_run(line.tokens, 2)),
            ),
            TokenView::GetGlobal(name) => Ok(CommandView::GetGlobal(name)),
            TokenView::GetMemory(name) => Ok(CommandView::GetMemory(name)),
            _ => Err(CommandError::NoSuchCommand),
        }
    }
}

/// The export called `name`, which must be of kind `kind`.
pub open spec fn export_of(s: EvalView, name: Seq<char>, kind: ExportType) -> Result<
    LabelView,
    CommandError,
> {
    if !s.module.exports.contains_key(name) {
        Err(CommandError::NoSuchExport)
    } else if s.module.exports[name].export_type != kind {
        Err(CommandError::WrongKind(s.module.exports[name].export_type))
    } else {
        Ok(s.module.exports[name].export_ref)
    }
}

/// The state in which the engine answers a command and the answer it
/// gives, or why it gives none.
///
/// - A call pushes the arguments, the first of them first, invokes the
///   function and runs it to its end.
/// - A read of a global yields its current value.
/// - A read of the memory yields its listing.
pub open spec fn answer(s: EvalView, cmd: CommandView) -> Result<(EvalView, ReplyView), CommandError> {
    match cmd {
        CommandView::Call(name, args) => match export_of(s, name, ExportType::FUNCTION) {
            Err(e) => Err(e),
            Ok(label) => match s.with_stack(s.stack + args).invoke(label) {
                Err(f) => Err(CommandError::Faulted(f)),
                Ok(entered) => match entered.run(u64::MAX as nat) {
                    Err(f) => Err(CommandError::Faulted(f)),
                    Ok(done) => Ok((done.result().0, ReplyView::Returned(done.result().1))),
                },
            },
        },
        CommandView::GetGlobal(name) => match export_of(s, name, ExportType::GLOBAL) {
            Err(e) => Err(e),
            Ok(label) => match s.module.global_index(label) {
                Err(f) => Err(CommandError::Faulted(f)),
                Ok(idx) => if idx >= s.globals.len() {
                    Err(CommandError::Faulted(Fault::GlobalOutOfRange))
                } else {
                    Ok((s, ReplyView::Global(s.globals[idx as int])))
                },
            },
        },
        CommandView::GetMemory(name) => match export_of(s, name, ExportType::MEMORY) {
            Err(e) => Err(e),
            Ok(_) => if s.memory.len() % 4 != 0 {
                Err(CommandError::RaggedMemory)
            } else {
                Ok((s, ReplyView::Memory(listing(s.memory, s.memory.len() as int / 4))))
            },
        },
    }
}

/// Whether a command was answered as `expected` asks for: with the expected
/// error, or with the expected reply and the engine in the expected state.
/// A command that is refused leaves the engine in the state `before`;
/// nothing is said of the state in which a fault leaves it.
pub open spec fn answered(
    r: Result<Reply, CommandError>,
    before: EvalView,
    after: EvalView,
    expected: Result<(EvalView, ReplyView), CommandError>,
) -> bool {
    match expected {
        Ok((s, reply)) => r matches Ok(given) && given@ == reply && after == s,
        Err(e) => r == Err::<Reply, CommandError>(e) && (e is Faulted || after == before),
    }
}

/// The integer arguments of a call: the integers that follow the token
/// behind the address of the function.
#[verifier::loop_isolation(false)]
pub fn parse_function(tokens: &Vec<Token>) -> (args: Vec<i32>)
    ensures
        args@ == integer_run(crate::repl::lexer::tokens_view(tokens@), 2),
{
    let ghost views = crate::repl::lexer::tokens_view(tokens@);
    let mut args: Vec<i32> = Vec::new();
    let mut at: usize = 2;
    assert(args@ + integer_run(views, 2) == integer_run(views, 2));
    while at < tokens.len()
        invariant
            2 <= at,
            args@ + integer_run(views, at as int) == integer_run(views, 2),
        decreases tokens.len() - at,
    {
        assert(views[at as int] == tokens@[at as int]@);
        match &tokens[at] {
            Token::Integer(n) => {
                assert(args@.push(*n) + integer_run(views, at + 1) == args@ + integer_run(
                    views,
                    at as int,
                ));
                args.push(*n);
            },
            _ => {
                assert(args@ + Seq::<i32>::empty() == args@);
                return args;
            },
        }
        at += 1;
    }
    assert(args@ + Seq::<i32>::empty() == args@);
    args
}

/// The value that a command gives a global: the integer behind the token
/// at `at`, which is the opening parenthesis and is not looked at.
pub fn parse_set_global(tokens: &Vec<Token>, at: usize) -> (r: Result<i32, CommandError>)
    ensures
        r == (if at + 1 < tokens.len() && tokens@[at + 1]@ is Integer {
            Ok::<i32, CommandError>(tokens@[at + 1]@->Integer_0)
        } else {
            Err::<i32, CommandError>(CommandError::ExpectedInteger)
        }),
{
    if at < tokens.len() && tokens.len() - at > 1 {
        match &tokens[at + 1] {
            Token::Integer(n) => Ok(*n),
            _ => Err(CommandError::ExpectedInteger),
        }
    } else {
        Err(CommandError::ExpectedInteger)
    }
}

/// The name of the global that a command reads: the keyword behind the
/// token at `at`, which is the opening parenthesis and is not looked at.
pub fn parse_get_global(tokens: &Vec<Token>, at: usize) -> (r: Result<String, CommandError>)
    ensures
        match r {
            Ok(name) => at + 1 < tokens.len() && tokens@[at + 1]@ == TokenView::Keyword(name@),
            Err(e) => e == CommandError::ExpectedKeyword && !(at + 1 < tokens.len() && tokens@[at
                + 1]@ is Keyword),
        },
{
    if at < tokens.len() && tokens.len() - at > 1 {
        match &tokens[at + 1] {
            Token::Keyword(kwd) => Ok(kwd.clone()),
            _ => Err(CommandError::ExpectedKeyword),
        }
    } else {
        Err(CommandError::ExpectedKeyword)
    }
}

/// The command that `line` gives.
pub fn read_command(line: &str) -> (r: Result<Command, CommandError>)
    ensures
        match command_of(scan(line@)) {
            Ok(cmd) => r matches Ok(c) && c@ == cmd,
            Err(e) => r == Err::<Command, CommandError>(e),
        },
{
    let (tokens, defect) = get_tokens(line);
    match defect {
        Some(LexError::IntegerOutOfRange { at }) => {
            return Err(CommandError::IntegerOutOfRange);
        },
        _ => {},
    }
    if tokens.len() == 0 {
        return Err(CommandError::NoSuchCommand);
    }
    assert(crate::repl::lexer::tokens_view(tokens@)[0] == tokens@[0]@);
    match &tokens[0] {
        Token::Function(name) => Ok(Command::Call(name.clone(), parse_function(&tokens))),
        Token::GetGlobal(name) => Ok(Command::GetGlobal(name.clone())),
        Token::GetMemory(name) => Ok(Command::GetMemory(name.clone())),
        _ => Err(CommandError::NoSuchCommand),
    }
}

/// The export called `name`, which must be of kind `kind`.
pub fn find_export(evaluator: &Evaluator, name: &str, kind: ExportType) -> (r: Result<
    Label,
    CommandError,
>)
    ensures
        match export_of(evaluator@, name@, kind) {
            Ok(label) => r matches Ok(l) && l@ == label,
            Err(e) => r == Err::<Label, CommandError>(e),
        },
{
    match evaluator.module.exports.get(name) {
        None => Err(CommandError::NoSuchExport),
        Some(export) => {
            assert(evaluator@.module.exports[name@] == export@);
            let same = match (export.export_type, kind) {
                (ExportType::FUNCTION, ExportType::FUNCTION) => true,
                (ExportType::GLOBAL, ExportType::GLOBAL) => true,
                (ExportType::MEMORY, ExportType::MEMORY) => true,
                _ => false,
            };
            if same {
                Ok(export.export_ref.clone())
            } else {
                Err(CommandError::WrongKind(export.export_type))
            }
        },
    }
}

/// Answers a command.
pub fn run_command(cmd: Command, evaluator: &mut Evaluator) -> (r: Result<Reply, CommandError>)
    ensures
        answered(r, old(evaluator)@, final(evaluator)@, answer(old(evaluator)@, cmd@)),
{
    match cmd {
        Command::Call(name, args) => {
            let fn_ref = match find_export(evaluator, name.as_str(), ExportType::FUNCTION) {
                Ok(label) => label,
                Err(e) => {
                    return Err(e);
                },
            };
            evaluator.add_parameters(args);
            match evaluator.call(&fn_ref) {
                Ok(()) => {},
                Err(f) => {
                    return Err(CommandError::Faulted(f));
                },
            }
            match evaluator.run() {
                Ok(result) => Ok(Reply::Returned(result)),
                Err(f) => Err(CommandError::Faulted(f)),
            }
        },
        Command::GetGlobal(name) => {
            let global_ref = match find_export(evaluator, name.as_str(), ExportType::GLOBAL) {
                Ok(label) => label,
                Err(e) => {
                    return Err(e);
                },
            };
            let global_idx = match evaluator.module.get_global(&global_ref) {
                Ok(idx) => idx,
                Err(f) => {
                    return Err(CommandError::Faulted(f));
                },
            };
            if global_idx >= evaluator.globals.len() {
                return Err(CommandError::Faulted(Fault::GlobalOutOfRange));
            }
            Ok(Reply::Global(evaluator.globals[global_idx]))
        },
        Command::GetMemory(name) => {
            match find_export(evaluator, name.as_str(), ExportType::MEMORY) {
                Ok(_) => {},
                Err(e) => {
                    return Err(e);
                },
            }
            if evaluator.memory.bytes.len() % 4 != 0 {
                return Err(CommandError::RaggedMemory);
            }
            Ok(Reply::Memory(evaluator.memory.pretty_print_as_integers()))
        },
    }
}

/// Reads a command from `line` and answers it.
pub fn parse_command(line: &str, evaluator: &mut Evaluator) -> (r: Result<Reply, CommandError>)
    ensures
        match command_of(scan(line@)) {
            Ok(cmd) => answered(
                r,
                old(evaluator)@,
                final(evaluator)@,
                answer(old(evaluator)@, cmd),
            ),
            Err(e) => r == Err::<Reply, CommandError>(e) && final(evaluator)@ == old(evaluator)@,
        },
{
    match read_command(line) {
        Ok(cmd) => run_command(cmd, evaluator),
        Err(e) => Err(e),
    }
}

} // verus!
