//! The tokens of a command line.
//!
//! A lexeme extends over the longest run of characters that its kind
//! admits; where a word can be read as an address of an export and as a
//! plain keyword, it is the address.

use crate::interpret::error::LexError;
use crate::interpret::lexer::{
    integer_at, is_digit, is_space, lemma_run_end, read_integer, run_end, scan_run,
    CharClass,
};
use crate::interpret::text::{collect_chars, string_of};
use vstd::prelude::*;

verus! {

/// A token of a command line.
#[derive(Debug, PartialEq)]
pub enum Token {
    /// `exports.functions.NAME`: the function export called `NAME`.
    Function(String),
    /// `exports.globals.get(NAME)`: the global export called `NAME`.
    GetGlobal(String),
    /// `exports.memory.get(NAME)`: the memory export called `NAME`.
    GetMemory(String),
    /// Any other word that starts with a letter.
    Keyword(String),
    Integer(i32),
    LParan,
    RParan,
}

/// The mathematical value of a [`Token`].
pub enum TokenView {
    Function(Seq<char>),
    GetGlobal(Seq<char>),
    GetMemory(Seq<char>),
    Keyword(Seq<char>),
    Integer(i32),
    LParan,
    RParan,
}

impl View for Token {
    type V = TokenView;

    open spec fn view(&self) -> TokenView {
        match *self {
            Token::Function(s) => TokenView::Function(s@),
            Token::GetGlobal(s) => TokenView::GetGlobal(s@),
            Token::GetMemory(s) => TokenView::GetMemory(s@),
            Token::Keyword(s) => TokenView::Keyword(s@),
            Token::Integer(n) => TokenView::Integer(n),
            Token::LParan => TokenView::LParan,
            Token::RParan => TokenView::RParan,
        }
    }
}

/// The mathematical value of a token sequence.
pub open spec fn tokens_view(tokens: Seq<Token>) -> Seq<TokenView> {
    tokens.map_values(|t: Token| t@)
}

/// Whether `pattern` stands at position `at` of `s`.  A `.` in the pattern
/// stands for any character but the line feed; every other character
/// stands for itself.
pub open spec fn fits(s: Seq<char>, at: int, pattern: Seq<char>) -> bool {
    &&& 0 <= at
    &&& at + pattern.len() <= s.len()
    &&& forall|k: int|
        0 <= k < pattern.len() ==> if pattern[k] == '.' {
            s[at + k] != '\n'
        } else {
            s[at + k] == pattern[k]
        }
}

/// The name that follows `pattern` at position `at` of `s`, and the
/// position behind it: the longest run of word characters, of which there
/// must be one at least, and behind it a `)` if the address is one that
/// `closes`.
pub open spec fn address_at(s: Seq<char>, at: int, pattern: Seq<char>, closes: bool) -> Option<
    (Seq<char>, int),
> {
    let start = at + pattern.len();
    let end = run_end(s, start, CharClass::Word);
    if !fits(s, at, pattern) || end <= start {
        None
    } else if !closes {
        Some((s.subrange(start, end), end))
    } else if end < s.len() && s[end] == ')' {
        Some((s.subrange(start, end), end + 1))
    } else {
        None
    }
}

/// The word that starts at position `at` of `s`, where a letter stands: an
/// address of a function, a global or a memory export, or else a keyword,
/// which is the letter and at least one word character.
pub open spec fn word_at(s: Seq<char>, at: int) -> Result<(TokenView, int), LexError> {
    if address_at(s, at, "exports.functions."@, false) is Some {
        let (name, end) = address_at(s, at, "exports.functions."@, false)->0;
        Ok((TokenView::Function(name), end))
    } else if address_at(s, at, "exports.globals.get("@, true) is Some {
        let (name, end) = address_at(s, at, "exports.globals.get("@, true)->0;
        Ok((TokenView::GetGlobal(name), end))
    } else if address_at(s, at, "exports.memory.get("@, true) is Some {
        let (name, end) = address_at(s, at, "exports.memory.get("@, true)->0;
        Ok((TokenView::GetMemory(name), end))
    } else if run_end(s, at + 1, CharClass::Word) > at + 1 {
        Ok((TokenView::Keyword(s.subrange(at, run_end(s, at + 1, CharClass::Word))),
            run_end(s, at + 1, CharClass::Word)))
    } else {
        Err(LexError::Unterminated { at: at as usize })
    }
}

/// A letter of the Latin alphabet.
pub open spec fn is_letter(c: char) -> bool {
    ('a' <= c && c <= 'z') || ('A' <= c && c <= 'Z')
}

/// What one step of the tokenizer finds at position `at` of `s`: a token,
/// or nothing where it skipped a separator, and the position behind what
/// it read.  White space and commas separate tokens.
pub open spec fn lex_one(s: Seq<char>, at: int) -> Result<(Option<TokenView>, int), LexError>
    recommends
        0 <= at < s.len(),
{
    let c = s[at];
    if is_space(c) || c == ',' {
        Ok((None, at + 1))
    } else if c == '(' {
        Ok((Some(TokenView::LParan), at + 1))
    } else if c == ')' {
        Ok((Some(TokenView::RParan), at + 1))
    } else if c == '-' || is_digit(c) {
        match integer_at(s, at) {
            Ok((value, end)) => Ok((Some(TokenView::Integer(value)), end)),
            Err(e) => Err(e),
        }
    } else if is_letter(c) {
        match word_at(s, at) {
            Ok((token, end)) => Ok((Some(token), end)),
            Err(e) => Err(e),
        }
    } else {
        Err(LexError::UnexpectedChar { at: at as usize })
    }
}

/// A step of the tokenizer moves forward and stays within the text.
pub proof fn lemma_lex_one_advances(s: Seq<char>, at: int)
    requires
        0 <= at < s.len(),
    ensures
        lex_one(s, at) matches Ok((_, next)) ==> at < next <= s.len(),
{
    lemma_run_end(s, at + 1, CharClass::Word);
    lemma_run_end(s, at + 1, CharClass::Digit);
    lemma_run_end(s, at, CharClass::Digit);
    let f = "exports.functions."@;
    let g = "exports.globals.get("@;
    let m = "exports.memory.get("@;
    if at + f.len() <= s.len() {
        lemma_run_end(s, at + f.len(), CharClass::Word);
    }
    if at + g.len() <= s.len() {
        lemma_run_end(s, at + g.len(), CharClass::Word);
    }
    if at + m.len() <= s.len() {
        lemma_run_end(s, at + m.len(), CharClass::Word);
    }
}

/// What a line was read as: the tokens up to its end or its first defect,
/// and that defect, if there is one.
pub struct Scan {
    pub tokens: Seq<TokenView>,
    pub defect: Option<LexError>,
}

/// The tokens of `s` from position `at` on.
pub open spec fn scan_from(s: Seq<char>, at: int) -> Scan
    decreases s.len() - at,
{
    if 0 <= at < s.len() {
        match lex_one(s, at) {
            Err(e) => Scan { tokens: Seq::empty(), defect: Some(e) },
            Ok((found, next)) => {
                proof {
                    lemma_lex_one_advances(s, at);
                }
                let rest = scan_from(s, next);
                match found {
                    Some(t) => Scan { tokens: seq![t] + rest.tokens, defect: rest.defect },
                    None => rest,
                }
            },
        }
    } else {
        Scan { tokens: Seq::empty(), defect: None }
    }
}

/// The tokens of a whole line.
pub open spec fn scan(s: Seq<char>) -> Scan {
    scan_from(s, 0)
}

/// Whether `pattern` stands at position `at`.
pub fn fits_at(chars: &Vec<char>, at: usize, pattern: &Vec<char>) -> (r: bool)
    requires
        at <= chars.len(),
    ensures
        r == fits(chars@, at as int, pattern@),
{
    if pattern.len() > chars.len() - at {
        return false;
    }
    let mut k: usize = 0;
    while k < pattern.len()
        invariant
            k <= pattern.len(),
            at + pattern.len() <= chars.len(),
            forall|j: int|
                0 <= j < k ==> if pattern@[j] == '.' {
                    chars@[at + j] != '\n'
                } else {
                    chars@[at + j] == pattern@[j]
                },
        decreases pattern.len() - k,
    {
        let p = pattern[k];
        let c = chars[at + k];
        if p == '.' {
            if c == '\n' {
                return false;
            }
        } else if c != p {
            return false;
        }
        k += 1;
    }
    true
}

/// The name that follows `pattern` at position `at`.
pub fn read_address(chars: &Vec<char>, at: usize, pattern: &str, closes: bool) -> (r: Option<
    (String, usize),
>)
    requires
        at < chars.len(),
    ensures
        match address_at(chars@, at as int, pattern@, closes) {
            Some((name, end)) => r matches Some((n, e)) && n@ == name && e == end && at < e
                <= chars.len(),
            None => r is None,
        },
{
    let pattern = collect_chars(pattern);
    if !fits_at(chars, at, &pattern) {
        return None;
    }
    let start = at + pattern.len();
    let end = scan_run(chars, start, CharClass::Word);
    if end <= start {
        None
    } else if !closes {
        Some((string_of(chars, start, end), end))
    } else if end < chars.len() && chars[end] == ')' {
        Some((string_of(chars, start, end), end + 1))
    } else {
        None
    }
}

/// The word that starts at position `at`.
pub fn read_word(chars: &Vec<char>, at: usize) -> (r: Result<(Token, usize), LexError>)
    requires
        at < chars.len(),
    ensures
        match word_at(chars@, at as int) {
            Ok((token, end)) => r matches Ok((t, e)) && t@ == token && e == end && at < e
                <= chars.len(),
            Err(e) => r == Err::<(Token, usize), LexError>(e),
        },
{
    match read_address(chars, at, "exports.functions.", false) {
        Some((name, end)) => {
            return Ok((Token::Function(name), end));
        },
        None => {},
    }
    match read_address(chars, at, "exports.globals.get(", true) {
        Some((name, end)) => {
            return Ok((Token::GetGlobal(name), end));
        },
        None => {},
    }
    match read_address(chars, at, "exports.memory.get(", true) {
        Some((name, end)) => {
            return Ok((Token::GetMemory(name), end));
        },
        None => {},
    }
    let end = scan_run(chars, at + 1, CharClass::Word);
    if end > at + 1 {
        Ok((Token::Keyword(string_of(chars, at, end)), end))
    } else {
        Err(LexError::Unterminated { at })
    }
}

/// One step of the tokenizer.
fn read_one(chars: &Vec<char>, at: usize) -> (r: Result<(Option<Token>, usize), LexError>)
    requires
        at < chars.len(),
    ensures
        match lex_one(chars@, at as int) {
            Ok((found, next)) => r matches Ok((t, n)) && n == next && at < n <= chars.len() && (
            match found {
                Some(v) => t matches Some(tok) && tok@ == v,
                None => t is None,
            }),
            Err(e) => r == Err::<(Option<Token>, usize), LexError>(e),
        },
{
    proof {
        lemma_lex_one_advances(chars@, at as int);
    }
    let c = chars[at];
    if CharClass::Space.has(c) || c == ',' {
        Ok((None, at + 1))
    } else if c == '(' {
        Ok((Some(Token::LParan), at + 1))
    } else if c == ')' {
        Ok((Some(Token::RParan), at + 1))
    } else if c == '-' || CharClass::Digit.has(c) {
        match read_integer(chars, at) {
            Ok((value, end)) => Ok((Some(Token::Integer(value)), end)),
            Err(e) => Err(e),
        }
    } else if ('a' <= c && c <= 'z') || ('A' <= c && c <= 'Z') {
        match read_word(chars, at) {
            Ok((token, end)) => Ok((Some(token), end)),
            Err(e) => Err(e),
        }
    } else {
        Err(LexError::UnexpectedChar { at })
    }
}

/// What is known of the whole line once `done` tokens were read up to
/// position `at`.
pub open spec fn scan_resume(done: Seq<TokenView>, s: Seq<char>, at: int) -> Scan {
    Scan { tokens: done + scan_from(s, at).tokens, defect: scan_from(s, at).defect }
}

/// The tokens of `line` up to its end or its first defect, and that
/// defect, if there is one.
pub fn get_tokens(line: &str) -> (r: (Vec<Token>, Option<LexError>))
    ensures
        tokens_view(r.0@) == scan(line@).tokens,
        r.1 == scan(line@).defect,
{
    let chars = collect_chars(line);
    let mut tokens: Vec<Token> = Vec::new();
    let mut at: usize = 0;
    assert(tokens_view(tokens@) + scan_from(chars@, 0).tokens == scan_from(chars@, 0).tokens);
    while at < chars.len()
        invariant
            at <= chars.len(),
            chars@ == line@,
            scan_resume(tokens_view(tokens@), chars@, at as int) == scan(chars@),
        decreases chars.len() - at,
    {
        let ghost before = tokens_view(tokens@);
        match read_one(&chars, at) {
            Err(e) => {
                assert(before + Seq::<TokenView>::empty() == before);
                return (tokens, Some(e));
            },
            Ok((found, next)) => {
                match found {
                    Some(t) => {
                        proof {
                            let rest = scan_from(chars@, next as int);
                            assert(before.push(t@) + rest.tokens == before + (seq![t@]
                                + rest.tokens));
                            assert(tokens_view(tokens@.push(t)) == before.push(t@));
                        }
                        tokens.push(t);
                    },
                    None => {},
                }
                at = next;
            },
        }
    }
    assert(tokens_view(tokens@) + Seq::<TokenView>::empty() == tokens_view(tokens@));
    (tokens, None)
}

} // verus!
