//! The tokenizer: from source characters to the token sequence that the
//! compiler reads.
//!
//! The first character of a lexeme decides its kind, and a lexeme always
//! extends over the longest run of characters that its kind admits.

use crate::interpret::error::LexError;
use crate::interpret::text::{collect_chars, string_of};
use vstd::prelude::*;

verus! {

/// A token of the module text.
#[derive(Debug, PartialEq)]
pub enum Token {
    /// A bare keyword such as `func` or `i32.add`.
    Kwd(String),
    /// A name, written with a leading `$` that the token does not keep.
    Id(String),
    /// A signed decimal literal.
    Integer(i32),
    /// A quoted string, without its quotes.
    String(String),
    LParan,
    RParan,
}

/// The mathematical value of a [`Token`].
pub enum TokenView {
    Kwd(Seq<char>),
    Id(Seq<char>),
    Integer(i32),
    String(Seq<char>),
    LParan,
    RParan,
}

impl View for Token {
    type V = TokenView;

    open spec fn view(&self) -> TokenView {
        match *self {
            Token::Kwd(s) => TokenView::Kwd(s@),
            Token::Id(s) => TokenView::Id(s@),
            Token::Integer(n) => TokenView::Integer(n),
            Token::String(s) => TokenView::String(s@),
            Token::LParan => TokenView::LParan,
            Token::RParan => TokenView::RParan,
        }
    }
}

impl Clone for Token {
    fn clone(&self) -> (r: Self)
        ensures
            r@ == self@,
    {
        match self {
            Token::Kwd(s) => Token::Kwd(s.clone()),
            Token::Id(s) => Token::Id(s.clone()),
            Token::Integer(n) => Token::Integer(*n),
            Token::String(s) => Token::String(s.clone()),
            Token::LParan => Token::LParan,
            Token::RParan => Token::RParan,
        }
    }
}

impl Token {
    /// The text that a keyword, a name or a string carries; `None` for the
    /// other tokens.
    pub fn text(&self) -> (r: Option<&str>)
        ensures
            match self@ {
                TokenView::Kwd(s) | TokenView::Id(s) | TokenView::String(s) => r matches Some(t)
                    && t@ == s,
                _ => r is None,
            },
    {
        match self {
            Token::Kwd(s) => Some(s.as_str()),
            Token::Id(s) => Some(s.as_str()),
            Token::String(s) => Some(s.as_str()),
            _ => None,
        }
    }
}

/// The mathematical value of a token sequence.
pub open spec fn tokens_view(tokens: Seq<Token>) -> Seq<TokenView> {
    tokens.map_values(|t: Token| t@)
}

/// The sets of characters that lexemes are made of.
#[derive(Clone, Copy)]
pub enum CharClass {
    /// White space, which separates tokens.
    Space,
    /// A decimal digit.
    Digit,
    /// What keywords, names and strings are made of: the printable ASCII
    /// characters but the space and `"`, `(`, `)`, `;`, `{`, `}`.
    Word,
    /// What a line comment may hold: word characters, spaces, parentheses.
    LineComment,
    /// What a block comment may hold: the same, and the line feed.
    BlockComment,
}

/// White space: what Unicode calls so.
pub open spec fn is_space(c: char) -> bool {
    ('\t' <= c && c <= '\r') || c == ' ' || c == '\u{85}' || c == '\u{a0}' || c == '\u{1680}' || (
    '\u{2000}' <= c && c <= '\u{200a}') || c == '\u{2028}' || c == '\u{2029}' || c == '\u{202f}'
        || c == '\u{205f}' || c == '\u{3000}'
}

/// A decimal digit.
pub open spec fn is_digit(c: char) -> bool {
    '0' <= c && c <= '9'
}

/// A character of keywords, names and strings.
pub open spec fn is_word_char(c: char) -> bool {
    c == '!' || ('#' <= c && c <= '\'') || ('*' <= c && c <= ':') || ('<' <= c && c <= 'z') || c
        == '|' || c == '~'
}

impl CharClass {
    pub open spec fn contains(self, c: char) -> bool {
        match self {
            CharClass::Space => is_space(c),
            CharClass::Digit => is_digit(c),
            CharClass::Word => is_word_char(c),
            CharClass::LineComment => is_word_char(c) || c == ' ' || c == '(' || c == ')',
            CharClass::BlockComment => is_word_char(c) || c == ' ' || c == '(' || c == ')' || c
                == '\n',
        }
    }

    /// Whether `c` belongs to the class.
    pub fn has(self, c: char) -> (r: bool)
        ensures
            r == self.contains(c),
    {
        let word = c == '!' || ('#' <= c && c <= '\'') || ('*' <= c && c <= ':') || ('<' <= c && c
            <= 'z') || c == '|' || c == '~';
        match self {
            CharClass::Space => ('\t' <= c && c <= '\r') || c == ' ' || c == '\u{85}' || c
                == '\u{a0}' || c == '\u{1680}' || ('\u{2000}' <= c && c <= '\u{200a}') || c
                == '\u{2028}' || c == '\u{2029}' || c == '\u{202f}' || c == '\u{205f}' || c
                == '\u{3000}',
            CharClass::Digit => '0' <= c && c <= '9',
            CharClass::Word => word,
            CharClass::LineComment => word || c == ' ' || c == '(' || c == ')',
            CharClass::BlockComment => word || c == ' ' || c == '(' || c == ')' || c == '\n',
        }
    }
}

/// Where the longest run of `class` characters that starts at `from` ends
/// (`from` itself where the run is empty).
pub open spec fn run_end(s: Seq<char>, from: int, class: CharClass) -> int
    decreases s.len() - from,
{
    if 0 <= from < s.len() && class.contains(s[from]) {
        run_end(s, from + 1, class)
    } else {
        from
    }
}

/// A run ends at or behind its start, within the text, on the first
/// character outside the class, and holds characters of the class alone.
pub proof fn lemma_run_end(s: Seq<char>, from: int, class: CharClass)
    requires
        0 <= from <= s.len(),
    ensures
        from <= run_end(s, from, class) <= s.len(),
        run_end(s, from, class) < s.len() ==> !class.contains(s[run_end(s, from, class)]),
        forall|k: int| from <= k < run_end(s, from, class) ==> class.contains(#[trigger] s[k]),
    decreases s.len() - from,
{
    if from < s.len() && class.contains(s[from]) {
        lemma_run_end(s, from + 1, class);
    }
}

/// The number that a sequence of decimal digits denotes.
pub open spec fn decimal_value(digits: Seq<char>) -> nat
    decreases digits.len(),
{
    if digits.len() == 0 {
        0
    } else {
        (decimal_value(digits.drop_last()) * 10 + (digits.last() as nat - '0' as nat)) as nat
    }
}

/// Appending digits never makes the number smaller.
pub proof fn lemma_decimal_value_grows(s: Seq<char>, from: int, mid: int, to: int)
    requires
        0 <= from <= mid <= to <= s.len(),
        forall|k: int| from <= k < to ==> CharClass::Digit.contains(#[trigger] s[k]),
    ensures
        decimal_value(s.subrange(from, mid)) <= decimal_value(s.subrange(from, to)),
    decreases to - mid,
{
    if mid < to {
        lemma_decimal_value_grows(s, from, mid, to - 1);
        let full = s.subrange(from, to);
        assert(full.drop_last() == s.subrange(from, to - 1));
        assert(full.last() == s[to - 1]);
    }
}

/// The integer literal that starts at position `at` of `s`, where a digit
/// or `-` stands, and the position behind it: an optional `-` and the
/// longest run of digits, of which there must be one at least.  The number
/// that the digits denote, with its sign, must fit 32 bits.
pub open spec fn integer_at(s: Seq<char>, at: int) -> Result<(i32, int), LexError>
    recommends
        0 <= at < s.len(),
{
    let first = if s[at] == '-' {
        at + 1
    } else {
        at
    };
    let end = run_end(s, first, CharClass::Digit);
    let magnitude = decimal_value(s.subrange(first, end));
    let value = if s[at] == '-' {
        -magnitude
    } else {
        magnitude as int
    };
    if end == first {
        Err(LexError::Unterminated { at: at as usize })
    } else if i32::MIN <= value <= i32::MAX {
        Ok((value as i32, end))
    } else {
        Err(LexError::IntegerOutOfRange { at: at as usize })
    }
}

/// What one step of the tokenizer finds at position `at` of `s`: a token, or
/// nothing where it skipped white space or a comment, and the position
/// behind what it read.
///
/// - White space is skipped, one run at a time.
/// - `(` and `)` are tokens of their own.
/// - `;;` opens a line comment: at least one comment character must follow,
///   and the comment is the longest run of them.
/// - A single `;` opens a block comment, which holds at least one character
///   and ends with the next `;`.
/// - `"` opens a string: at least one word character, then `"`.
/// - `$` opens a name: at least one word character.
/// - A digit or `-` opens an integer: an optional `-` and at least one
///   digit; the number must fit 32 bits.
/// - A lower-case letter opens a keyword: the letter and at least one word
///   character.
pub open spec fn lex_one(s: Seq<char>, at: int) -> Result<(Option<TokenView>, int), LexError>
    recommends
        0 <= at < s.len(),
{
    let c = s[at];
    if CharClass::Space.contains(c) {
        Ok((None, run_end(s, at + 1, CharClass::Space)))
    } else if c == '(' {
        Ok((Some(TokenView::LParan), at + 1))
    } else if c == ')' {
        Ok((Some(TokenView::RParan), at + 1))
    } else if c == ';' {
        if at + 1 < s.len() && s[at + 1] == ';' {
            let end = run_end(s, at + 2, CharClass::LineComment);
            if end > at + 2 {
                Ok((None, end))
            } else {
                Err(LexError::Unterminated { at: at as usize })
            }
        } else {
            let end = run_end(s, at + 1, CharClass::BlockComment);
            if end > at + 1 && end < s.len() && s[end] == ';' {
                Ok((None, end + 1))
            } else {
                Err(LexError::Unterminated { at: at as usize })
            }
        }
    } else if c == '"' {
        let end = run_end(s, at + 1, CharClass::Word);
        if end > at + 1 && end < s.len() && s[end] == '"' {
            Ok((Some(TokenView::String(s.subrange(at + 1, end))), end + 1))
        } else {
            Err(LexError::Unterminated { at: at as usize })
        }
    } else if c == '$' {
        let end = run_end(s, at + 1, CharClass::Word);
        if end > at + 1 {
            Ok((Some(TokenView::Id(s.subrange(at + 1, end))), end))
        } else {
            Err(LexError::Unterminated { at: at as usize })
        }
    } else if c == '-' || CharClass::Digit.contains(c) {
        match integer_at(s, at) {
            Ok((value, end)) => Ok((Some(TokenView::Integer(value)), end)),
            Err(e) => Err(e),
        }
    } else if 'a' <= c && c <= 'z' {
        let end = run_end(s, at + 1, CharClass::Word);
        if end > at + 1 {
            Ok((Some(TokenView::Kwd(s.subrange(at, end))), end))
        } else {
            Err(LexError::Unterminated { at: at as usize })
        }
    } else {
        Err(LexError::UnexpectedChar { at: at as usize })
    }
}

/// A step of the tokenizer moves forward and stays within the text.
pub proof fn lemma_lex_one_advances(s: Seq<char>, at: int)
    requires
        0 <= at < s.len(),
    ensures
        lex_one(s, at) matches Ok((_, next)) ==> at < next <= s.len(),
{
    lemma_run_end(s, at + 1, CharClass::Space);
    lemma_run_end(s, at + 1, CharClass::Word);
    lemma_run_end(s, at + 1, CharClass::BlockComment);
    lemma_run_end(s, at + 1, CharClass::Digit);
    lemma_run_end(s, at, CharClass::Digit);
    if at + 2 <= s.len() {
        lemma_run_end(s, at + 2, CharClass::LineComment);
    }
}

/// The tokens of `s` from position `at` on, or the first defect.
pub open spec fn lex_from(s: Seq<char>, at: int) -> Result<Seq<TokenView>, LexError>
    decreases s.len() - at,
{
    if 0 <= at < s.len() {
        match lex_one(s, at) {
            Err(e) => Err(e),
            Ok((found, next)) => {
                proof {
                    lemma_lex_one_advances(s, at);
                }
                match lex_from(s, next) {
                    Err(e) => Err(e),
                    Ok(rest) => match found {
                        Some(t) => Ok(seq![t] + rest),
                        None => Ok(rest),
                    },
                }
            },
        }
    } else {
        Ok(Seq::empty())
    }
}

/// The tokens of a whole text.
pub open spec fn lex(s: Seq<char>) -> Result<Seq<TokenView>, LexError> {
    lex_from(s, 0)
}

/// Whether `r` is what the mathematical result `expected` asks for: the
/// same error, or tokens with the expected values.
pub open spec fn lex_result_is(
    r: Result<Vec<Token>, LexError>,
    expected: Result<Seq<TokenView>, LexError>,
) -> bool {
    match expected {
        Ok(ts) => r matches Ok(v) && tokens_view(v@) == ts,
        Err(e) => r == Err::<Vec<Token>, LexError>(e),
    }
}

/// Where the longest run of `class` characters from `from` on ends.
pub fn scan_run(chars: &Vec<char>, from: usize, class: CharClass) -> (end: usize)
    requires
        from <= chars.len(),
    ensures
        end == run_end(chars@, from as int, class),
        from <= end <= chars.len(),
{
    let mut i = from;
    while i < chars.len() && class.has(chars[i])
        invariant
            from <= i <= chars.len(),
            run_end(chars@, from as int, class) == run_end(chars@, i as int, class),
        decreases chars.len() - i,
    {
        i += 1;
    }
    i
}

/// The number that the digits `chars[from..to]` denote, if it is at most
/// `limit`.
fn parse_digits(chars: &Vec<char>, from: usize, to: usize, limit: u64) -> (r: Option<u64>)
    requires
        from <= to <= chars.len(),
        limit <= 0x8000_0000,
        forall|k: int| from <= k < to ==> CharClass::Digit.contains(#[trigger] chars@[k]),
    ensures
        r == if decimal_value(chars@.subrange(from as int, to as int)) <= limit {
            Some(decimal_value(chars@.subrange(from as int, to as int)) as u64)
        } else {
            None::<u64>
        },
{
    let mut acc: u64 = 0;
    let mut i = from;
    assert(chars@.subrange(from as int, from as int) == Seq::<char>::empty());
    while i < to
        invariant
            from <= i <= to <= chars.len(),
            limit <= 0x8000_0000,
            acc <= limit,
            acc == decimal_value(chars@.subrange(from as int, i as int)),
            forall|k: int| from <= k < to ==> CharClass::Digit.contains(#[trigger] chars@[k]),
        decreases to - i,
    {
        let c = chars[i];
        let digit = (c as u32 - '0' as u32) as u64;
        let ghost longer = chars@.subrange(from as int, i + 1);
        assert(longer.drop_last() == chars@.subrange(from as int, i as int));
        assert(longer.last() == c);
        let next = acc * 10 + digit;
        if next > limit {
            proof {
                lemma_decimal_value_grows(chars@, from as int, i + 1, to as int);
            }
            return None;
        }
        acc = next;
        i += 1;
    }
    Some(acc)
}

/// The integer literal that starts at position `at`.
pub fn read_integer(chars: &Vec<char>, at: usize) -> (r: Result<(i32, usize), LexError>)
    requires
        at < chars.len(),
    ensures
        r == match integer_at(chars@, at as int) {
            Ok((value, end)) => Ok::<(i32, usize), LexError>((value, end as usize)),
            Err(e) => Err::<(i32, usize), LexError>(e),
        },
        r matches Ok((_, end)) ==> at < end <= chars.len(),
{
    let negative = chars[at] == '-';
    let first = if negative {
        at + 1
    } else {
        at
    };
    let end = scan_run(chars, first, CharClass::Digit);
    if end == first {
        return Err(LexError::Unterminated { at });
    }
    proof {
        lemma_run_end(chars@, first as int, CharClass::Digit);
    }
    let limit: u64 = if negative {
        0x8000_0000
    } else {
        0x7fff_ffff
    };
    match parse_digits(chars, first, end, limit) {
        Some(magnitude) => {
            let value: i64 = if negative {
                -(magnitude as i64)
            } else {
                magnitude as i64
            };
            Ok((value as i32, end))
        },
        None => Err(LexError::IntegerOutOfRange { at }),
    }
}

/// One step of the tokenizer.
fn read_one(chars: &Vec<char>, at: usize) -> (r: Result<(Option<Token>, usize), LexError>)
    requires
        at < chars.len(),
    ensures
        match lex_one(chars@, at as int) {
            Ok((found, next)) => r matches Ok((t, n)) && n == next && at < n <= chars.len() && (
            match found {
                Some(v) => t matches Some(tok) && tok@ == v,
                None => t is None,
            }),
            Err(e) => r == Err::<(Option<Token>, usize), LexError>(e),
        },
{
    proof {
        lemma_lex_one_advances(chars@, at as int);
    }
    let c = chars[at];
    if CharClass::Space.has(c) {
        Ok((None, scan_run(chars, at + 1, CharClass::Space)))
    } else if c == '(' {
        Ok((Some(Token::LParan), at + 1))
    } else if c == ')' {
        Ok((Some(Token::RParan), at + 1))
    } else if c == ';' {
        if at + 1 < chars.len() && chars[at + 1] == ';' {
            let end = scan_run(chars, at + 2, CharClass::LineComment);
            if end > at + 2 {
                Ok((None, end))
            } else {
                Err(LexError::Unterminated { at })
            }
        } else {
            let end = scan_run(chars, at + 1, CharClass::BlockComment);
            if end > at + 1 && end < chars.len() && chars[end] == ';' {
                Ok((None, end + 1))
            } else {
                Err(LexError::Unterminated { at })
            }
        }
    } else if c == '"' {
        let end = scan_run(chars, at + 1, CharClass::Word);
        if end > at + 1 && end < chars.len() && chars[end] == '"' {
            Ok((Some(Token::String(string_of(chars, at + 1, end))), end + 1))
        } else {
            Err(LexError::Unterminated { at })
        }
    } else if c == '$' {
        let end = scan_run(chars, at + 1, CharClass::Word);
        if end > at + 1 {
            Ok((Some(Token::Id(string_of(chars, at + 1, end))), end))
        } else {
            Err(LexError::Unterminated { at })
        }
    } else if c == '-' || CharClass::Digit.has(c) {
        match read_integer(chars, at) {
            Ok((value, end)) => Ok((Some(Token::Integer(value)), end)),
            Err(e) => Err(e),
        }
    } else if 'a' <= c && c <= 'z' {
        let end = scan_run(chars, at + 1, CharClass::Word);
        if end > at + 1 {
            Ok((Some(Token::Kwd(string_of(chars, at, end))), end))
        } else {
            Err(LexError::Unterminated { at })
        }
    } else {
        Err(LexError::UnexpectedChar { at })
    }
}

/// What is known of the whole text once `done` tokens were read up to
/// position `at`.
pub open spec fn lex_resume(done: Seq<TokenView>, s: Seq<char>, at: int) -> Result<
    Seq<TokenView>,
    LexError,
> {
    match lex_from(s, at) {
        Ok(rest) => Ok(done + rest),
        Err(e) => Err(e),
    }
}

/// The tokens of `program`, or the first defect of the text.
pub fn get_tokens(program: &str) -> (r: Result<Vec<Token>, LexError>)
    ensures
        lex_result_is(r, lex(program@)),
{
    let chars = collect_chars(program);
    let mut tokens: Vec<Token> = Vec::new();
    let mut at: usize = 0;
    assert(tokens_view(tokens@) + lex_from(chars@, 0)->Ok_0 == lex_from(chars@, 0)->Ok_0);
    while at < chars.len()
        invariant
            at <= chars.len(),
            chars@ == program@,
            lex_resume(tokens_view(tokens@), chars@, at as int) == lex(chars@),
        decreases chars.len() - at,
    {
        let ghost before = tokens_view(tokens@);
        match read_one(&chars, at) {
            Err(e) => {
                return Err(e);
            },
            Ok((found, next)) => {
                match found {
                    Some(t) => {
                        proof {
                            let rest = lex_from(chars@, next as int);
                            if rest is Ok {
                                assert(before.push(t@) + rest->Ok_0 == before + (seq![t@]
                                    + rest->Ok_0));
                            }
                            assert(tokens_view(tokens@.push(t)) == before.push(t@));
                        }
                        tokens.push(t);
                    },
                    None => {},
                }
                at = next;
            },
        }
    }
    assert(tokens_view(tokens@) + Seq::<TokenView>::empty() == tokens_view(tokens@));
    Ok(tokens)
}

} // verus!
