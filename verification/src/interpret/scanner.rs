//! A forward cursor over a token sequence.
//!
//! The cursor rests on the token that was read last; looking ahead by one or
//! two tokens does not move it.  Behind the last token every read yields
//! `None`.

use crate::interpret::lexer::{tokens_view, Token, TokenView};
use vstd::prelude::*;

verus! {

/// The cursor proper: the tokens and the position of the current one.
pub struct Scanner {
    tokens: Vec<Token>,
    curr: usize,
}

/// A parenthesis that was expected and not found, with a description.
#[derive(Debug)]
pub enum Errros {
    NoLeftParan(String),
    NoRightParan(String),
}

impl Clone for Errros {
    fn clone(&self) -> (r: Self)
        ensures
            match (*self, r) {
                (Errros::NoLeftParan(a), Errros::NoLeftParan(b)) => a@ == b@,
                (Errros::NoRightParan(a), Errros::NoRightParan(b)) => a@ == b@,
                _ => false,
            },
    {
        match self {
            Errros::NoLeftParan(s) => Errros::NoLeftParan(s.clone()),
            Errros::NoRightParan(s) => Errros::NoRightParan(s.clone()),
        }
    }
}

/// The mathematical value of a [`Scanner`]: its tokens and its position,
/// which lies between 0 and the number of tokens.
pub struct ScannerView {
    pub tokens: Seq<TokenView>,
    pub curr: int,
}

impl ScannerView {
    /// The position lies within the tokens or just behind them.
    pub open spec fn wf(self) -> bool {
        0 <= self.curr <= self.tokens.len()
    }

    /// The token `k` places behind the current one, if there is one.
    pub open spec fn at(self, k: int) -> Option<TokenView> {
        if 0 <= self.curr + k < self.tokens.len() {
            Some(self.tokens[self.curr + k])
        } else {
            None
        }
    }

    /// The cursor moved forward by `n` tokens, but not beyond the end.
    pub open spec fn moved(self, n: int) -> ScannerView {
        ScannerView {
            tokens: self.tokens,
            curr: if self.curr + n <= self.tokens.len() {
                self.curr + n
            } else {
                self.tokens.len() as int
            },
        }
    }

    /// How many tokens lie behind the cursor's position.
    pub open spec fn remaining(self) -> int {
        self.tokens.len() - self.curr
    }
}

/// The mathematical value of a token that a read handed out.
pub open spec fn read_view(t: Option<&Token>) -> Option<TokenView> {
    match t {
        Some(t) => Some(t@),
        None => None,
    }
}

impl View for Scanner {
    type V = ScannerView;

    closed spec fn view(&self) -> ScannerView {
        ScannerView {
            tokens: tokens_view(self.tokens@),
            curr: if self.curr <= self.tokens.len() {
                self.curr as int
            } else {
                self.tokens.len() as int
            },
        }
    }
}

/// The position of a cursor lies within its tokens or just behind them, and
/// is a position that the machine can hold.
pub broadcast proof fn lemma_scanner_wf(s: Scanner)
    ensures
        (#[trigger] s@).wf(),
        s@.tokens.len() <= usize::MAX,
{
}

impl Scanner {
    #[verifier::type_invariant]
    spec fn in_range(self) -> bool {
        self.curr <= self.tokens.len()
    }

    /// A cursor that rests on the first of `tokens`.
    pub fn new(tokens: Vec<Token>) -> (r: Self)
        ensures
            r@.tokens == tokens_view(tokens@),
            r@.curr == 0,
    {
        Self { tokens, curr: 0 }
    }

    /// The position of the current token; the number of tokens behind the
    /// last of them.
    pub fn position(&self) -> (r: usize)
        ensures
            r == self@.curr,
    {
        proof {
            use_type_invariant(self);
        }
        self.curr
    }

    /// The current token.
    pub fn current_debug(&self) -> (r: Option<&Token>)
        ensures
            read_view(r) == self@.at(0),
    {
        proof {
            use_type_invariant(self);
        }
        if self.curr < self.tokens.len() {
            Some(&self.tokens[self.curr])
        } else {
            None
        }
    }

    /// Moves to the next token and hands it out.
    pub fn get_next_token(&mut self) -> (r: Option<&Token>)
        ensures
            final(self)@ == old(self)@.moved(1),
            read_view(r) == final(self)@.at(0),
    {
        proof {
            use_type_invariant(&*self);
        }
        if self.curr < self.tokens.len() {
            self.curr += 1;
        }
        if self.curr < self.tokens.len() {
            Some(&self.tokens[self.curr])
        } else {
            None
        }
    }

    /// Hands out the current token and moves behind it.
    pub fn consume_token(&mut self) -> (r: Option<&Token>)
        ensures
            final(self)@ == old(self)@.moved(1),
            read_view(r) == old(self)@.at(0),
    {
        proof {
            use_type_invariant(&*self);
        }
        if self.curr < self.tokens.len() {
            self.curr += 1;
            Some(&self.tokens[self.curr - 1])
        } else {
            None
        }
    }

    /// The token behind the current one.
    pub fn peek1(&self) -> (r: Option<&Token>)
        ensures
            read_view(r) == self@.at(1),
    {
        proof {
            use_type_invariant(self);
        }
        if self.tokens.len() - self.curr > 1 {
            Some(&self.tokens[self.curr + 1])
        } else {
            None
        }
    }

    /// Moves to the next token.
    pub fn advance(&mut self)
        ensures
            final(self)@ == old(self)@.moved(1),
    {
        proof {
            use_type_invariant(&*self);
        }
        if self.curr < self.tokens.len() {
            self.curr += 1;
        }
    }

    /// The token two places behind the current one.
    pub fn peek2(&self) -> (r: Option<&Token>)
        ensures
            read_view(r) == self@.at(2),
    {
        proof {
            use_type_invariant(self);
        }
        if self.tokens.len() - self.curr > 2 {
            Some(&self.tokens[self.curr + 2])
        } else {
            None
        }
    }
}

} // verus!
