//! Tokens: their kinds, the keyword table, and the token record.
use vstd::prelude::*;

verus! {

/// The closed set of token kinds.
#[derive(Debug, Clone, Copy, PartialEq, Eq, Structural)]
pub enum TokenType {
    // Single-character tokens.
    Dot,
    Comma,
    Semicolon,
    Plus,
    Minus,
    Star,
    LeftParen,
    RightParen,
    LeftBrace,
    RightBrace,
    Slash,
    // One or two character tokens.
    Bang,
    BangEqual,
    Equal,
    EqualEqual,
    Greater,
    GreaterEqual,
    Less,
    LessEqual,
    // Literals.
    Identifier,
    String,
    Number,
    // Keywords.
    And,
    Class,
    Else,
    False,
    Fun,
    For,
    If,
    Nil,
    Or,
    Print,
    Return,
    Super,
    This,
    True,
    Var,
    While,
    EOF,
}

/// One scanned token. `number` holds the IEEE-754 binary64 encoding of a numeric
/// literal's value once the host has decoded it; it is `None` for other tokens.
#[derive(Debug)]
pub struct TokenInfo {
    pub token_type: TokenType,
    pub line: usize,
    pub lexeme: String,
    pub number: Option<u64>,
}

impl Clone for TokenInfo {
    fn clone(&self) -> (r: Self)
        ensures
            r == *self,
    {
        TokenInfo {
            token_type: self.token_type,
            line: self.line,
            lexeme: self.lexeme.clone(),
            number: self.number,
        }
    }
}

/// The keyword that a word spells, if any.
pub open spec fn keyword_of(w: Seq<char>) -> Option<TokenType> {
    if w == seq!['a', 'n', 'd'] {
        Some(TokenType::And)
    } else if w == seq!['c', 'l', 'a', 's', 's'] {
        Some(TokenType::Class)
    } else if w == seq!['e', 'l', 's', 'e'] {
        Some(TokenType::Else)
    } else if w == seq!['f', 'a', 'l', 's', 'e'] {
        Some(TokenType::False)
    } else if w == seq!['f', 'u', 'n'] {
        Some(TokenType::Fun)
    } else if w == seq!['f', 'o', 'r'] {
        Some(TokenType::For)
    } else if w == seq!['i', 'f'] {
        Some(TokenType::If)
    } else if w == seq!['n', 'i', 'l'] {
        Some(TokenType::Nil)
    } else if w == seq!['o', 'r'] {
        Some(TokenType::Or)
    } else if w == seq!['p', 'r', 'i', 'n', 't'] {
        Some(TokenType::Print)
    } else if w == seq!['r', 'e', 't', 'u', 'r', 'n'] {
        Some(TokenType::Return)
    } else if w == seq!['s', 'u', 'p', 'e', 'r'] {
        Some(TokenType::Super)
    } else if w == seq!['t', 'h', 'i', 's'] {
        Some(TokenType::This)
    } else if w == seq!['t', 'r', 'u', 'e'] {
        Some(TokenType::True)
    } else if w == seq!['v', 'a', 'r'] {
        Some(TokenType::Var)
    } else if w == seq!['w', 'h', 'i', 'l', 'e'] {
        Some(TokenType::While)
    } else {
        None
    }
}

/// Whether `w[from..to]` spells exactly `word`.
fn spells(w: &[char], from: usize, to: usize, word: &[char]) -> (r: bool)
    requires
        from <= to <= w@.len(),
    ensures
        r == (w@.subrange(from as int, to as int) == word@),
{
    if to - from != word.len() {
        assert(w@.subrange(from as int, to as int).len() != word@.len());
        return false;
    }
    let mut i: usize = 0;
    while i < word.len()
        invariant
            to - from == word@.len(),
            from <= to <= w@.len(),
            i <= word@.len(),
            forall|k: int| 0 <= k < i ==> w@[from + k] == word@[k],
        decreases word@.len() - i,
    {
        if w[from + i] != word[i] {
            assert(w@.subrange(from as int, to as int)[i as int] != word@[i as int]);
            return false;
        }
        i = i + 1;
    }
    assert(w@.subrange(from as int, to as int) =~= word@);
    true
}

/// Looks up the keyword spelled by `w[from..to]`.
pub fn keyword(w: &[char], from: usize, to: usize) -> (r: Option<TokenType>)
    requires
        from <= to <= w@.len(),
    ensures
        r == keyword_of(w@.subrange(from as int, to as int)),
{
    if spells(w, from, to, &['a', 'n', 'd']) {
        Some(TokenType::And)
    } else if spells(w, from, to, &['c', 'l', 'a', 's', 's']) {
        Some(TokenType::Class)
    } else if spells(w, from, to, &['e', 'l', 's', 'e']) {
        Some(TokenType::Else)
    } else if spells(w, from, to, &['f', 'a', 'l', 's', 'e']) {
        Some(TokenType::False)
    } else if spells(w, from, to, &['f', 'u', 'n']) {
        Some(TokenType::Fun)
    } else if spells(w, from, to, &['f', 'o', 'r']) {
        Some(TokenType::For)
    } else if spells(w, from, to, &['i', 'f']) {
        Some(TokenType::If)
    } else if spells(w, from, to, &['n', 'i', 'l']) {
        Some(TokenType::Nil)
    } else if spells(w, from, to, &['o', 'r']) {
        Some(TokenType::Or)
    } else if spells(w, from, to, &['p', 'r', 'i', 'n', 't']) {
        Some(TokenType::Print)
    } else if spells(w, from, to, &['r', 'e', 't', 'u', 'r', 'n']) {
        Some(TokenType::Return)
    } else if spells(w, from, to, &['s', 'u', 'p', 'e', 'r']) {
        Some(TokenType::Super)
    } else if spells(w, from, to, &['t', 'h', 'i', 's']) {
        Some(TokenType::This)
    } else if spells(w, from, to, &['t', 'r', 'u', 'e']) {
        Some(TokenType::True)
    } else if spells(w, from, to, &['v', 'a', 'r']) {
        Some(TokenType::Var)
    } else if spells(w, from, to, &['w', 'h', 'i', 'l', 'e']) {
        Some(TokenType::While)
    } else {
        None
    }
}

} // verus!
