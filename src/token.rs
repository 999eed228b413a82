use vstd::prelude::*;

use crate::text::chars_of;

verus! {

/// The class of a token.
#[derive(Clone, Copy, Debug, PartialEq, Eq, Structural)]
pub enum TokenKind {
    // literals
    Identifier,
    Integer,
    // keywords
    Let,
    Function,
    True,
    False,
    If,
    Else,
    Return,
    // single-character punctuation
    LeftParen,
    RightParen,
    LeftBrace,
    RightBrace,
    LeftBracket,
    RightBracket,
    Comma,
    Semicolon,
    Ampersand,
    Asperand,
    Caret,
    Dollar,
    Pound,
    Tilde,
    Underscore,
    // single-character operators
    Plus,
    Minus,
    Asterisk,
    Slash,
    Percent,
    LessThan,
    GreaterThan,
    // operators told apart by one character of lookahead
    Assignment,
    Equals,
    Bang,
    NotEquals,
    // recovery and end of input
    Illegal,
    EOF,
}

/// One classified unit of source text: its kind and the exact text it was
/// read from (empty for `EOF`).
#[derive(Clone, Debug)]
pub struct Token {
    pub kind: TokenKind,
    pub literal: String,
}

/// The reserved word spelled exactly by `word`, if any.
pub open spec fn keyword_of(word: Seq<char>) -> Option<TokenKind> {
    if word == seq!['l', 'e', 't'] {
        Some(TokenKind::Let)
    } else if word == seq!['f', 'u', 'n', 'c'] {
        Some(TokenKind::Function)
    } else if word == seq!['t', 'r', 'u', 'e'] {
        Some(TokenKind::True)
    } else if word == seq!['f', 'a', 'l', 's', 'e'] {
        Some(TokenKind::False)
    } else if word == seq!['i', 'f'] {
        Some(TokenKind::If)
    } else if word == seq!['e', 'l', 's', 'e'] {
        Some(TokenKind::Else)
    } else if word == seq!['r', 'e', 't', 'u', 'r', 'n'] {
        Some(TokenKind::Return)
    } else {
        None
    }
}

/// The kind of a word read by maximal munch: its keyword, or `Identifier`.
pub open spec fn word_kind(word: Seq<char>) -> TokenKind {
    match keyword_of(word) {
        Some(k) => k,
        None => TokenKind::Identifier,
    }
}

/// The kind of a character that forms a token on its own, if it is one.
pub open spec fn punctuation_of(c: char) -> Option<TokenKind> {
    match c {
        '(' => Some(TokenKind::LeftParen),
        ')' => Some(TokenKind::RightParen),
        '{' => Some(TokenKind::LeftBrace),
        '}' => Some(TokenKind::RightBrace),
        '[' => Some(TokenKind::LeftBracket),
        ']' => Some(TokenKind::RightBracket),
        ',' => Some(TokenKind::Comma),
        ';' => Some(TokenKind::Semicolon),
        '&' => Some(TokenKind::Ampersand),
        '@' => Some(TokenKind::Asperand),
        '^' => Some(TokenKind::Caret),
        '$' => Some(TokenKind::Dollar),
        '#' => Some(TokenKind::Pound),
        '~' => Some(TokenKind::Tilde),
        '_' => Some(TokenKind::Underscore),
        '+' => Some(TokenKind::Plus),
        '-' => Some(TokenKind::Minus),
        '*' => Some(TokenKind::Asterisk),
        '/' => Some(TokenKind::Slash),
        '%' => Some(TokenKind::Percent),
        '<' => Some(TokenKind::LessThan),
        '>' => Some(TokenKind::GreaterThan),
        _ => None,
    }
}

/// Whether `chars[start..end]` spells `word`.
fn spells(chars: &Vec<char>, start: usize, end: usize, word: &[char]) -> (r: bool)
    requires
        start <= end <= chars.len(),
    ensures
        r == (chars@.subrange(start as int, end as int) == word@),
{
    if end - start != word.len() {
        return false;
    }
    let mut i: usize = 0;
    while i < word.len()
        invariant
            start <= end <= chars.len(),
            end - start == word.len(),
            i <= word.len(),
            forall|j: int| 0 <= j < i ==> chars@[start + j] == word@[j],
        decreases word.len() - i,
    {
        if chars[start + i] != word[i] {
            assert(chars@.subrange(start as int, end as int)[i as int] != word@[i as int]);
            return false;
        }
        i = i + 1;
    }
    assert(chars@.subrange(start as int, end as int) =~= word@);
    true
}

/// Looks `chars[start..end]` up in the keyword table.
pub fn keyword_in(chars: &Vec<char>, start: usize, end: usize) -> (r: Option<TokenKind>)
    requires
        start <= end <= chars.len(),
    ensures
        r == keyword_of(chars@.subrange(start as int, end as int)),
{
    if spells(chars, start, end, &['l', 'e', 't']) {
        Some(TokenKind::Let)
    } else if spells(chars, start, end, &['f', 'u', 'n', 'c']) {
        Some(TokenKind::Function)
    } else if spells(chars, start, end, &['t', 'r', 'u', 'e']) {
        Some(TokenKind::True)
    } else if spells(chars, start, end, &['f', 'a', 'l', 's', 'e']) {
        Some(TokenKind::False)
    } else if spells(chars, start, end, &['i', 'f']) {
        Some(TokenKind::If)
    } else if spells(chars, start, end, &['e', 'l', 's', 'e']) {
        Some(TokenKind::Else)
    } else if spells(chars, start, end, &['r', 'e', 't', 'u', 'r', 'n']) {
        Some(TokenKind::Return)
    } else {
        None
    }
}

/// The kind of a character that forms a token on its own, if it is one.
pub fn punctuation(c: char) -> (r: Option<TokenKind>)
    ensures
        r == punctuation_of(c),
{
    match c {
        '(' => Some(TokenKind::LeftParen),
        ')' => Some(TokenKind::RightParen),
        '{' => Some(TokenKind::LeftBrace),
        '}' => Some(TokenKind::RightBrace),
        '[' => Some(TokenKind::LeftBracket),
        ']' => Some(TokenKind::RightBracket),
        ',' => Some(TokenKind::Comma),
        ';' => Some(TokenKind::Semicolon),
        '&' => Some(TokenKind::Ampersand),
        '@' => Some(TokenKind::Asperand),
        '^' => Some(TokenKind::Caret),
        '$' => Some(TokenKind::Dollar),
        '#' => Some(TokenKind::Pound),
        '~' => Some(TokenKind::Tilde),
        '_' => Some(TokenKind::Underscore),
        '+' => Some(TokenKind::Plus),
        '-' => Some(TokenKind::Minus),
        '*' => Some(TokenKind::Asterisk),
        '/' => Some(TokenKind::Slash),
        '%' => Some(TokenKind::Percent),
        '<' => Some(TokenKind::LessThan),
        '>' => Some(TokenKind::GreaterThan),
        _ => None,
    }
}

impl View for Token {
    type V = (TokenKind, Seq<char>);

    open spec fn view(&self) -> (TokenKind, Seq<char>) {
        (self.kind, self.literal@)
    }
}

impl PartialEq for Token {
    fn eq(&self, other: &Token) -> (r: bool)
        ensures
            r == (self@ == other@),
    {
        self.kind == other.kind && self.literal == other.literal
    }
}

impl vstd::std_specs::cmp::PartialEqSpecImpl for Token {
    open spec fn obeys_eq_spec() -> bool {
        true
    }

    open spec fn eq_spec(&self, other: &Token) -> bool {
        self@ == other@
    }
}

impl Token {
    /// Builds a token of the given kind over the given text.
    pub fn new(kind: TokenKind, literal: &str) -> (t: Token)
        ensures
            t@ == (kind, literal@),
    {
        Token { kind, literal: String::from_str(literal) }
    }

    /// Classifies a word read by maximal munch: the keyword that it spells
    /// exactly, else `Identifier`; the literal is the word itself.
    pub fn check_if_keyword(keyword_str: String) -> (t: Token)
        ensures
            t@ == (word_kind(keyword_str@), keyword_str@),
    {
        let chars = chars_of(keyword_str.as_str());
        let kind = match keyword_in(&chars, 0, chars.len()) {
            Some(k) => k,
            None => TokenKind::Identifier,
        };
        proof {
            assert(chars@.subrange(0, chars@.len() as int) =~= keyword_str@);
        }
        Token { kind, literal: keyword_str }
    }
}

} // verus!
