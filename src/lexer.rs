use vstd::prelude::*;

use crate::stream::lemma_lexeme_bounds;
use crate::text::{chars_of, string_of};
use crate::token::{keyword_in, punctuation, punctuation_of, word_kind, Token, TokenKind};

verus! {

/// Space, tab, newline or carriage return: skipped between tokens.
pub open spec fn is_whitespace(c: char) -> bool {
    c == ' ' || c == '\t' || c == '\n' || c == '\r'
}

/// An ASCII letter.
pub open spec fn is_letter(c: char) -> bool {
    ('a' <= c && c <= 'z') || ('A' <= c && c <= 'Z')
}

/// An ASCII digit.
pub open spec fn is_digit(c: char) -> bool {
    '0' <= c && c <= '9'
}

/// A character that starts a word: a letter or an underscore.
pub open spec fn is_word_start(c: char) -> bool {
    is_letter(c) || c == '_'
}

/// A character that continues a word: a letter, a digit or an underscore.
pub open spec fn is_word_part(c: char) -> bool {
    is_letter(c) || is_digit(c) || c == '_'
}

/// The classes of characters over which the scanner takes maximal runs.
#[derive(Clone, Copy, Debug, PartialEq, Eq, Structural)]
pub enum CharClass {
    Whitespace,
    WordPart,
    Digit,
}

impl CharClass {
    pub open spec fn spec_contains(self, c: char) -> bool {
        match self {
            CharClass::Whitespace => is_whitespace(c),
            CharClass::WordPart => is_word_part(c),
            CharClass::Digit => is_digit(c),
        }
    }

    /// Whether `c` belongs to this class.
    #[verifier::when_used_as_spec(spec_contains)]
    pub fn contains(self, c: char) -> (r: bool)
        ensures
            r == self.spec_contains(c),
    {
        match self {
            CharClass::Whitespace => c == ' ' || c == '\t' || c == '\n' || c == '\r',
            CharClass::WordPart => ('a' <= c && c <= 'z') || ('A' <= c && c <= 'Z') || ('0' <= c
                && c <= '9') || c == '_',
            CharClass::Digit => '0' <= c && c <= '9',
        }
    }
}

/// Where the maximal run of `class` characters of `s` that begins at `p` ends.
pub open spec fn run_end(s: Seq<char>, p: int, class: CharClass) -> int
    decreases s.len() - p,
{
    if 0 <= p < s.len() && class.contains(s[p]) {
        run_end(s, p + 1, class)
    } else {
        p
    }
}

/// The token that a scan from offset `p` of `s` reads: its kind, and the
/// offsets at which its text starts and ends.
pub struct Lexeme {
    pub kind: TokenKind,
    pub start: int,
    pub end: int,
}

/// What one scan step reads from offset `p` of `s`: whitespace is skipped,
/// then one token is classified by the character it starts with.
pub open spec fn lexeme_at(s: Seq<char>, p: int) -> Lexeme {
    let start = run_end(s, p, CharClass::Whitespace);
    if start >= s.len() {
        Lexeme { kind: TokenKind::EOF, start, end: start }
    } else {
        let c = s[start];
        if is_word_start(c) {
            let end = run_end(s, start, CharClass::WordPart);
            Lexeme { kind: word_kind(s.subrange(start, end)), start, end }
        } else if is_digit(c) {
            Lexeme { kind: TokenKind::Integer, start, end: run_end(s, start, CharClass::Digit) }
        } else if c == '=' {
            if start + 1 < s.len() && s[start + 1] == '=' {
                Lexeme { kind: TokenKind::Equals, start, end: start + 2 }
            } else {
                Lexeme { kind: TokenKind::Assignment, start, end: start + 1 }
            }
        } else if c == '!' {
            if start + 1 < s.len() && s[start + 1] == '=' {
                Lexeme { kind: TokenKind::NotEquals, start, end: start + 2 }
            } else {
                Lexeme { kind: TokenKind::Bang, start, end: start + 1 }
            }
        } else {
            match punctuation_of(c) {
                Some(k) => Lexeme { kind: k, start, end: start + 1 },
                None => Lexeme { kind: TokenKind::Illegal, start, end: start + 1 },
            }
        }
    }
}

/// The token that a scan from offset `p` of `s` returns: its kind and its text.
pub open spec fn token_at(s: Seq<char>, p: int) -> (TokenKind, Seq<char>) {
    let l = lexeme_at(s, p);
    (l.kind, s.subrange(l.start, l.end))
}

/// The character at offset `i` of `s`, if there is one.
pub open spec fn char_at(s: Seq<char>, i: int) -> Option<char> {
    if 0 <= i < s.len() {
        Some(s[i])
    } else {
        None
    }
}

/// A scanner over one source text. It holds the text as a buffer of
/// characters and a cursor into it, the one piece of state that changes; the
/// current character is always read from the buffer at the cursor.
#[derive(Debug)]
pub struct Lexer {
    chars: Vec<char>,
    position: usize,
}

impl Lexer {
    #[verifier::type_invariant]
    spec fn cursor_in_bounds(&self) -> bool {
        self.position <= self.chars.len()
    }

    /// The source text.
    pub closed spec fn source(&self) -> Seq<char> {
        self.chars@
    }

    /// The offset of the cursor into the source text.
    pub closed spec fn cursor(&self) -> int {
        self.position as int
    }

    /// Creates a scanner over `input`, with the cursor at its start. Any text
    /// is accepted, the empty one included.
    pub fn new(input: &str) -> (r: Self)
        ensures
            r.source() == input@,
            r.cursor() == 0,
    {
        Lexer { chars: chars_of(input), position: 0 }
    }

    /// The offset of the cursor. It never exceeds the length of the text.
    pub fn position(&self) -> (r: usize)
        ensures
            r == self.cursor(),
            r <= self.source().len(),
    {
        proof {
            use_type_invariant(self);
        }
        self.position
    }

    /// The character at the cursor, if the cursor is not at the end.
    pub fn char(&self) -> (r: Option<char>)
        ensures
            r == char_at(self.source(), self.cursor()),
    {
        proof {
            use_type_invariant(self);
        }
        if self.position < self.chars.len() {
            Some(self.chars[self.position])
        } else {
            None
        }
    }

    /// The character just after the cursor, if there is one.
    pub fn next_char(&self) -> (r: Option<char>)
        ensures
            r == char_at(self.source(), self.cursor() + 1),
    {
        proof {
            use_type_invariant(self);
        }
        if self.position < self.chars.len() && self.position + 1 < self.chars.len() {
            Some(self.chars[self.position + 1])
        } else {
            None
        }
    }

    /// The next read position: the offset of the cursor.
    pub fn next(&self) -> (r: Option<usize>)
        ensures
            r == Some(self.cursor() as usize),
    {
        Some(self.position)
    }

    /// Whether a character is left to read.
    pub fn has_next(&self) -> (r: bool)
        ensures
            r == (self.cursor() < self.source().len()),
    {
        self.position < self.chars.len()
    }

    /// Moves the cursor one character forward, unless it is at the end.
    fn advance(&mut self)
        ensures
            final(self).source() == old(self).source(),
            final(self).cursor() <= final(self).source().len(),
            final(self).cursor() == (if old(self).cursor() < old(self).source().len() {
                old(self).cursor() + 1
            } else {
                old(self).cursor()
            }),
    {
        proof {
            use_type_invariant(&*self);
        }
        if self.position < self.chars.len() {
            self.position = self.position + 1;
        }
    }

    /// Moves the cursor over the maximal run of `class` characters that
    /// begins at it, and returns where that run starts and ends.
    fn discriminate_character(&mut self, class: CharClass) -> (r: (usize, usize))
        ensures
            final(self).source() == old(self).source(),
            old(self).cursor() <= final(self).cursor() <= final(self).source().len(),
            r.0 == old(self).cursor(),
            r.1 == run_end(old(self).source(), old(self).cursor(), class),
            final(self).cursor() == r.1,
    {
        proof {
            use_type_invariant(&*self);
        }
        let start = self.position;
        while self.position < self.chars.len() && class.contains(self.chars[self.position])
            invariant
                self.chars@ == old(self).chars@,
                start == old(self).position,
                start <= self.position <= self.chars.len(),
                run_end(self.chars@, start as int, class) == run_end(
                    self.chars@,
                    self.position as int,
                    class,
                ),
            decreases self.chars.len() - self.position,
        {
            self.position = self.position + 1;
        }
        (start, self.position)
    }

    /// Reads the next token and moves the cursor past it. Whitespace before
    /// it is skipped; a word, a number, `==` and `!=` are read whole; a
    /// character that starts no token gives `Illegal`. At the end of the text
    /// the result is `EOF`, and the cursor stays there.
    pub fn next_token(&mut self) -> (t: Token)
        ensures
            final(self).source() == old(self).source(),
            t@ == token_at(old(self).source(), old(self).cursor()),
            final(self).cursor() == lexeme_at(old(self).source(), old(self).cursor()).end,
            old(self).cursor() <= final(self).cursor() <= final(self).source().len(),
            t.kind != TokenKind::EOF ==> old(self).cursor() < final(self).cursor(),
            t.kind == TokenKind::EOF ==> final(self).cursor() == final(self).source().len(),
    {
        proof {
            use_type_invariant(&*self);
            lemma_lexeme_bounds(self.chars@, self.position as int);
        }
        self.discriminate_character(CharClass::Whitespace);
        let start = self.position;
        if start >= self.chars.len() {
            let t = Token { kind: TokenKind::EOF, literal: String::new() };
            assert(t.literal@ =~= self.chars@.subrange(start as int, start as int));
            return t;
        }
        let c = self.chars[start];
        let kind = if ('a' <= c && c <= 'z') || ('A' <= c && c <= 'Z') || c == '_' {
            self.discriminate_character(CharClass::WordPart);
            match keyword_in(&self.chars, start, self.position) {
                Some(k) => k,
                None => TokenKind::Identifier,
            }
        } else if '0' <= c && c <= '9' {
            self.discriminate_character(CharClass::Digit);
            TokenKind::Integer
        } else if c == '=' {
            self.advance();
            match self.char() {
                Some('=') => {
                    self.advance();
                    TokenKind::Equals
                },
                _ => TokenKind::Assignment,
            }
        } else if c == '!' {
            self.advance();
            match self.char() {
                Some('=') => {
                    self.advance();
                    TokenKind::NotEquals
                },
                _ => TokenKind::Bang,
            }
        } else {
            self.advance();
            match punctuation(c) {
                Some(k) => k,
                None => TokenKind::Illegal,
            }
        };
        Token { kind, literal: string_of(&self.chars, start, self.position) }
    }

    /// Reads the next token: the same step as `next_token`.
    pub fn tokenize(&mut self) -> (t: Token)
        ensures
            final(self).source() == old(self).source(),
            t@ == token_at(old(self).source(), old(self).cursor()),
            final(self).cursor() == lexeme_at(old(self).source(), old(self).cursor()).end,
            old(self).cursor() <= final(self).cursor() <= final(self).source().len(),
            t.kind != TokenKind::EOF ==> old(self).cursor() < final(self).cursor(),
            t.kind == TokenKind::EOF ==> final(self).cursor() == final(self).source().len(),
    {
        self.next_token()
    }
}

} // verus!
