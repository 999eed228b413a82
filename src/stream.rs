use vstd::prelude::*;

use crate::lexer::{
    char_at, is_digit, is_whitespace, is_word_part, is_word_start, lexeme_at, run_end, token_at,
    CharClass,
};
use crate::token::{word_kind, TokenKind};

verus! {

/// Where the cursor stands after `n` scan steps from offset `p` of `s`.
pub open spec fn cursor_after(s: Seq<char>, p: int, n: nat) -> int
    decreases n,
{
    if n == 0 {
        p
    } else {
        lexeme_at(s, cursor_after(s, p, (n - 1) as nat)).end
    }
}

/// Every token that scan steps from offset `p` of `s` return, up to and
/// including the first `EOF`.
pub open spec fn tokens_from(s: Seq<char>, p: int) -> Seq<(TokenKind, Seq<char>)>
    decreases s.len() - p,
    via tokens_from_decreases
{
    if 0 <= p <= s.len() && lexeme_at(s, p).kind != TokenKind::EOF {
        seq![token_at(s, p)] + tokens_from(s, lexeme_at(s, p).end)
    } else {
        seq![token_at(s, p)]
    }
}

#[via_fn]
proof fn tokens_from_decreases(s: Seq<char>, p: int) {
    if 0 <= p <= s.len() {
        lemma_lexeme_bounds(s, p);
    }
}

/// The texts of `ts`, joined in order.
pub open spec fn concat_literals(ts: Seq<(TokenKind, Seq<char>)>) -> Seq<char>
    decreases ts.len(),
{
    if ts.len() == 0 {
        Seq::empty()
    } else {
        ts[0].1 + concat_literals(ts.drop_first())
    }
}

/// `s` with every whitespace character taken out.
pub open spec fn without_whitespace(s: Seq<char>) -> Seq<char> {
    s.filter(|c: char| !is_whitespace(c))
}

/// The run of `class` characters from `p` stays within the text, holds only
/// `class` characters, and stops at the end or before one outside `class`.
pub proof fn lemma_run_end_bounds(s: Seq<char>, p: int, class: CharClass)
    requires
        0 <= p <= s.len(),
    ensures
        p <= run_end(s, p, class) <= s.len(),
        forall|k: int| p <= k < run_end(s, p, class) ==> class.spec_contains(#[trigger] s[k]),
        run_end(s, p, class) == s.len() || !class.spec_contains(s[run_end(s, p, class)]),
    decreases s.len() - p,
{
    if p < s.len() && class.spec_contains(s[p]) {
        lemma_run_end_bounds(s, p + 1, class);
    }
}

/// A scan step from a cursor within the text skips only whitespace, reads a
/// token whose text holds no whitespace, and leaves the cursor within the
/// text, never behind where it was; a step that does not return `EOF` moves
/// it forward, and one that does leaves it at the end.
pub proof fn lemma_lexeme_bounds(s: Seq<char>, p: int)
    requires
        0 <= p <= s.len(),
    ensures
        p <= lexeme_at(s, p).start <= lexeme_at(s, p).end <= s.len(),
        forall|k: int|
            p <= k < lexeme_at(s, p).start ==> is_whitespace(#[trigger] s[k]),
        forall|k: int|
            lexeme_at(s, p).start <= k < lexeme_at(s, p).end ==> !is_whitespace(#[trigger] s[k]),
        (lexeme_at(s, p).kind == TokenKind::EOF) == (lexeme_at(s, p).start == s.len()),
        lexeme_at(s, p).kind == TokenKind::EOF ==> lexeme_at(s, p).end == s.len(),
        lexeme_at(s, p).kind != TokenKind::EOF ==> lexeme_at(s, p).start < lexeme_at(s, p).end,
{
    lemma_run_end_bounds(s, p, CharClass::Whitespace);
    let start = run_end(s, p, CharClass::Whitespace);
    if start < s.len() {
        let c = s[start];
        if is_word_start(c) {
            lemma_run_end_bounds(s, start, CharClass::WordPart);
        } else if is_digit(c) {
            lemma_run_end_bounds(s, start, CharClass::Digit);
        }
    }
}

/// Once a scan step returns `EOF`, the cursor stands at the end of the text,
/// and every later step returns `EOF` again, with empty text, without moving
/// it.
pub proof fn lemma_eof_repeats(s: Seq<char>, p: int, n: nat)
    requires
        0 <= p <= s.len(),
        token_at(s, p).0 == TokenKind::EOF,
    ensures
        token_at(s, cursor_after(s, p, n)) == (TokenKind::EOF, Seq::<char>::empty()),
        cursor_after(s, p, n + 1) == s.len(),
    decreases n,
{
    lemma_lexeme_bounds(s, p);
    lemma_lexeme_bounds(s, s.len() as int);
    if n > 0 {
        lemma_eof_repeats(s, p, (n - 1) as nat);
    }
    let q = cursor_after(s, p, n);
    assert(s.subrange(lexeme_at(s, q).start, lexeme_at(s, q).end) =~= Seq::<char>::empty());
}

proof fn lemma_filter_keeps_all(t: Seq<char>, pred: spec_fn(char) -> bool)
    requires
        forall|k: int| 0 <= k < t.len() ==> pred(#[trigger] t[k]),
    ensures
        t.filter(pred) == t,
    decreases t.len(),
{
    reveal(Seq::filter);
    if t.len() > 0 {
        lemma_filter_keeps_all(t.drop_last(), pred);
        assert(t.drop_last().push(t.last()) =~= t);
    }
}

proof fn lemma_filter_drops_all(t: Seq<char>, pred: spec_fn(char) -> bool)
    requires
        forall|k: int| 0 <= k < t.len() ==> !pred(#[trigger] t[k]),
    ensures
        t.filter(pred) == Seq::<char>::empty(),
    decreases t.len(),
{
    reveal(Seq::filter);
    if t.len() > 0 {
        lemma_filter_drops_all(t.drop_last(), pred);
    }
}

proof fn lemma_literals_cover_rest(s: Seq<char>, p: int)
    requires
        0 <= p <= s.len(),
    ensures
        concat_literals(tokens_from(s, p)) == without_whitespace(s.subrange(p, s.len() as int)),
    decreases s.len() - p,
{
    let pred = |c: char| !is_whitespace(c);
    let l = lexeme_at(s, p);
    lemma_lexeme_bounds(s, p);
    let gap = s.subrange(p, l.start);
    let lit = s.subrange(l.start, l.end);
    let rest = s.subrange(l.end, s.len() as int);
    lemma_filter_drops_all(gap, pred);
    lemma_filter_keeps_all(lit, pred);
    assert(s.subrange(p, s.len() as int) =~= gap + lit + rest);
    Seq::filter_distributes_over_add(gap + lit, rest, pred);
    Seq::filter_distributes_over_add(gap, lit, pred);
    let ts = tokens_from(s, p);
    if l.kind == TokenKind::EOF {
        assert(lit =~= Seq::<char>::empty());
        assert(rest =~= Seq::<char>::empty());
        assert(ts.drop_first() =~= Seq::empty());
        assert(concat_literals(ts.drop_first()) == Seq::<char>::empty());
        assert(concat_literals(ts) =~= Seq::<char>::empty());
        lemma_filter_drops_all(rest, pred);
    } else {
        lemma_literals_cover_rest(s, l.end);
        assert(ts.drop_first() =~= tokens_from(s, l.end));
    }
    assert(concat_literals(ts) =~= without_whitespace(s.subrange(p, s.len() as int)));
}

/// Joining the texts of all tokens read from `s`, in order, gives `s` with
/// only its whitespace taken out: every other character lies in exactly one
/// token.
pub proof fn lemma_literals_cover_input(s: Seq<char>)
    ensures
        concat_literals(tokens_from(s, 0)) == without_whitespace(s),
{
    lemma_literals_cover_rest(s, 0);
    assert(s.subrange(0, s.len() as int) =~= s);
}

/// A word or a number is read whole before it is classified: its text is a
/// maximal run of word (or digit) characters, and a word is a keyword only
/// when it spells one exactly.
pub proof fn lemma_maximal_munch(s: Seq<char>, p: int)
    requires
        0 <= p <= s.len(),
    ensures
        ({
            let l = lexeme_at(s, p);
            l.start < s.len() && is_word_start(s[l.start]) ==> {
                &&& forall|k: int| l.start <= k < l.end ==> is_word_part(#[trigger] s[k])
                &&& l.end == s.len() || !is_word_part(s[l.end])
                &&& l.kind == word_kind(s.subrange(l.start, l.end))
            }
        }),
        ({
            let l = lexeme_at(s, p);
            l.start < s.len() && is_digit(s[l.start]) ==> {
                &&& forall|k: int| l.start <= k < l.end ==> is_digit(#[trigger] s[k])
                &&& l.end == s.len() || !is_digit(s[l.end])
                &&& l.kind == TokenKind::Integer
            }
        }),
{
    lemma_run_end_bounds(s, p, CharClass::Whitespace);
    let start = run_end(s, p, CharClass::Whitespace);
    if start < s.len() {
        lemma_run_end_bounds(s, start, CharClass::WordPart);
        lemma_run_end_bounds(s, start, CharClass::Digit);
    }
}

/// `=` and `!` look one character ahead: followed by `=` they give one
/// two-character token (`==`, `!=`), otherwise one single-character token
/// (`=`, `!`).
pub proof fn lemma_two_char_operators(s: Seq<char>, p: int)
    requires
        0 <= p <= s.len(),
    ensures
        ({
            let l = lexeme_at(s, p);
            l.start < s.len() && s[l.start] == '=' ==> if char_at(s, l.start + 1) == Some('=') {
                token_at(s, p) == (TokenKind::Equals, seq!['=', '=']) && l.end == l.start + 2
            } else {
                token_at(s, p) == (TokenKind::Assignment, seq!['=']) && l.end == l.start + 1
            }
        }),
        ({
            let l = lexeme_at(s, p);
            l.start < s.len() && s[l.start] == '!' ==> if char_at(s, l.start + 1) == Some('=') {
                token_at(s, p) == (TokenKind::NotEquals, seq!['!', '=']) && l.end == l.start + 2
            } else {
                token_at(s, p) == (TokenKind::Bang, seq!['!']) && l.end == l.start + 1
            }
        }),
{
    lemma_lexeme_bounds(s, p);
    let l = lexeme_at(s, p);
    if l.start < s.len() && (s[l.start] == '=' || s[l.start] == '!') {
        if char_at(s, l.start + 1) == Some('=') {
            assert(s.subrange(l.start, l.end) =~= seq![s[l.start], '=']);
        } else {
            assert(s.subrange(l.start, l.end) =~= seq![s[l.start]]);
        }
    }
}

proof fn lemma_cursor_after_shift(s: Seq<char>, p: int, i: nat)
    ensures
        cursor_after(s, p, i + 1) == cursor_after(s, lexeme_at(s, p).end, i),
    decreases i,
{
    let e = lexeme_at(s, p).end;
    assert(cursor_after(s, p, i + 1) == lexeme_at(s, cursor_after(s, p, i)).end);
    if i > 0 {
        lemma_cursor_after_shift(s, p, (i - 1) as nat);
        assert(cursor_after(s, e, i) == lexeme_at(s, cursor_after(s, e, (i - 1) as nat)).end);
    }
}

/// `tokens_from(s, p)` lists what successive scan steps from `p` return: the
/// `i`-th step returns its `i`-th entry, every step but the last returns a
/// token other than `EOF`, the last returns `EOF`, and there is at most one
/// step more than characters left.
pub proof fn lemma_tokens_are_successive_steps(s: Seq<char>, p: int)
    requires
        0 <= p <= s.len(),
    ensures
        1 <= tokens_from(s, p).len() <= s.len() - p + 1,
        forall|i: int|
            0 <= i < tokens_from(s, p).len() ==> #[trigger] tokens_from(s, p)[i] == token_at(
                s,
                cursor_after(s, p, i as nat),
            ),
        forall|i: int|
            0 <= i < tokens_from(s, p).len() - 1 ==> (#[trigger] tokens_from(s, p)[i]).0
                != TokenKind::EOF,
        tokens_from(s, p).last().0 == TokenKind::EOF,
    decreases s.len() - p,
{
    let l = lexeme_at(s, p);
    let ts = tokens_from(s, p);
    lemma_lexeme_bounds(s, p);
    if l.kind != TokenKind::EOF {
        let rest = tokens_from(s, l.end);
        lemma_tokens_are_successive_steps(s, l.end);
        assert(ts =~= seq![token_at(s, p)] + rest);
        assert forall|i: int| 0 < i < ts.len() implies #[trigger] ts[i] == token_at(
            s,
            cursor_after(s, p, i as nat),
        ) by {
            assert(ts[i] == rest[i - 1]);
            lemma_cursor_after_shift(s, p, (i - 1) as nat);
        }
        assert forall|i: int| 0 < i < ts.len() - 1 implies (#[trigger] ts[i]).0
            != TokenKind::EOF by {
            assert(ts[i] == rest[i - 1]);
        }
    }
}

/// Scanning `s` call after call from its start, where the `k`-th call is the
/// first to return `EOF`: there are at most one more calls than characters,
/// and the texts of the tokens returned, joined in order, give `s` with only
/// its whitespace taken out.
pub proof fn lemma_steps_cover_input(s: Seq<char>, k: nat)
    requires
        k >= 1,
        forall|i: nat|
            i < k - 1 ==> token_at(s, #[trigger] cursor_after(s, 0, i)).0 != TokenKind::EOF,
        token_at(s, cursor_after(s, 0, (k - 1) as nat)).0 == TokenKind::EOF,
    ensures
        k <= s.len() + 1,
        concat_literals(Seq::new(k, |i: int| token_at(s, cursor_after(s, 0, i as nat))))
            == without_whitespace(s),
{
    let ts = tokens_from(s, 0);
    lemma_tokens_are_successive_steps(s, 0);
    if k < ts.len() {
        assert(ts[k - 1] == token_at(s, cursor_after(s, 0, (k - 1) as nat)));
    } else if k > ts.len() {
        let j = (ts.len() - 1) as nat;
        assert(ts[j as int] == token_at(s, cursor_after(s, 0, j)));
    }
    assert(Seq::new(k, |i: int| token_at(s, cursor_after(s, 0, i as nat))) =~= ts);
    lemma_literals_cover_input(s);
}

} // verus!
