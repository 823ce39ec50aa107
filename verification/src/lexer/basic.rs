use vstd::prelude::*;
use super::token::{Token, TokenKind, TokenType, TokenTypeView, TokenView, kind_text};
use crate::text::string_from_chars;

verus! {

/// Why source text could not be split into tokens.
#[derive(Debug, Clone, Copy, PartialEq, Eq)]
pub enum LexError {
    /// A string literal is not closed before the end of the input.
    UnterminatedString,
    /// A character that starts no token.
    BadInput(char),
    /// An integer literal whose value does not fit a 32-bit signed integer.
    BadInteger,
}

/// The name of `char::is_alphabetic`: whether a character has the Unicode
/// Alphabetic property.
pub uninterp spec fn alphabetic(c: char) -> bool;

/// `char::is_alphabetic`. Its documentation gives the Unicode Alphabetic
/// property, which, among ASCII characters, only the letters have.
#[verifier::external_body]
pub(crate) fn is_alphabetic(c: char) -> (r: bool)
    ensures
        r == alphabetic(c),
        (c as u32) < 128 ==> (r <==> (('a' <= c && c <= 'z') || ('A' <= c && c <= 'Z'))),
{
    c.is_alphabetic()
}

/// An ASCII decimal digit.
pub open spec fn is_digit(c: char) -> bool {
    '0' <= c && c <= '9'
}

/// The index of the first character at or after `i` that is not a digit (or the length).
pub open spec fn digits_end(input: Seq<char>, i: nat) -> nat
    decreases input.len() - i,
{
    if i >= input.len() || !is_digit(input[i as int]) {
        i
    } else {
        digits_end(input, i + 1)
    }
}

/// Whether `c` is a letter as identifiers take them: among ASCII characters the
/// letters `a`..`z` and `A`..`Z`, and beyond ASCII the characters with the Unicode
/// Alphabetic property.
pub open spec fn is_letter(c: char) -> bool {
    if (c as u32) < 128 {
        ('a' <= c && c <= 'z') || ('A' <= c && c <= 'Z')
    } else {
        alphabetic(c)
    }
}

/// The index of the first character at or after `i` that is not alphabetic (or the length).
pub open spec fn letters_end(input: Seq<char>, i: nat) -> nat
    decreases input.len() - i,
{
    if i >= input.len() || !is_letter(input[i as int]) {
        i
    } else {
        letters_end(input, i + 1)
    }
}

/// The index of the first character at or after `i` that is `stop` (or the length).
pub open spec fn find_char(input: Seq<char>, i: nat, stop: char) -> nat
    decreases input.len() - i,
{
    if i >= input.len() || input[i as int] == stop {
        i
    } else {
        find_char(input, i + 1, stop)
    }
}

/// The number of line breaks in `s`.
pub open spec fn count_newlines(s: Seq<char>) -> nat
    decreases s.len(),
{
    if s.len() == 0 {
        0
    } else {
        count_newlines(s.drop_last()) + if s.last() == '\n' { 1nat } else { 0nat }
    }
}

/// The value of a sequence of decimal digits.
pub open spec fn decimal_value(s: Seq<char>) -> nat
    decreases s.len(),
{
    if s.len() == 0 {
        0
    } else {
        (decimal_value(s.drop_last()) * 10 + ((s.last() as int) - ('0' as int))) as nat
    }
}

/// The keyword spelled by `s`, if it is one.
pub open spec fn keyword(s: Seq<char>) -> Option<TokenTypeView> {
    if s == seq!['a', 'n', 'd'] {
        Some(TokenKind::And)
    } else if s == seq!['c', 'l', 'a', 's', 's'] {
        Some(TokenKind::Class)
    } else if s == seq!['e', 'l', 's', 'e'] {
        Some(TokenKind::Else)
    } else if s == seq!['f', 'a', 'l', 's', 'e'] {
        Some(TokenKind::False)
    } else if s == seq!['f', 'u', 'n'] {
        Some(TokenKind::Fun)
    } else if s == seq!['f', 'o', 'r'] {
        Some(TokenKind::For)
    } else if s == seq!['i', 'f'] {
        Some(TokenKind::If)
    } else if s == seq!['o', 'r'] {
        Some(TokenKind::Or)
    } else if s == seq!['r', 'e', 't', 'u', 'r', 'n'] {
        Some(TokenKind::Return)
    } else if s == seq!['s', 'u', 'p', 'e', 'r'] {
        Some(TokenKind::Super)
    } else if s == seq!['t', 'h', 'i', 's'] {
        Some(TokenKind::This)
    } else if s == seq!['t', 'r', 'u', 'e'] {
        Some(TokenKind::True)
    } else if s == seq!['l', 'e', 't'] {
        Some(TokenKind::Let)
    } else if s == seq!['w', 'h', 'i', 'l', 'e'] {
        Some(TokenKind::While)
    } else {
        None
    }
}

/// The token that a character stands for on its own, when it always does.
/// Square brackets are read as braces.
pub open spec fn single_char_token(c: char) -> Option<TokenTypeView> {
    if c == '(' {
        Some(TokenKind::LeftParen)
    } else if c == ')' {
        Some(TokenKind::RightParen)
    } else if c == '[' || c == '{' {
        Some(TokenKind::LeftBrace)
    } else if c == ']' || c == '}' {
        Some(TokenKind::RightBrace)
    } else if c == ',' {
        Some(TokenKind::Comma)
    } else if c == '.' {
        Some(TokenKind::Dot)
    } else if c == '+' {
        Some(TokenKind::Plus)
    } else if c == ';' {
        Some(TokenKind::Semicolon)
    } else if c == ':' {
        Some(TokenKind::Colon)
    } else if c == '*' {
        Some(TokenKind::Star)
    } else {
        None
    }
}

/// The tokens that a character stands for alone, or followed by a second
/// character: `-` and `->`, `!` and `!=`, `=` and `==`, `<` and `<=`, `>` and `>=`.
pub open spec fn pair_token(c: char) -> Option<(char, TokenTypeView, TokenTypeView)> {
    if c == '-' {
        Some(('>', TokenKind::Minus, TokenKind::Arrow))
    } else if c == '!' {
        Some(('=', TokenKind::Bang, TokenKind::BangEqual))
    } else if c == '=' {
        Some(('=', TokenKind::Equal, TokenKind::EqualEqual))
    } else if c == '<' {
        Some(('=', TokenKind::Less, TokenKind::LessEqual))
    } else if c == '>' {
        Some(('=', TokenKind::Greater, TokenKind::GreaterEqual))
    } else {
        None
    }
}

/// Where the lexer stands: the number of characters read, the current line,
/// and how deeply nested in block comments it is.
pub struct LexState {
    pub current: nat,
    pub line: nat,
    pub level: nat,
}

/// What reading one token from a state gives: nothing (the next state), a
/// token (the next state, the line it is reported on, and its kind), or an error.
pub enum Scanned {
    Skip(LexState),
    Emit(LexState, TokenTypeView),
    Fail(LexError),
}

/// Reads the token that starts at `st.current`, which is within the input.
pub open spec fn scan(input: Seq<char>, st: LexState) -> Scanned
    recommends
        st.current < input.len(),
{
    let cur = st.current;
    let c = input[cur as int];
    let n = cur + 1;
    let next_is = |d: char| n < input.len() && input[n as int] == d;
    if c == ' ' || c == '\r' || c == '\t' {
        Scanned::Skip(LexState { current: n, ..st })
    } else if c == '\n' {
        Scanned::Skip(LexState { current: n, line: st.line + 1, ..st })
    } else if st.level > 0 {
        if c == '*' && next_is('/') {
            Scanned::Skip(LexState { current: n + 1, level: (st.level - 1) as nat, ..st })
        } else {
            Scanned::Skip(LexState { current: n, ..st })
        }
    } else if single_char_token(c) is Some {
        Scanned::Emit(LexState { current: n, ..st }, single_char_token(c).unwrap())
    } else if pair_token(c) is Some {
        let (d, one, two) = pair_token(c).unwrap();
        if next_is(d) {
            Scanned::Emit(LexState { current: n + 1, ..st }, two)
        } else {
            Scanned::Emit(LexState { current: n, ..st }, one)
        }
    } else if c == '/' {
        if next_is('/') {
            Scanned::Skip(LexState { current: find_char(input, n + 1, '\n'), ..st })
        } else if next_is('*') {
            Scanned::Skip(LexState { current: n + 1, level: st.level + 1, ..st })
        } else {
            Scanned::Emit(LexState { current: n, ..st }, TokenKind::Slash)
        }
    } else if c == '"' {
        let e = find_char(input, n, '"');
        if e >= input.len() {
            Scanned::Fail(LexError::UnterminatedString)
        } else {
            let body = input.subrange(n as int, e as int);
            Scanned::Emit(
                LexState { current: e + 1, line: st.line + count_newlines(body), ..st },
                TokenKind::Str(body),
            )
        }
    } else if is_digit(c) {
        let e1 = digits_end(input, n);
        if e1 < input.len() && input[e1 as int] == '.' {
            let e2 = digits_end(input, e1 + 1);
            Scanned::Emit(
                LexState { current: e2, ..st },
                TokenKind::Float(input.subrange(cur as int, e2 as int)),
            )
        } else {
            let v = decimal_value(input.subrange(cur as int, e1 as int));
            if v <= i32::MAX {
                Scanned::Emit(LexState { current: e1, ..st }, TokenKind::Integer(v as i32))
            } else {
                Scanned::Fail(LexError::BadInteger)
            }
        }
    } else if is_letter(c) {
        let e = letters_end(input, n);
        let w = input.subrange(cur as int, e as int);
        Scanned::Emit(
            LexState { current: e, ..st },
            if keyword(w) is Some { keyword(w).unwrap() } else { TokenKind::Identifier(w) },
        )
    } else {
        Scanned::Fail(LexError::BadInput(c))
    }
}

pub proof fn lemma_find_char_bounds(input: Seq<char>, i: nat, stop: char)
    ensures
        i <= input.len() ==> i <= find_char(input, i, stop) <= input.len(),
    decreases input.len() - i,
{
    if i < input.len() && input[i as int] != stop {
        lemma_find_char_bounds(input, i + 1, stop);
    }
}

pub proof fn lemma_digits_end_bounds(input: Seq<char>, i: nat)
    ensures
        i <= input.len() ==> i <= digits_end(input, i) <= input.len(),
    decreases input.len() - i,
{
    if i < input.len() && is_digit(input[i as int]) {
        lemma_digits_end_bounds(input, i + 1);
    }
}

pub proof fn lemma_letters_end_bounds(input: Seq<char>, i: nat)
    ensures
        i <= input.len() ==> i <= letters_end(input, i) <= input.len(),
    decreases input.len() - i,
{
    if i < input.len() && is_letter(input[i as int]) {
        lemma_letters_end_bounds(input, i + 1);
    }
}

pub proof fn lemma_count_newlines_bound(s: Seq<char>)
    ensures
        count_newlines(s) <= s.len(),
    decreases s.len(),
{
    if s.len() > 0 {
        lemma_count_newlines_bound(s.drop_last());
    }
}

/// Reading a token always moves forward, and never past the end of the input;
/// the line number and comment depth grow by no more than the characters read.
pub proof fn lemma_scan_progress(input: Seq<char>, st: LexState)
    requires
        st.current < input.len(),
    ensures
        match scan(input, st) {
            Scanned::Skip(s2) => st.current < s2.current <= input.len() && s2.line + st.current
                <= st.line + s2.current && s2.level + st.current <= st.level + s2.current,
            Scanned::Emit(s2, _) => st.current < s2.current <= input.len() && s2.line + st.current
                <= st.line + s2.current && s2.level == st.level,
            Scanned::Fail(_) => true,
        },
{
    let n = st.current + 1;
    lemma_find_char_bounds(input, n + 1, '\n');
    lemma_find_char_bounds(input, n, '"');
    lemma_digits_end_bounds(input, n);
    lemma_letters_end_bounds(input, n);
    let e1 = digits_end(input, n);
    lemma_digits_end_bounds(input, e1 + 1);
    let e = find_char(input, n, '"');
    if e < input.len() {
        lemma_count_newlines_bound(input.subrange(n as int, e as int));
    }
}

/// The tokens of the rest of the input, from state `st` with the next token
/// starting at `start`: each token is reported with the line at its end and
/// the positions where it begins and ends, and an end-of-file token closes the list.
pub open spec fn lex_from(input: Seq<char>, st: LexState) -> Result<Seq<TokenView>, LexError>
    decreases input.len() - st.current,
{
    if st.current >= input.len() {
        Ok(seq![TokenView { line: st.line, begin: st.current, end: st.current, kind: TokenKind::Eof }])
    } else {
        proof {
            lemma_scan_progress(input, st);
        }
        match scan(input, st) {
            Scanned::Skip(s2) => lex_from(input, s2),
            Scanned::Emit(s2, k) => match lex_from(input, s2) {
                Ok(rest) => Ok(
                    seq![TokenView { line: s2.line, begin: st.current, end: s2.current, kind: k }]
                        + rest,
                ),
                Err(e) => Err(e),
            },
            Scanned::Fail(e) => Err(e),
        }
    }
}

/// The tokens of a whole input, starting on line 1 outside any comment.
pub open spec fn lex_all(input: Seq<char>) -> Result<Seq<TokenView>, LexError> {
    lex_from(input, LexState { current: 0, line: 1, level: 0 })
}

/// Whether `ts` is a token stream of the input from `from` to `end`: each token
/// lies within that range after the one before it, and exactly one end-of-file
/// token, empty and at `end`, closes it.
pub open spec fn ordered_stream(ts: Seq<TokenView>, from: nat, end: nat) -> bool {
    &&& ts.len() >= 1
    &&& ts.last().kind is Eof
    &&& ts.last().begin == end && ts.last().end == end
    &&& forall|i: int| 0 <= i < ts.len() - 1 ==> !(#[trigger] ts[i].kind is Eof)
    &&& forall|i: int| 0 <= i < ts.len() ==> from <= #[trigger] ts[i].begin <= ts[i].end <= end
    &&& forall|i: int, j: int| 0 <= i < j < ts.len() ==> #[trigger] ts[i].end <= #[trigger] ts[j].begin
}

/// A token that `scan` reads is never an end-of-file token.
proof fn lemma_scan_emits_no_eof(input: Seq<char>, st: LexState)
    requires
        st.current < input.len(),
    ensures
        scan(input, st) matches Scanned::Emit(_, k) ==> !(k is Eof),
{
}

/// The tokens from a state within the input form an ordered stream up to the
/// end of the input.
proof fn lemma_lex_from_ordered(input: Seq<char>, st: LexState)
    requires
        st.current <= input.len(),
        lex_from(input, st) is Ok,
    ensures
        ordered_stream(lex_from(input, st)->Ok_0, st.current, input.len()),
    decreases input.len() - st.current,
{
    if st.current < input.len() {
        lemma_scan_progress(input, st);
        lemma_scan_emits_no_eof(input, st);
        match scan(input, st) {
            Scanned::Skip(s2) => {
                lemma_lex_from_ordered(input, s2);
            },
            Scanned::Emit(s2, k) => {
                lemma_lex_from_ordered(input, s2);
                let rest = lex_from(input, s2)->Ok_0;
                let t = TokenView { line: s2.line, begin: st.current, end: s2.current, kind: k };
                let ts = seq![t] + rest;
                assert(lex_from(input, st)->Ok_0 == ts);
                assert forall|i: int| 0 <= i < ts.len() - 1 implies !(#[trigger] ts[i].kind is Eof) by {
                    if i > 0 {
                        assert(ts[i] == rest[i - 1]);
                    }
                }
                assert forall|i: int| 0 <= i < ts.len() implies st.current <= #[trigger] ts[i].begin <= ts[i].end
                    <= input.len() by {
                    if i > 0 {
                        assert(ts[i] == rest[i - 1]);
                    }
                }
                assert forall|i: int, j: int| 0 <= i < j < ts.len() implies #[trigger] ts[i].end
                    <= #[trigger] ts[j].begin by {
                    assert(ts[j] == rest[j - 1]);
                    if i > 0 {
                        assert(ts[i] == rest[i - 1]);
                    }
                }
            },
            Scanned::Fail(_) => {},
        }
    }
}

/// The tokens of a whole input, where it is split without error, run in order
/// through the input: each ends no later than the next begins, and exactly one
/// end-of-file token closes the stream, at the end of the input.
pub proof fn lemma_lex_stream(input: Seq<char>)
    requires
        lex_all(input) is Ok,
    ensures
        ordered_stream(lex_all(input)->Ok_0, 0, input.len()),
{
    lemma_lex_from_ordered(input, LexState { current: 0, line: 1, level: 0 });
}

/// How a reserved word of the language is spelt in source text: the text by
/// which messages name its token, but for `and` and `or`, which messages write
/// as `&&` and `||`.
pub open spec fn reserved_word(k: TokenTypeView) -> Option<Seq<char>> {
    match k {
        TokenKind::And => Some("and"@),
        TokenKind::Or => Some("or"@),
        TokenKind::Class | TokenKind::Else | TokenKind::False | TokenKind::Fun | TokenKind::For | TokenKind::If
        | TokenKind::Return | TokenKind::Super | TokenKind::This | TokenKind::True | TokenKind::Let
        | TokenKind::While => Some(kind_text(k)),
        _ => None,
    }
}

/// Whether `w` is a word of lowercase ASCII letters.
pub open spec fn lowercase_word(w: Seq<char>) -> bool {
    w.len() > 0 && forall|i: int| 0 <= i < w.len() ==> 'a' <= #[trigger] w[i] && w[i] <= 'z'
}

/// Every reserved word, and nothing else, is read as its keyword: the spelling
/// of each keyword token is a lowercase word that `keyword` maps back to it,
/// and a word that `keyword` maps to a token is that token's spelling.
pub proof fn lemma_reserved_words(k: TokenTypeView, w: Seq<char>)
    ensures
        reserved_word(k) matches Some(s) ==> lowercase_word(s) && keyword(s) == Some(k),
        keyword(w) == Some(k) ==> reserved_word(k) == Some(w),
{
    reveal_strlit("and");
    reveal_strlit("class");
    reveal_strlit("else");
    reveal_strlit("false");
    reveal_strlit("fun");
    reveal_strlit("for");
    reveal_strlit("if");
    reveal_strlit("or");
    reveal_strlit("return");
    reveal_strlit("super");
    reveal_strlit("this");
    reveal_strlit("true");
    reveal_strlit("let");
    reveal_strlit("while");
    match k {
        TokenKind::And => {
            assert("and"@ =~= seq!['a', 'n', 'd']);
        },
        TokenKind::Class => {
            assert("class"@ =~= seq!['c', 'l', 'a', 's', 's']);
        },
        TokenKind::Else => {
            assert("else"@ =~= seq!['e', 'l', 's', 'e']);
        },
        TokenKind::False => {
            assert("false"@ =~= seq!['f', 'a', 'l', 's', 'e']);
        },
        TokenKind::Fun => {
            assert("fun"@ =~= seq!['f', 'u', 'n']);
        },
        TokenKind::For => {
            assert("for"@ =~= seq!['f', 'o', 'r']);
        },
        TokenKind::If => {
            assert("if"@ =~= seq!['i', 'f']);
        },
        TokenKind::Or => {
            assert("or"@ =~= seq!['o', 'r']);
        },
        TokenKind::Return => {
            assert("return"@ =~= seq!['r', 'e', 't', 'u', 'r', 'n']);
        },
        TokenKind::Super => {
            assert("super"@ =~= seq!['s', 'u', 'p', 'e', 'r']);
        },
        TokenKind::This => {
            assert("this"@ =~= seq!['t', 'h', 'i', 's']);
        },
        TokenKind::True => {
            assert("true"@ =~= seq!['t', 'r', 'u', 'e']);
        },
        TokenKind::Let => {
            assert("let"@ =~= seq!['l', 'e', 't']);
        },
        TokenKind::While => {
            assert("while"@ =~= seq!['w', 'h', 'i', 'l', 'e']);
        },
        _ => {},
    }
    match reserved_word(k) {
        Some(s) => {
            assert(s.len() > 0);
            assert forall|i: int| 0 <= i < s.len() implies 'a' <= #[trigger] s[i] && s[i] <= 'z' by {}
        },
        None => {},
    }
}

/// A word that runs from `i` to the end of the input, all of it letters, ends at the end.
proof fn lemma_letters_to_end(input: Seq<char>, i: nat)
    requires
        i <= input.len(),
        forall|j: int| i <= j < input.len() ==> 'a' <= #[trigger] input[j] && input[j] <= 'z',
    ensures
        letters_end(input, i) == input.len(),
    decreases input.len() - i,
{
    if i < input.len() {
        assert('a' <= input[i as int] && input[i as int] <= 'z');
        lemma_letters_to_end(input, i + 1);
    }
}

/// A lowercase word on its own is one token, followed by the end of input: its
/// keyword where `keyword` gives one, else an identifier spelt as the word.
pub proof fn lemma_word_lexes(w: Seq<char>)
    requires
        lowercase_word(w),
    ensures
        lex_all(w) == Ok::<Seq<TokenView>, LexError>(
            seq![
                TokenView {
                    line: 1,
                    begin: 0,
                    end: w.len(),
                    kind: if keyword(w) is Some { keyword(w)->0 } else { TokenKind::Identifier(w) },
                },
                TokenView { line: 1, begin: w.len(), end: w.len(), kind: TokenKind::Eof },
            ],
        ),
{
    let st = LexState { current: 0, line: 1, level: 0 };
    let c = w[0];
    assert('a' <= c && c <= 'z');
    lemma_letters_to_end(w, 1);
    assert(w.subrange(0, w.len() as int) =~= w);
    let k = if keyword(w) is Some { keyword(w)->0 } else { TokenKind::Identifier(w) };
    let s2 = LexState { current: w.len(), ..st };
    assert(scan(w, st) == Scanned::Emit(s2, k));
    let eof = TokenView { line: 1, begin: w.len(), end: w.len(), kind: TokenKind::Eof };
    let t = TokenView { line: 1, begin: 0, end: w.len(), kind: k };
    assert(lex_from(w, s2) == Ok::<Seq<TokenView>, LexError>(seq![eof]));
    assert(lex_from(w, st) == Ok::<Seq<TokenView>, LexError>(seq![t] + seq![eof]));
    assert(seq![t] + seq![eof] =~= seq![t, eof]);
}

/// Each reserved word, lexed on its own, is its keyword token.
pub proof fn lemma_reserved_word_lexes(k: TokenTypeView)
    requires
        reserved_word(k) is Some,
    ensures
        lex_all(reserved_word(k)->0) == Ok::<Seq<TokenView>, LexError>(
            seq![
                TokenView { line: 1, begin: 0, end: reserved_word(k)->0.len(), kind: k },
                TokenView {
                    line: 1,
                    begin: reserved_word(k)->0.len(),
                    end: reserved_word(k)->0.len(),
                    kind: TokenKind::Eof,
                },
            ],
        ),
{
    let w = reserved_word(k)->0;
    lemma_reserved_words(k, w);
    lemma_word_lexes(w);
}

/// Whether `k` is a token of one or two symbol characters.
pub open spec fn symbol_kind(k: TokenTypeView) -> bool {
    k is LeftParen || k is RightParen || k is LeftBrace || k is RightBrace || k is Comma || k is Dot || k is Minus || k is Plus || k is Semicolon || k is Slash || k is Star || k is Colon || k is Arrow || k is Bang || k is BangEqual || k is Equal || k is EqualEqual || k is Greater || k is GreaterEqual || k is Less || k is LessEqual
}

/// Each symbol token, written as messages write it and lexed on its own, is
/// that token: `(` is a left parenthesis, `/` a slash, `->` an arrow, `>=` a
/// greater-or-equal, and so on for every operator and punctuation mark.
pub proof fn lemma_symbol_lexes(k: TokenTypeView)
    requires
        symbol_kind(k),
    ensures
        lex_all(kind_text(k)) == Ok::<Seq<TokenView>, LexError>(
            seq![
                TokenView { line: 1, begin: 0, end: kind_text(k).len(), kind: k },
                TokenView { line: 1, begin: kind_text(k).len(), end: kind_text(k).len(), kind: TokenKind::Eof },
            ],
        ),
{
    reveal_strlit("(");
    reveal_strlit(")");
    reveal_strlit("{");
    reveal_strlit("}");
    reveal_strlit(",");
    reveal_strlit(".");
    reveal_strlit("-");
    reveal_strlit("+");
    reveal_strlit(";");
    reveal_strlit("/");
    reveal_strlit("*");
    reveal_strlit(":");
    reveal_strlit("->");
    reveal_strlit("!");
    reveal_strlit("!=");
    reveal_strlit("=");
    reveal_strlit("==");
    reveal_strlit(">");
    reveal_strlit(">=");
    reveal_strlit("<");
    reveal_strlit("<=");
    let w = kind_text(k);
    match k {
        TokenKind::LeftParen => {
            assert(w =~= seq!['(']);
        },
        TokenKind::RightParen => {
            assert(w =~= seq![')']);
        },
        TokenKind::LeftBrace => {
            assert(w =~= seq!['{']);
        },
        TokenKind::RightBrace => {
            assert(w =~= seq!['}']);
        },
        TokenKind::Comma => {
            assert(w =~= seq![',']);
        },
        TokenKind::Dot => {
            assert(w =~= seq!['.']);
        },
        TokenKind::Minus => {
            assert(w =~= seq!['-']);
        },
        TokenKind::Plus => {
            assert(w =~= seq!['+']);
        },
        TokenKind::Semicolon => {
            assert(w =~= seq![';']);
        },
        TokenKind::Slash => {
            assert(w =~= seq!['/']);
        },
        TokenKind::Star => {
            assert(w =~= seq!['*']);
        },
        TokenKind::Colon => {
            assert(w =~= seq![':']);
        },
        TokenKind::Arrow => {
            assert(w =~= seq!['-', '>']);
        },
        TokenKind::Bang => {
            assert(w =~= seq!['!']);
        },
        TokenKind::BangEqual => {
            assert(w =~= seq!['!', '=']);
        },
        TokenKind::Equal => {
            assert(w =~= seq!['=']);
        },
        TokenKind::EqualEqual => {
            assert(w =~= seq!['=', '=']);
        },
        TokenKind::Greater => {
            assert(w =~= seq!['>']);
        },
        TokenKind::GreaterEqual => {
            assert(w =~= seq!['>', '=']);
        },
        TokenKind::Less => {
            assert(w =~= seq!['<']);
        },
        TokenKind::LessEqual => {
            assert(w =~= seq!['<', '=']);
        },
        _ => {},
    }
    let st = LexState { current: 0, line: 1, level: 0 };
    let s2 = LexState { current: w.len(), ..st };
    assert(scan(w, st) == Scanned::Emit(s2, k));
    let eof = TokenView { line: 1, begin: w.len(), end: w.len(), kind: TokenKind::Eof };
    let t = TokenView { line: 1, begin: 0, end: w.len(), kind: k };
    assert(lex_from(w, s2) == Ok::<Seq<TokenView>, LexError>(seq![eof]));
    assert(lex_from(w, st) == Ok::<Seq<TokenView>, LexError>(seq![t] + seq![eof]));
    assert(seq![t] + seq![eof] =~= seq![t, eof]);
}

/// The views of a sequence of tokens.
pub open spec fn token_views(ts: Seq<Token>) -> Seq<TokenView> {
    ts.map_values(|t: Token| t@)
}

/// `r` with the tokens `ts` put in front, when it is a list of tokens.
pub open spec fn prepend_tokens(ts: Seq<TokenView>, r: Result<Seq<TokenView>, LexError>) -> Result<Seq<TokenView>, LexError> {
    match r {
        Ok(rest) => Ok(ts + rest),
        Err(e) => Err(e),
    }
}

/// Whether the characters of `w` are those of the array `lit`.
fn chars_are(w: &Vec<char>, lit: &[char]) -> (r: bool)
    ensures
        r == (w@ == lit@),
{
    if w.len() != lit.len() {
        return false;
    }
    let mut i: usize = 0;
    while i < w.len()
        invariant
            0 <= i <= w@.len(),
            w@.len() == lit@.len(),
            forall|j: int| 0 <= j < i ==> w@[j] == lit@[j],
        decreases w@.len() - i,
    {
        if w[i] != lit[i] {
            return false;
        }
        i = i + 1;
    }
    assert(w@ =~= lit@);
    true
}

/// The keyword spelled by `w`, if it is one.
fn keyword_token(w: &Vec<char>) -> (r: Option<TokenType>)
    ensures
        match r {
            Some(k) => keyword(w@) == Some(k@),
            None => keyword(w@) is None,
        },
{
    if chars_are(w, &['a', 'n', 'd']) {
        Some(TokenKind::And)
    } else if chars_are(w, &['c', 'l', 'a', 's', 's']) {
        Some(TokenKind::Class)
    } else if chars_are(w, &['e', 'l', 's', 'e']) {
        Some(TokenKind::Else)
    } else if chars_are(w, &['f', 'a', 'l', 's', 'e']) {
        Some(TokenKind::False)
    } else if chars_are(w, &['f', 'u', 'n']) {
        Some(TokenKind::Fun)
    } else if chars_are(w, &['f', 'o', 'r']) {
        Some(TokenKind::For)
    } else if chars_are(w, &['i', 'f']) {
        Some(TokenKind::If)
    } else if chars_are(w, &['o', 'r']) {
        Some(TokenKind::Or)
    } else if chars_are(w, &['r', 'e', 't', 'u', 'r', 'n']) {
        Some(TokenKind::Return)
    } else if chars_are(w, &['s', 'u', 'p', 'e', 'r']) {
        Some(TokenKind::Super)
    } else if chars_are(w, &['t', 'h', 'i', 's']) {
        Some(TokenKind::This)
    } else if chars_are(w, &['t', 'r', 'u', 'e']) {
        Some(TokenKind::True)
    } else if chars_are(w, &['l', 'e', 't']) {
        Some(TokenKind::Let)
    } else if chars_are(w, &['w', 'h', 'i', 'l', 'e']) {
        Some(TokenKind::While)
    } else {
        None
    }
}

/// The characters of `v` from `from` up to `to`.
fn copy_range(v: &Vec<char>, from: usize, to: usize) -> (r: Vec<char>)
    requires
        from <= to <= v@.len(),
    ensures
        r@ == v@.subrange(from as int, to as int),
{
    let mut out: Vec<char> = Vec::new();
    let mut i = from;
    while i < to
        invariant
            from <= i <= to,
            to <= v@.len(),
            out@ == v@.subrange(from as int, i as int),
        decreases to - i,
    {
        out.push(v[i]);
        i = i + 1;
        assert(out@ =~= v@.subrange(from as int, i as int));
    }
    out
}

proof fn lemma_decimal_value_grows(s: Seq<char>, d: char)
    requires
        is_digit(d),
    ensures
        decimal_value(s.push(d)) == decimal_value(s) * 10 + ((d as int) - ('0' as int)),
        decimal_value(s.push(d)) >= decimal_value(s),
{
    assert(s.push(d).drop_last() =~= s);
}

proof fn lemma_count_newlines_push(s: Seq<char>, c: char)
    ensures
        count_newlines(s.push(c)) == count_newlines(s) + if c == '\n' { 1nat } else { 0nat },
{
    assert(s.push(c).drop_last() =~= s);
}

/// A lexer that splits a sequence of characters into tokens.
pub struct BasicLexer {
    chars: Vec<char>,
    start: usize,
    current: usize,
    line_num: usize,
    comment_level: usize,
}

impl BasicLexer {
    /// The characters being split.
    pub closed spec fn input(&self) -> Seq<char> {
        self.chars@
    }

    /// Where the lexer stands.
    pub closed spec fn state(&self) -> LexState {
        LexState { current: self.current as nat, line: self.line_num as nat, level: self.comment_level as nat }
    }

    /// Where the token being read began.
    pub closed spec fn token_start(&self) -> nat {
        self.start as nat
    }

    /// The lexer's positions lie within its input, and its line number and
    /// comment depth are bounded by what it has read.
    pub closed spec fn wf(&self) -> bool {
        &&& self.chars@.len() < usize::MAX
        &&& self.start <= self.current <= self.chars@.len()
        &&& self.line_num <= self.current + 1
        &&& self.comment_level <= self.current
    }

    /// A lexer at the start of `chars`: on line 1, outside any comment.
    pub fn new(chars: Vec<char>) -> (r: BasicLexer)
        requires
            chars@.len() < usize::MAX,
        ensures
            r.wf(),
            r.input() == chars@,
            r.state() == (LexState { current: 0, line: 1, level: 0 }),
            r.token_start() == 0,
    {
        BasicLexer { chars, start: 0, current: 0, line_num: 1, comment_level: 0 }
    }

    fn is_at_end(&self) -> (r: bool)
        ensures
            r == (self.current >= self.chars@.len()),
    {
        self.current >= self.chars.len()
    }

    fn peek(&self) -> (r: Option<char>)
        ensures
            r == if self.current < self.chars@.len() {
                Some(self.chars@[self.current as int])
            } else {
                None::<char>
            },
    {
        if self.current < self.chars.len() {
            Some(self.chars[self.current])
        } else {
            None
        }
    }

    fn advance(&mut self) -> (r: Option<char>)
        requires
            old(self).current <= old(self).chars@.len(),
            old(self).chars@.len() < usize::MAX,
        ensures
            r == if old(self).current < old(self).chars@.len() {
                Some(old(self).chars@[old(self).current as int])
            } else {
                None::<char>
            },
            final(self).current == if r is Some { old(self).current + 1 } else { old(self).current as int },
            final(self).chars@ == old(self).chars@,
            final(self).start == old(self).start,
            final(self).line_num == old(self).line_num,
            final(self).comment_level == old(self).comment_level,
    {
        let c = self.peek();
        if c.is_some() {
            self.current = self.current + 1;
        }
        c
    }

    fn match_char(&mut self, expected: char) -> (r: bool)
        requires
            old(self).current <= old(self).chars@.len(),
            old(self).chars@.len() < usize::MAX,
        ensures
            r == (old(self).current < old(self).chars@.len() && old(self).chars@[old(self).current as int] == expected),
            final(self).current == if r { old(self).current + 1 } else { old(self).current as int },
            final(self).chars@ == old(self).chars@,
            final(self).start == old(self).start,
            final(self).line_num == old(self).line_num,
            final(self).comment_level == old(self).comment_level,
    {
        match self.peek() {
            None => false,
            Some(c) => {
                if c == expected {
                    self.advance();
                    true
                } else {
                    false
                }
            },
        }
    }

    fn generate_token(&self, tok: TokenType) -> (r: Token)
        ensures
            r@ == (TokenView { line: self.line_num as nat, begin: self.start as nat, end: self.current as nat, kind: tok@ }),
    {
        Token::new(self.line_num, self.start, self.current, tok)
    }

    fn inc_comment_level(&mut self)
        requires
            old(self).comment_level < usize::MAX,
        ensures
            final(self).comment_level == old(self).comment_level + 1,
            final(self).chars@ == old(self).chars@,
            final(self).start == old(self).start,
            final(self).current == old(self).current,
            final(self).line_num == old(self).line_num,
    {
        self.comment_level = self.comment_level + 1;
    }

    fn dec_comment_level(&mut self)
        requires
            old(self).comment_level > 0,
        ensures
            final(self).comment_level == old(self).comment_level - 1,
            final(self).chars@ == old(self).chars@,
            final(self).start == old(self).start,
            final(self).current == old(self).current,
            final(self).line_num == old(self).line_num,
    {
        self.comment_level = self.comment_level - 1;
    }

    /// Reads the rest of a string literal whose opening quote was just read.
    fn string(&mut self) -> (r: Result<Token, LexError>)
        requires
            old(self).wf(),
            old(self).current > 0,
            old(self).chars@[old(self).current - 1] == '"',
        ensures
            final(self).chars@ == old(self).chars@,
            final(self).start == old(self).start,
            final(self).comment_level == old(self).comment_level,
            ({
                let input = old(self).chars@;
                let n = old(self).current as nat;
                let e = find_char(input, n, '"');
                if e >= input.len() {
                    r == Err::<Token, LexError>(LexError::UnterminatedString)
                } else {
                    let body = input.subrange(n as int, e as int);
                    &&& final(self).current == e + 1
                    &&& final(self).line_num == old(self).line_num + count_newlines(body)
                    &&& r matches Ok(t) && t@ == (TokenView {
                        line: final(self).line_num as nat,
                        begin: old(self).start as nat,
                        end: e + 1,
                        kind: TokenKind::Str(body),
                    })
                }
            }),
    {
        let ghost input = self.chars@;
        let n = self.current;
        let mut buffer: Vec<char> = Vec::new();
        proof {
            lemma_find_char_bounds(input, n as nat, '"');
        }
        loop
            invariant
                self.chars@ == input,
                input.len() < usize::MAX,
                n <= self.current <= input.len(),
                self.start == old(self).start,
                self.comment_level == old(self).comment_level,
                buffer@ == input.subrange(n as int, self.current as int),
                self.line_num == old(self).line_num + count_newlines(buffer@),
                old(self).line_num <= n + 1,
                find_char(input, n as nat, '"') == find_char(input, self.current as nat, '"'),
            ensures
                self.current >= input.len() || input[self.current as int] == '"',
            decreases input.len() - self.current,
        {
            if self.current >= self.chars.len() {
                break;
            }
            let c = self.chars[self.current];
            if c == '"' {
                break;
            }
            proof {
                lemma_count_newlines_push(buffer@, c);
                lemma_count_newlines_bound(buffer@);
            }
            if c == '\n' {
                self.line_num = self.line_num + 1;
            }
            buffer.push(c);
            self.current = self.current + 1;
            assert(buffer@ =~= input.subrange(n as int, self.current as int));
        }
        if self.current >= self.chars.len() {
            return Err(LexError::UnterminatedString);
        }
        self.current = self.current + 1;
        let s = string_from_chars(&buffer);
        Ok(self.generate_token(TokenKind::Str(s)))
    }

    /// Reads the rest of a number whose first digit was just read.
    fn number(&mut self, c: char) -> (r: Result<Token, LexError>)
        requires
            old(self).wf(),
            old(self).current > 0,
            old(self).chars@[old(self).current - 1] == c,
            is_digit(c),
        ensures
            final(self).chars@ == old(self).chars@,
            final(self).start == old(self).start,
            final(self).comment_level == old(self).comment_level,
            final(self).line_num == old(self).line_num,
            ({
                let input = old(self).chars@;
                let cur = (old(self).current - 1) as nat;
                let e1 = digits_end(input, old(self).current as nat);
                if e1 < input.len() && input[e1 as int] == '.' {
                    let e2 = digits_end(input, e1 + 1);
                    &&& final(self).current == e2
                    &&& r matches Ok(t) && t@ == (TokenView {
                        line: old(self).line_num as nat,
                        begin: old(self).start as nat,
                        end: e2,
                        kind: TokenKind::Float(input.subrange(cur as int, e2 as int)),
                    })
                } else {
                    let v = decimal_value(input.subrange(cur as int, e1 as int));
                    if v <= i32::MAX {
                        &&& final(self).current == e1
                        &&& r matches Ok(t) && t@ == (TokenView {
                            line: old(self).line_num as nat,
                            begin: old(self).start as nat,
                            end: e1,
                            kind: TokenKind::Integer(v as i32),
                        })
                    } else {
                        r == Err::<Token, LexError>(LexError::BadInteger)
                    }
                }
            }),
    {
        let ghost input = self.chars@;
        let first = self.current - 1;
        let mut value: u64 = (c as u64) - ('0' as u64);
        let mut too_big = false;
        proof {
            assert(input.subrange(first as int, self.current as int) =~= seq![].push(c));
            lemma_decimal_value_grows(seq![], c);
            lemma_digits_end_bounds(input, self.current as nat);
        }
        loop
            invariant
                self.chars@ == input,
                input.len() < usize::MAX,
                first + 1 <= self.current <= input.len(),
                self.start == old(self).start,
                self.comment_level == old(self).comment_level,
                self.line_num == old(self).line_num,
                first == old(self).current - 1,
                digits_end(input, old(self).current as nat) == digits_end(input, self.current as nat),
                !too_big ==> value == decimal_value(input.subrange(first as int, self.current as int)) && value <= i32::MAX,
                too_big ==> decimal_value(input.subrange(first as int, self.current as int)) > i32::MAX,
            ensures
                self.current >= input.len() || !is_digit(input[self.current as int]),
            decreases input.len() - self.current,
        {
            if self.current >= self.chars.len() {
                break;
            }
            let d = self.chars[self.current];
            if !('0' <= d && d <= '9') {
                break;
            }
            proof {
                assert(input.subrange(first as int, self.current + 1) =~= input.subrange(first as int, self.current as int).push(d));
                lemma_decimal_value_grows(input.subrange(first as int, self.current as int), d);
            }
            if !too_big {
                value = value * 10 + ((d as u64) - ('0' as u64));
                if value > 2147483647 {
                    too_big = true;
                }
            }
            self.current = self.current + 1;
        }
        let e1 = self.current;
        if self.current < self.chars.len() && self.chars[self.current] == '.' {
            self.current = self.current + 1;
            proof {
                lemma_digits_end_bounds(input, self.current as nat);
            }
            loop
                invariant
                    self.chars@ == input,
                    input.len() < usize::MAX,
                    e1 + 1 <= self.current <= input.len(),
                    self.start == old(self).start,
                    self.comment_level == old(self).comment_level,
                    self.line_num == old(self).line_num,
                    digits_end(input, (e1 + 1) as nat) == digits_end(input, self.current as nat),
                ensures
                    self.current >= input.len() || !is_digit(input[self.current as int]),
                decreases input.len() - self.current,
            {
                if self.current >= self.chars.len() {
                    break;
                }
                let d = self.chars[self.current];
                if !('0' <= d && d <= '9') {
                    break;
                }
                self.current = self.current + 1;
            }
            let text = copy_range(&self.chars, first, self.current);
            let s = string_from_chars(&text);
            return Ok(self.generate_token(TokenKind::Float(s)));
        }
        if too_big {
            return Err(LexError::BadInteger);
        }
        Ok(self.generate_token(TokenKind::Integer(value as i32)))
    }

    /// Reads the rest of a word whose first letter was just read: a keyword or an identifier.
    fn identifier(&mut self, c: char) -> (r: Token)
        requires
            old(self).wf(),
            old(self).current > 0,
            old(self).chars@[old(self).current - 1] == c,
        ensures
            final(self).chars@ == old(self).chars@,
            final(self).start == old(self).start,
            final(self).comment_level == old(self).comment_level,
            final(self).line_num == old(self).line_num,
            ({
                let input = old(self).chars@;
                let e = letters_end(input, old(self).current as nat);
                let w = input.subrange(old(self).current - 1, e as int);
                &&& final(self).current == e
                &&& r@ == (TokenView {
                    line: old(self).line_num as nat,
                    begin: old(self).start as nat,
                    end: e,
                    kind: if keyword(w) is Some { keyword(w).unwrap() } else { TokenKind::Identifier(w) },
                })
            }),
    {
        let ghost input = self.chars@;
        let first = self.current - 1;
        proof {
            lemma_letters_end_bounds(input, self.current as nat);
        }
        loop
            invariant
                self.chars@ == input,
                input.len() < usize::MAX,
                first + 1 <= self.current <= input.len(),
                first == old(self).current - 1,
                self.start == old(self).start,
                self.comment_level == old(self).comment_level,
                self.line_num == old(self).line_num,
                letters_end(input, old(self).current as nat) == letters_end(input, self.current as nat),
            ensures
                self.current >= input.len() || !is_letter(input[self.current as int]),
            decreases input.len() - self.current,
        {
            if self.current >= self.chars.len() {
                break;
            }
            if !is_alphabetic(self.chars[self.current]) {
                break;
            }
            self.current = self.current + 1;
        }
        let word = copy_range(&self.chars, first, self.current);
        let kind = match keyword_token(&word) {
            Some(k) => k,
            None => TokenKind::Identifier(string_from_chars(&word)),
        };
        self.generate_token(kind)
    }

    /// Reads the next token, where `scan` does not fail there. At the end of the
    /// input this is an end-of-file token; otherwise it is what `scan` says:
    /// nothing (whitespace, line breaks, comments) or a token. Input that starts
    /// no token (`try_scan_token` names the fault) is not admitted.
    pub fn scan_token(&mut self) -> (r: Result<Option<Token>, LexError>)
        requires
            old(self).wf(),
            old(self).state().current < old(self).input().len() ==> !(scan(
                old(self).input(),
                old(self).state(),
            ) is Fail),
        ensures
            r is Ok,
            final(self).wf(),
            final(self).input() == old(self).input(),
            final(self).token_start() == old(self).token_start(),
            old(self).state().current >= old(self).input().len() ==> {
                &&& final(self).state() == old(self).state()
                &&& r matches Ok(Some(t)) && t@ == (TokenView {
                    line: old(self).state().line,
                    begin: old(self).token_start(),
                    end: old(self).state().current,
                    kind: TokenKind::Eof,
                })
            },
            old(self).state().current < old(self).input().len() ==> match scan(
                old(self).input(),
                old(self).state(),
            ) {
                Scanned::Skip(s2) => final(self).state() == s2 && r == Ok::<Option<Token>, LexError>(None),
                Scanned::Emit(s2, k) => {
                    &&& final(self).state() == s2
                    &&& r matches Ok(Some(t)) && t@ == (TokenView {
                        line: s2.line,
                        begin: old(self).token_start(),
                        end: s2.current,
                        kind: k,
                    })
                },
                Scanned::Fail(_) => true,
            },
    {
        self.try_scan_token()
    }

    /// Checks and reads the next token. At the end of the input this is an
    /// end-of-file token; otherwise it is what `scan` says: nothing (whitespace,
    /// line breaks, comments), a token, or the error that names why no token
    /// starts there: a character that starts none (`BadInput`), a string that is
    /// not closed before the end (`UnterminatedString`), or an integer literal
    /// that does not fit in 32 bits (`BadInteger`).
    pub fn try_scan_token(&mut self) -> (r: Result<Option<Token>, LexError>)
        requires
            old(self).wf(),
        ensures
            final(self).input() == old(self).input(),
            final(self).token_start() == old(self).token_start(),
            old(self).state().current >= old(self).input().len() ==> {
                &&& final(self).wf()
                &&& final(self).state() == old(self).state()
                &&& r matches Ok(Some(t)) && t@ == (TokenView {
                    line: old(self).state().line,
                    begin: old(self).token_start(),
                    end: old(self).state().current,
                    kind: TokenKind::Eof,
                })
            },
            old(self).state().current < old(self).input().len() ==> match scan(
                old(self).input(),
                old(self).state(),
            ) {
                Scanned::Skip(s2) => final(self).wf() && final(self).state() == s2 && r == Ok::<
                    Option<Token>,
                    LexError,
                >(None),
                Scanned::Emit(s2, k) => {
                    &&& final(self).wf()
                    &&& final(self).state() == s2
                    &&& r matches Ok(Some(t)) && t@ == (TokenView {
                        line: s2.line,
                        begin: old(self).token_start(),
                        end: s2.current,
                        kind: k,
                    })
                },
                Scanned::Fail(e) => r == Err::<Option<Token>, LexError>(e),
            },
    {
        let ghost input = self.chars@;
        let ghost st = self.state();
        if self.current < self.chars.len() {
            proof {
                lemma_scan_progress(input, st);
                lemma_find_char_bounds(input, (self.current + 2) as nat, '\n');
            }
        }
        let c = match self.advance() {
            None => {
                return Ok(Some(self.generate_token(TokenKind::Eof)));
            },
            Some(c) => c,
        };
        if c == ' ' || c == '\r' || c == '\t' {
            return Ok(None);
        }
        if c == '\n' {
            self.line_num = self.line_num + 1;
            return Ok(None);
        }
        if self.comment_level > 0 {
            if c == '*' {
                if self.match_char('/') {
                    self.dec_comment_level();
                }
            }
            return Ok(None);
        }
        let single = if c == '(' {
            Some(TokenKind::LeftParen)
        } else if c == ')' {
            Some(TokenKind::RightParen)
        } else if c == '[' || c == '{' {
            Some(TokenKind::LeftBrace)
        } else if c == ']' || c == '}' {
            Some(TokenKind::RightBrace)
        } else if c == ',' {
            Some(TokenKind::Comma)
        } else if c == '.' {
            Some(TokenKind::Dot)
        } else if c == '+' {
            Some(TokenKind::Plus)
        } else if c == ';' {
            Some(TokenKind::Semicolon)
        } else if c == ':' {
            Some(TokenKind::Colon)
        } else if c == '*' {
            Some(TokenKind::Star)
        } else {
            None
        };
        if let Some(k) = single {
            return Ok(Some(self.generate_token(k)));
        }
        if c == '-' {
            if self.match_char('>') {
                return Ok(Some(self.generate_token(TokenKind::Arrow)));
            } else {
                return Ok(Some(self.generate_token(TokenKind::Minus)));
            }
        }
        if c == '!' {
            if self.match_char('=') {
                return Ok(Some(self.generate_token(TokenKind::BangEqual)));
            } else {
                return Ok(Some(self.generate_token(TokenKind::Bang)));
            }
        }
        if c == '=' {
            if self.match_char('=') {
                return Ok(Some(self.generate_token(TokenKind::EqualEqual)));
            } else {
                return Ok(Some(self.generate_token(TokenKind::Equal)));
            }
        }
        if c == '<' {
            if self.match_char('=') {
                return Ok(Some(self.generate_token(TokenKind::LessEqual)));
            } else {
                return Ok(Some(self.generate_token(TokenKind::Less)));
            }
        }
        if c == '>' {
            if self.match_char('=') {
                return Ok(Some(self.generate_token(TokenKind::GreaterEqual)));
            } else {
                return Ok(Some(self.generate_token(TokenKind::Greater)));
            }
        }
        if c == '/' {
            if self.match_char('/') {
                loop
                    invariant
                        self.chars@ == input,
                        input.len() < usize::MAX,
                        st.current + 2 <= self.current <= input.len(),
                        self.start == old(self).start,
                        self.line_num == old(self).line_num,
                        self.comment_level == old(self).comment_level,
                        find_char(input, st.current + 2, '\n') == find_char(input, self.current as nat, '\n'),
                    ensures
                        self.current >= input.len() || input[self.current as int] == '\n',
                    decreases input.len() - self.current,
                {
                    match self.peek() {
                        Some(d) => {
                            if d == '\n' {
                                break;
                            }
                        },
                        None => {
                            break;
                        },
                    }
                    let _ = self.advance();
                }
                return Ok(None);
            } else if self.match_char('*') {
                self.inc_comment_level();
                return Ok(None);
            } else {
                return Ok(Some(self.generate_token(TokenKind::Slash)));
            }
        }
        if c == '"' {
            let t = self.string();
            return match t {
                Ok(t) => Ok(Some(t)),
                Err(e) => Err(e),
            };
        }
        if '0' <= c && c <= '9' {
            let t = self.number(c);
            return match t {
                Ok(t) => Ok(Some(t)),
                Err(e) => Err(e),
            };
        }
        if is_alphabetic(c) {
            return Ok(Some(self.identifier(c)));
        }
        Err(LexError::BadInput(c))
    }

    /// Splits the whole input, which `lex_from` splits without error, into
    /// tokens closed by an end-of-file token.
    pub fn lex(self) -> (r: Result<Vec<Token>, LexError>)
        requires
            self.wf(),
            self.token_start() == self.state().current,
            lex_from(self.input(), self.state()) is Ok,
        ensures
            r matches Ok(ts) && lex_from(self.input(), self.state()) == Ok::<Seq<TokenView>, LexError>(token_views(ts@)),
    {
        self.try_lex()
    }

    /// Checks and splits the whole input into tokens closed by an end-of-file
    /// token; input that makes no token is answered with the first error, as
    /// `try_scan_token` names it.
    pub fn try_lex(self) -> (r: Result<Vec<Token>, LexError>)
        requires
            self.wf(),
            self.token_start() == self.state().current,
        ensures
            r matches Ok(ts) ==> lex_from(self.input(), self.state()) == Ok::<Seq<TokenView>, LexError>(token_views(ts@)),
            r matches Err(e) ==> lex_from(self.input(), self.state()) == Err::<Seq<TokenView>, LexError>(e),
    {
        let ghost input = self.input();
        let ghost st0 = self.state();
        let mut lexer = self;
        let mut tokens: Vec<Token> = Vec::new();
        while !lexer.is_at_end()
            invariant
                input == self.input(),
                st0 == self.state(),
                lexer.wf(),
                lexer.input() == input,
                lexer.token_start() == lexer.state().current,
                lex_from(input, st0) == prepend_tokens(token_views(tokens@), lex_from(input, lexer.state())),
            decreases input.len() - lexer.state().current,
        {
            let ghost st = lexer.state();
            let ghost before = token_views(tokens@);
            proof {
                lemma_scan_progress(input, st);
            }
            match lexer.try_scan_token() {
                Ok(Some(t)) => {
                    tokens.push(t);
                    proof {
                        assert(token_views(tokens@) =~= before.push(t@));
                        match lex_from(input, lexer.state()) {
                            Ok(rest) => {
                                assert(before + (seq![t@] + rest) =~= before.push(t@) + rest);
                            },
                            Err(e) => {},
                        }
                    }
                },
                Ok(None) => {},
                Err(e) => {
                    assert(scan(input, st) == Scanned::Fail(e));
                    assert(lex_from(input, st) == Err::<Seq<TokenView>, LexError>(e));
                    assert(lex_from(input, st0) == Err::<Seq<TokenView>, LexError>(e));
                    return Err(e);
                },
            }
            lexer.start = lexer.current;
        }
        let eof = lexer.generate_token(TokenKind::Eof);
        let ghost before = token_views(tokens@);
        tokens.push(eof);
        assert(token_views(tokens@) =~= before + seq![eof@]);
        Ok(tokens)
    }
}

} // verus!
