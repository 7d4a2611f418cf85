//! Splits the text of an attribute's arguments into tokens.
//!
//! The tokens are identifiers, string literals (with the escapes `\n`,
//! `\r`, `\t`, `\0`, `\\`, `\'` and `\"`), decimal integer literals (digits
//! and underscores, with an optional suffix such as `u64`) and the
//! punctuation `=`, `,`, `:`, `[` and `]`. Whitespace separates tokens.
//! The derive front end hands over literals as syn resolved them: a string
//! as `quote_string` writes its value, an integer as its decimal digits.
//!
//! `print_token_list` writes tokens back as text that reads as the same
//! tokens (`lemma_print_tokens_roundtrip`).

use vstd::prelude::*;
use crate::text::{chars_of, push_char, string_from_chars};

verus! {

/// Why a text could not be split into tokens.
#[derive(Debug, PartialEq, Eq, Structural)]
pub enum LexError {
    /// A character that starts no token.
    UnexpectedCharacter,
    /// A string literal without its closing quote.
    UnterminatedString,
    /// A backslash followed by a character that is no supported escape.
    UnknownEscape,
}

/// A token.
#[derive(Debug)]
pub enum Token {
    Ident(String),
    /// A string literal, with its escapes resolved.
    Str(String),
    /// An integer literal: its digits without underscores and suffix.
    Int(String),
    Punct(char),
}

pub enum TokenView {
    Ident(Seq<char>),
    Str(Seq<char>),
    Int(Seq<char>),
    Punct(char),
}

impl View for Token {
    type V = TokenView;

    open spec fn view(&self) -> TokenView {
        match self {
            Token::Ident(s) => TokenView::Ident(s@),
            Token::Str(s) => TokenView::Str(s@),
            Token::Int(s) => TokenView::Int(s@),
            Token::Punct(c) => TokenView::Punct(*c),
        }
    }
}

impl DeepView for Token {
    type V = TokenView;

    open spec fn deep_view(&self) -> TokenView {
        self@
    }
}

pub open spec fn is_whitespace(c: char) -> bool {
    c == ' ' || c == '\t' || c == '\n' || c == '\r'
}

pub open spec fn is_ident_start(c: char) -> bool {
    ('a' <= c <= 'z') || ('A' <= c <= 'Z') || c == '_'
}

pub open spec fn is_ident_char(c: char) -> bool {
    is_ident_start(c) || ('0' <= c <= '9')
}

pub open spec fn is_digit(c: char) -> bool {
    '0' <= c <= '9'
}

pub open spec fn is_number_char(c: char) -> bool {
    is_digit(c) || c == '_'
}

pub open spec fn is_punct(c: char) -> bool {
    c == '=' || c == ',' || c == ':' || c == '[' || c == ']'
}

/// The character an escape `\c` stands for.
pub open spec fn escape_value(c: char) -> Option<char> {
    if c == 'n' {
        Some('\n')
    } else if c == 'r' {
        Some('\r')
    } else if c == 't' {
        Some('\t')
    } else if c == '0' {
        Some('\0')
    } else if c == '\\' || c == '\'' || c == '"' {
        Some(c)
    } else {
        None
    }
}

/// The end of the run of identifier characters from `i`.
pub open spec fn ident_end(s: Seq<char>, i: int) -> int
    decreases s.len() - i,
{
    if 0 <= i < s.len() && is_ident_char(s[i]) {
        ident_end(s, i + 1)
    } else {
        i
    }
}

/// The end of the run of digits and underscores from `i`.
pub open spec fn number_end(s: Seq<char>, i: int) -> int
    decreases s.len() - i,
{
    if 0 <= i < s.len() && is_number_char(s[i]) {
        number_end(s, i + 1)
    } else {
        i
    }
}

/// The digits of a run, without its underscores.
pub open spec fn digits_of(s: Seq<char>) -> Seq<char> {
    s.filter(|c: char| is_digit(c))
}

/// The value of the string literal whose text starts at `i` (just after
/// the opening quote), and the position after its closing quote.
pub open spec fn string_body(s: Seq<char>, i: int) -> Result<(Seq<char>, int), LexError>
    decreases s.len() - i,
{
    if i < 0 || i >= s.len() {
        Err(LexError::UnterminatedString)
    } else if s[i] == '"' {
        Ok((Seq::empty(), i + 1))
    } else if s[i] == '\\' {
        if i + 1 >= s.len() {
            Err(LexError::UnterminatedString)
        } else {
            match escape_value(s[i + 1]) {
                None => Err(LexError::UnknownEscape),
                Some(c) => match string_body(s, i + 2) {
                    Err(e) => Err(e),
                    Ok((rest, end)) => Ok((seq![c] + rest, end)),
                },
            }
        }
    } else {
        match string_body(s, i + 1) {
            Err(e) => Err(e),
            Ok((rest, end)) => Ok((seq![s[i]] + rest, end)),
        }
    }
}

pub open spec fn prepend(t: TokenView, r: Result<Seq<TokenView>, LexError>) -> Result<Seq<TokenView>, LexError> {
    match r {
        Ok(ts) => Ok(seq![t] + ts),
        Err(e) => Err(e),
    }
}

/// The end of an integer literal that starts at `i`: its digits, then an
/// optional suffix.
pub open spec fn int_literal_end(s: Seq<char>, i: int) -> int {
    let e = number_end(s, i);
    if e < s.len() && is_ident_start(s[e]) {
        ident_end(s, e)
    } else {
        e
    }
}

/// The tokens of `s` from position `i` on.
pub open spec fn lex_from(s: Seq<char>, i: int) -> Result<Seq<TokenView>, LexError>
    decreases s.len() - i, 0int,
{
    if i < 0 || i >= s.len() {
        Ok(Seq::empty())
    } else if is_whitespace(s[i]) {
        lex_from(s, i + 1)
    } else if is_ident_start(s[i]) {
        let e = ident_end(s, i);
        if e <= i || e > s.len() {
            Err(LexError::UnexpectedCharacter)
        } else {
            prepend(TokenView::Ident(s.subrange(i, e)), lex_from(s, e))
        }
    } else if is_digit(s[i]) {
        let e = number_end(s, i);
        let f = int_literal_end(s, i);
        if f <= i || f > s.len() {
            Err(LexError::UnexpectedCharacter)
        } else {
            prepend(TokenView::Int(digits_of(s.subrange(i, e))), lex_from(s, f))
        }
    } else if s[i] == '"' {
        match string_body(s, i + 1) {
            Err(e) => Err(e),
            Ok((body, end)) => if end <= i || end > s.len() {
                Err(LexError::UnexpectedCharacter)
            } else {
                prepend(TokenView::Str(body), lex_from(s, end))
            },
        }
    } else if is_punct(s[i]) {
        prepend(TokenView::Punct(s[i]), lex_from(s, i + 1))
    } else {
        Err(LexError::UnexpectedCharacter)
    }
}

/// The tokens of `s`.
pub open spec fn lex_spec(s: Seq<char>) -> Result<Seq<TokenView>, LexError> {
    lex_from(s, 0)
}

pub open spec fn tokens_view(r: Result<Vec<Token>, LexError>) -> Result<Seq<TokenView>, LexError> {
    match r {
        Ok(v) => Ok(v.deep_view()),
        Err(e) => Err(e),
    }
}

// ------------------------------------------------------------------ exec

proof fn lemma_ident_end_bounds(s: Seq<char>, i: int)
    requires
        0 <= i <= s.len(),
    ensures
        i <= ident_end(s, i) <= s.len(),
        forall|k: int| i <= k < ident_end(s, i) ==> is_ident_char(#[trigger] s[k]),
    decreases s.len() - i,
{
    if i < s.len() && is_ident_char(s[i]) {
        lemma_ident_end_bounds(s, i + 1);
    }
}

proof fn lemma_number_end_bounds(s: Seq<char>, i: int)
    requires
        0 <= i <= s.len(),
    ensures
        i <= number_end(s, i) <= s.len(),
    decreases s.len() - i,
{
    if i < s.len() && is_number_char(s[i]) {
        lemma_number_end_bounds(s, i + 1);
    }
}

fn scan_ident(v: &Vec<char>, i: usize) -> (e: usize)
    requires
        i <= v.len(),
    ensures
        e == ident_end(v@, i as int),
        i <= e <= v.len(),
{
    let mut e = i;
    proof {
        lemma_ident_end_bounds(v@, i as int);
    }
    while e < v.len() && is_ident_char_exec(v[e])
        invariant
            i <= e <= v.len(),
            ident_end(v@, e as int) == ident_end(v@, i as int),
        decreases v.len() - e,
    {
        e = e + 1;
    }
    e
}

fn scan_number(v: &Vec<char>, i: usize) -> (e: usize)
    requires
        i <= v.len(),
    ensures
        e == number_end(v@, i as int),
        i <= e <= v.len(),
{
    let mut e = i;
    while e < v.len() && is_number_char_exec(v[e])
        invariant
            i <= e <= v.len(),
            number_end(v@, e as int) == number_end(v@, i as int),
        decreases v.len() - e,
    {
        e = e + 1;
    }
    e
}

fn is_ident_start_exec(c: char) -> (r: bool)
    ensures
        r == is_ident_start(c),
{
    ('a' <= c && c <= 'z') || ('A' <= c && c <= 'Z') || c == '_'
}

fn is_ident_char_exec(c: char) -> (r: bool)
    ensures
        r == is_ident_char(c),
{
    is_ident_start_exec(c) || ('0' <= c && c <= '9')
}

fn is_number_char_exec(c: char) -> (r: bool)
    ensures
        r == is_number_char(c),
{
    ('0' <= c && c <= '9') || c == '_'
}

fn escape_value_exec(c: char) -> (r: Option<char>)
    ensures
        r == escape_value(c),
{
    if c == 'n' {
        Some('\n')
    } else if c == 'r' {
        Some('\r')
    } else if c == 't' {
        Some('\t')
    } else if c == '0' {
        Some('\0')
    } else if c == '\\' || c == '\'' || c == '"' {
        Some(c)
    } else {
        None
    }
}

/// The digits of `v[start..end]`, dropping underscores.
fn digits_string(v: &Vec<char>, start: usize, end: usize) -> (r: String)
    requires
        start <= end <= v.len(),
    ensures
        r@ == digits_of(v@.subrange(start as int, end as int)),
{
    let mut r = String::new();
    let mut i = start;
    while i < end
        invariant
            start <= i <= end <= v.len(),
            r@ == digits_of(v@.subrange(start as int, i as int)),
        decreases end - i,
    {
        let c = v[i];
        proof {
            let pre = v@.subrange(start as int, i as int);
            assert(v@.subrange(start as int, i + 1) =~= pre.push(c));
            pre.lemma_filter_push(c, |c: char| is_digit(c));
        }
        if '0' <= c && c <= '9' {
            push_char(&mut r, c);
        }
        i = i + 1;
    }
    r
}

pub open spec fn add_prefix(p: Seq<char>, r: Result<(Seq<char>, int), LexError>) -> Result<(Seq<char>, int), LexError> {
    match r {
        Ok((b, e)) => Ok((p + b, e)),
        Err(e) => Err(e),
    }
}

proof fn lemma_string_body_end(s: Seq<char>, i: int)
    requires
        0 <= i,
    ensures
        string_body(s, i) matches Ok((_, e)) ==> i < e <= s.len(),
    decreases s.len() - i,
{
    if 0 <= i < s.len() && s[i] != '"' {
        if s[i] == '\\' {
            if i + 1 < s.len() {
                lemma_string_body_end(s, i + 2);
            }
        } else {
            lemma_string_body_end(s, i + 1);
        }
    }
}

/// Reads the body of a string literal from `i`, just after its opening
/// quote.
fn scan_string(v: &Vec<char>, i: usize) -> (r: Result<(String, usize), LexError>)
    requires
        i <= v.len(),
    ensures
        match r {
            Ok((body, end)) => string_body(v@, i as int) == Ok::<(Seq<char>, int), LexError>((body@, end as int)),
            Err(e) => string_body(v@, i as int) == Err::<(Seq<char>, int), LexError>(e),
        },
{
    let mut body = String::new();
    let mut k = i;
    assert(body@ + Seq::<char>::empty() =~= Seq::<char>::empty());
    while k < v.len()
        invariant
            i <= k <= v.len(),
            string_body(v@, i as int) == add_prefix(body@, string_body(v@, k as int)),
        decreases v.len() - k,
    {
        let c = v[k];
        if c == '"' {
            proof {
                assert(body@ + Seq::<char>::empty() =~= body@);
            }
            return Ok((body, k + 1));
        } else if c == '\\' {
            if k + 1 >= v.len() {
                return Err(LexError::UnterminatedString);
            }
            match escape_value_exec(v[k + 1]) {
                None => {
                    return Err(LexError::UnknownEscape);
                },
                Some(e) => {
                    let ghost old_body = body@;
                    push_char(&mut body, e);
                    proof {
                        match string_body(v@, k + 2) {
                            Ok((b, en)) => {
                                assert(old_body + (seq![e] + b) =~= body@ + b);
                            },
                            Err(_) => {},
                        }
                    }
                    k = k + 2;
                },
            }
        } else {
            let ghost old_body = body@;
            push_char(&mut body, c);
            proof {
                match string_body(v@, k + 1) {
                    Ok((b, en)) => {
                        assert(old_body + (seq![c] + b) =~= body@ + b);
                    },
                    Err(_) => {},
                }
            }
            k = k + 1;
        }
    }
    Err(LexError::UnterminatedString)
}

pub open spec fn prepend_all(ts: Seq<TokenView>, r: Result<Seq<TokenView>, LexError>) -> Result<Seq<TokenView>, LexError> {
    match r {
        Ok(rest) => Ok(ts + rest),
        Err(e) => Err(e),
    }
}

proof fn lemma_int_literal_end(s: Seq<char>, i: int)
    requires
        0 <= i < s.len(),
        is_digit(s[i]),
    ensures
        i < number_end(s, i) <= int_literal_end(s, i) <= s.len(),
{
    lemma_number_end_bounds(s, i + 1);
    assert(number_end(s, i) == number_end(s, i + 1));
    let e = number_end(s, i);
    if e < s.len() && is_ident_start(s[e]) {
        lemma_ident_end_bounds(s, e);
    }
}

fn push_token(tokens: &mut Vec<Token>, t: Token)
    ensures
        final(tokens).deep_view() == old(tokens).deep_view().push(t@),
{
    tokens.push(t);
    assert(tokens.deep_view() =~= old(tokens).deep_view().push(t@));
}

/// Splits `text` into tokens.
pub fn lex(text: &str) -> (r: Result<Vec<Token>, LexError>)
    ensures
        tokens_view(r) == lex_spec(text@),
{
    let v = chars_of(text);
    let ghost s = v@;
    let mut tokens: Vec<Token> = Vec::new();
    let mut i: usize = 0;
    assert(Seq::<TokenView>::empty() + Seq::<TokenView>::empty() =~= Seq::<TokenView>::empty());
    proof {
        match lex_from(s, 0) {
            Ok(rest) => { assert(tokens.deep_view() + rest =~= rest); },
            Err(_) => {},
        }
    }
    while i < v.len()
        invariant
            s == v@,
            s == text@,
            i <= v.len(),
            lex_spec(s) == prepend_all(tokens.deep_view(), lex_from(s, i as int)),
        decreases v.len() - i,
    {
        let c = v[i];
        let ghost before = tokens.deep_view();
        if c == ' ' || c == '\t' || c == '\n' || c == '\r' {
            i = i + 1;
        } else if is_ident_start_exec(c) {
            let e = scan_ident(&v, i);
            proof {
                lemma_ident_end_bounds(s, i + 1);
                assert(ident_end(s, i as int) == ident_end(s, i + 1));
            }
            let word = string_from_chars(&v, i, e);
            push_token(&mut tokens, Token::Ident(word));
            proof {
                match lex_from(s, e as int) {
                    Ok(rest) => { assert(before + (seq![TokenView::Ident(word@)] + rest) =~= tokens.deep_view() + rest); },
                    Err(_) => {},
                }
            }
            i = e;
        } else if '0' <= c && c <= '9' {
            let e = scan_number(&v, i);
            proof {
                lemma_int_literal_end(s, i as int);
            }
            let mut f = e;
            if e < v.len() && is_ident_start_exec(v[e]) {
                f = scan_ident(&v, e);
            }
            let digits = digits_string(&v, i, e);
            push_token(&mut tokens, Token::Int(digits));
            proof {
                assert(f == int_literal_end(s, i as int));
                match lex_from(s, f as int) {
                    Ok(rest) => { assert(before + (seq![TokenView::Int(digits@)] + rest) =~= tokens.deep_view() + rest); },
                    Err(_) => {},
                }
            }
            i = f;
        } else if c == '"' {
            proof {
                lemma_string_body_end(s, i + 1);
            }
            match scan_string(&v, i + 1) {
                Err(e) => {
                    return Err(e);
                },
                Ok((body, end)) => {
                    push_token(&mut tokens, Token::Str(body));
                    proof {
                        match lex_from(s, end as int) {
                            Ok(rest) => { assert(before + (seq![TokenView::Str(body@)] + rest) =~= tokens.deep_view() + rest); },
                            Err(_) => {},
                        }
                    }
                    i = end;
                },
            }
        } else if c == '=' || c == ',' || c == ':' || c == '[' || c == ']' {
            push_token(&mut tokens, Token::Punct(c));
            proof {
                match lex_from(s, i + 1) {
                    Ok(rest) => { assert(before + (seq![TokenView::Punct(c)] + rest) =~= tokens.deep_view() + rest); },
                    Err(_) => {},
                }
            }
            i = i + 1;
        } else {
            return Err(LexError::UnexpectedCharacter);
        }
    }
    proof {
        assert(tokens.deep_view() + Seq::<TokenView>::empty() =~= tokens.deep_view());
    }
    Ok(tokens)
}

// ------------------------------------------------------------------ printing

/// How a character is written inside a string literal: a backslash or a
/// double quote escaped, anything else as it is.
pub open spec fn escaped_char(c: char) -> Seq<char> {
    if c == '\\' || c == '"' {
        seq!['\\', c]
    } else {
        seq![c]
    }
}

/// The body of a string literal whose value is `v`.
pub open spec fn escaped(v: Seq<char>) -> Seq<char>
    decreases v.len(),
{
    if v.len() == 0 {
        Seq::empty()
    } else {
        escaped_char(v[0]) + escaped(v.drop_first())
    }
}

/// The string literal whose value is `v`.
pub open spec fn quoted(v: Seq<char>) -> Seq<char> {
    seq!['"'] + escaped(v) + seq!['"']
}

proof fn lemma_escaped_push(v: Seq<char>, c: char)
    ensures
        escaped(v.push(c)) == escaped(v) + escaped_char(c),
    decreases v.len(),
{
    if v.len() == 0 {
        assert(v.push(c).drop_first() =~= Seq::<char>::empty());
        assert(v.push(c)[0] == c);
        assert(escaped(Seq::<char>::empty()) =~= Seq::<char>::empty());
        assert(v =~= Seq::<char>::empty());
        assert(escaped(v.push(c)) =~= escaped_char(c));
    } else {
        assert(v.push(c).drop_first() =~= v.drop_first().push(c));
        lemma_escaped_push(v.drop_first(), c);
        assert(escaped(v.push(c)) =~= escaped(v) + escaped_char(c));
    }
}

/// The string literal body `escaped(v)` and its closing quote, at `i`,
/// read back as `v`.
proof fn lemma_escaped_body(s: Seq<char>, i: int, v: Seq<char>)
    requires
        0 <= i,
        i + escaped(v).len() + 1 <= s.len(),
        s.subrange(i, i + escaped(v).len() + 1) == escaped(v) + seq!['"'],
    ensures
        string_body(s, i) == Ok::<(Seq<char>, int), LexError>((v, i + escaped(v).len() + 1)),
    decreases v.len(),
{
    let b = escaped(v) + seq!['"'];
    assert(s[i] == s.subrange(i, i + escaped(v).len() + 1)[0]);
    if v.len() == 0 {
        assert(b[0] == '"');
        assert(v =~= Seq::<char>::empty());
    } else {
        let c = v[0];
        assert(escaped(v) == escaped_char(c) + escaped(v.drop_first()));
        let rest = v.drop_first();
        let k = escaped_char(c).len() as int;
        assert(b =~= escaped_char(c) + (escaped(rest) + seq!['"']));
        assert(s.subrange(i + k, i + k + escaped(rest).len() + 1) =~= escaped(rest) + seq!['"']) by {
            assert forall|j: int| 0 <= j < escaped(rest).len() + 1 implies
                #[trigger] s.subrange(i + k, i + k + escaped(rest).len() + 1)[j] == (escaped(rest) + seq!['"'])[j] by {
                assert(s.subrange(i, i + escaped(v).len() + 1)[k + j] == s[i + k + j]);
            }
        }
        lemma_escaped_body(s, i + k, rest);
        if c == '\\' || c == '"' {
            assert(s[i] == '\\');
            assert(s[i + 1] == s.subrange(i, i + escaped(v).len() + 1)[1]);
            assert(s[i + 1] == c);
            assert(escape_value(s[i + 1]) == Some(c));
            assert(seq![c] + rest =~= v);
            assert(string_body(s, i) == Ok::<(Seq<char>, int), LexError>((seq![c] + rest, i + 2 + escaped(rest).len() + 1)));
        } else {
            assert(s[i] == c);
            assert(seq![c] + rest =~= v);
            assert(string_body(s, i) == Ok::<(Seq<char>, int), LexError>((seq![c] + rest, i + 1 + escaped(rest).len() + 1)));
        }
    }
}

/// A quoted string reads back, as one string literal token, as the value
/// it quotes.
pub proof fn lemma_quoted_lexes(v: Seq<char>)
    ensures
        lex_spec(quoted(v)) == Ok::<Seq<TokenView>, LexError>(seq![TokenView::Str(v)]),
{
    let s = quoted(v);
    let n = escaped(v).len() as int;
    assert(s.subrange(1, n + 2) =~= escaped(v) + seq!['"']);
    lemma_escaped_body(s, 1, v);
    assert(s[0] == '"');
    assert(lex_from(s, n + 2) == Ok::<Seq<TokenView>, LexError>(Seq::empty()));
    assert(seq![TokenView::Str(v)] + Seq::<TokenView>::empty() =~= seq![TokenView::Str(v)]);
}

/// The text a token is written as.
pub open spec fn token_text(t: TokenView) -> Seq<char> {
    match t {
        TokenView::Ident(w) => w,
        TokenView::Str(v) => quoted(v),
        TokenView::Int(d) => d,
        TokenView::Punct(c) => seq![c],
    }
}

/// Tokens written one after another, each followed by a space.
pub open spec fn print_tokens(ts: Seq<TokenView>) -> Seq<char>
    decreases ts.len(),
{
    if ts.len() == 0 {
        Seq::empty()
    } else {
        token_text(ts[0]) + seq![' '] + print_tokens(ts.drop_first())
    }
}

/// A token that its text stands for: an identifier or a run of digits
/// that is not empty, any string literal, and the punctuation the lexer
/// knows.
pub open spec fn printable(t: TokenView) -> bool {
    match t {
        TokenView::Ident(w) => w.len() > 0 && is_ident_start(w[0])
            && forall|k: int| 0 <= k < w.len() ==> is_ident_char(#[trigger] w[k]),
        TokenView::Str(_) => true,
        TokenView::Int(d) => d.len() > 0 && forall|k: int| 0 <= k < d.len() ==> is_digit(#[trigger] d[k]),
        TokenView::Punct(c) => is_punct(c),
    }
}

proof fn lemma_ident_end_at(s: Seq<char>, i: int, e: int)
    requires
        0 <= i <= e < s.len(),
        forall|k: int| i <= k < e ==> is_ident_char(#[trigger] s[k]),
        !is_ident_char(s[e]),
    ensures
        ident_end(s, i) == e,
    decreases e - i,
{
    if i < e {
        lemma_ident_end_at(s, i + 1, e);
    }
}

proof fn lemma_number_end_at(s: Seq<char>, i: int, e: int)
    requires
        0 <= i <= e < s.len(),
        forall|k: int| i <= k < e ==> is_number_char(#[trigger] s[k]),
        !is_number_char(s[e]),
    ensures
        number_end(s, i) == e,
    decreases e - i,
{
    if i < e {
        lemma_number_end_at(s, i + 1, e);
    }
}

proof fn lemma_digits_of_digits(d: Seq<char>)
    requires
        forall|k: int| 0 <= k < d.len() ==> is_digit(#[trigger] d[k]),
    ensures
        digits_of(d) == d,
    decreases d.len(),
{
    if d.len() > 0 {
        let init = d.drop_last();
        assert forall|k: int| 0 <= k < init.len() implies is_digit(#[trigger] init[k]) by {
            assert(init[k] == d[k]);
        }
        lemma_digits_of_digits(init);
        let pred = |c: char| is_digit(c);
        assert(is_digit(d[d.len() - 1]));
        assert(d.drop_last() == init);
        assert(is_digit(d.last()));
        assert(pred(d.last()));
        reveal_with_fuel(Seq::filter, 1);
        assert(d.filter(pred) == init.filter(pred).push(d.last()));
        assert(init.push(d.last()) =~= d);
    }
}

/// One printed token at `p.len()`, followed by a space, reads as that
/// token and continues after the space.
proof fn lemma_lex_one(p: Seq<char>, t: TokenView, rest: Seq<char>)
    requires
        printable(t),
    ensures
        lex_from(p + token_text(t) + seq![' '] + rest, p.len() as int) == prepend(
            t,
            lex_from(p + token_text(t) + seq![' '] + rest, (p.len() + token_text(t).len() + 1) as int),
        ),
{
    let x = token_text(t);
    let s = p + x + seq![' '] + rest;
    let i = p.len() as int;
    let e = i + x.len();
    assert forall|k: int| 0 <= k < x.len() implies s[i + k] == #[trigger] x[k] by {}
    assert(s[e] == ' ');
    assert(lex_from(s, e) == lex_from(s, e + 1));
    match t {
        TokenView::Ident(w) => {
            assert(s[i] == w[0]);
            assert forall|k: int| i <= k < e implies is_ident_char(#[trigger] s[k]) by {
                assert(s[k] == w[k - i]);
            }
            lemma_ident_end_at(s, i, e);
            assert(s.subrange(i, e) =~= w);
        },
        TokenView::Int(d) => {
            assert(s[i] == d[0]);
            assert forall|k: int| i <= k < e implies is_number_char(#[trigger] s[k]) by {
                assert(s[k] == d[k - i]);
            }
            lemma_number_end_at(s, i, e);
            assert(int_literal_end(s, i) == e);
            assert(s.subrange(i, e) =~= d);
            lemma_digits_of_digits(d);
        },
        TokenView::Str(v) => {
            assert(s[i] == x[0]);
            assert(x[0] == '"');
            let n = escaped(v).len() as int;
            assert(x =~= seq!['"'] + escaped(v) + seq!['"']);
            assert(s.subrange(i + 1, i + 1 + n + 1) =~= escaped(v) + seq!['"']) by {
                assert forall|k: int| 0 <= k < n + 1 implies #[trigger] s.subrange(i + 1, i + 1 + n + 1)[k]
                    == (escaped(v) + seq!['"'])[k] by {
                    assert(s[i + 1 + k] == x[1 + k]);
                }
            }
            lemma_escaped_body(s, i + 1, v);
        },
        TokenView::Punct(c) => {
            assert(s[i] == c);
        },
    }
}

/// Printed tokens read back as the same tokens.
proof fn lemma_lex_printed(p: Seq<char>, ts: Seq<TokenView>)
    requires
        forall|k: int| 0 <= k < ts.len() ==> printable(#[trigger] ts[k]),
    ensures
        lex_from(p + print_tokens(ts), p.len() as int) == Ok::<Seq<TokenView>, LexError>(ts),
    decreases ts.len(),
{
    if ts.len() == 0 {
        assert(p + print_tokens(ts) =~= p);
        assert(ts =~= Seq::<TokenView>::empty());
    } else {
        let t = ts[0];
        let rest = ts.drop_first();
        let q = p + token_text(t) + seq![' '];
        assert(p + print_tokens(ts) =~= q + print_tokens(rest));
        assert forall|k: int| 0 <= k < rest.len() implies printable(#[trigger] rest[k]) by {
            assert(rest[k] == ts[k + 1]);
        }
        lemma_lex_printed(q, rest);
        lemma_lex_one(p, t, print_tokens(rest));
        assert(q.len() == p.len() + token_text(t).len() + 1);
        assert(lex_from(q + print_tokens(rest), q.len() as int) == Ok::<Seq<TokenView>, LexError>(rest));
        assert(seq![t] + rest =~= ts);
    }
}

/// Tokens written with `print_tokens` read back as the same tokens.
pub proof fn lemma_print_tokens_roundtrip(ts: Seq<TokenView>)
    requires
        forall|k: int| 0 <= k < ts.len() ==> printable(#[trigger] ts[k]),
    ensures
        lex_spec(print_tokens(ts)) == Ok::<Seq<TokenView>, LexError>(ts),
{
    lemma_lex_printed(Seq::empty(), ts);
    assert(Seq::<char>::empty() + print_tokens(ts) =~= print_tokens(ts));
}

/// The string literal whose value is `value`.
pub fn quote_string(value: &str) -> (r: String)
    ensures
        r@ == quoted(value@),
{
    let v = chars_of(value);
    let mut r = String::new();
    push_char(&mut r, '"');
    let mut k: usize = 0;
    assert(v@.take(0) =~= Seq::<char>::empty());
    while k < v.len()
        invariant
            k <= v.len(),
            v@ == value@,
            r@ == seq!['"'] + escaped(v@.take(k as int)),
        decreases v.len() - k,
    {
        let c = v[k];
        proof {
            assert(v@.take(k + 1) =~= v@.take(k as int).push(c));
            lemma_escaped_push(v@.take(k as int), c);
        }
        if c == '\\' || c == '"' {
            push_char(&mut r, '\\');
        }
        push_char(&mut r, c);
        k = k + 1;
        assert(r@ =~= seq!['"'] + escaped(v@.take(k as int)));
    }
    assert(v@.take(k as int) =~= v@);
    push_char(&mut r, '"');
    r
}

/// The text of tokens, each followed by a space.
pub fn print_token_list(ts: &Vec<Token>) -> (r: String)
    ensures
        r@ == print_tokens(ts.deep_view()),
{
    let ghost tv = ts.deep_view();
    let mut r = String::new();
    let mut i: usize = 0;
    assert(tv.skip(0) =~= tv);
    assert(Seq::<char>::empty() + print_tokens(tv) =~= print_tokens(tv));
    while i < ts.len()
        invariant
            i <= ts.len(),
            tv == ts.deep_view(),
            r@ + print_tokens(tv.skip(i as int)) == print_tokens(tv),
        decreases ts.len() - i,
    {
        let ghost before = r@;
        match &ts[i] {
            Token::Ident(w) => r.append(w.as_str()),
            Token::Int(d) => r.append(d.as_str()),
            Token::Str(v) => {
                let q = quote_string(v.as_str());
                r.append(q.as_str());
            },
            Token::Punct(c) => push_char(&mut r, *c),
        }
        push_char(&mut r, ' ');
        proof {
            assert(tv[i as int] == ts[i as int]@);
            assert(r@ == before + token_text(tv[i as int]) + seq![' ']);
            assert(tv.skip(i as int)[0] == tv[i as int]);
            assert(tv.skip(i as int).drop_first() =~= tv.skip(i + 1));
            assert(before + print_tokens(tv.skip(i as int))
                =~= r@ + print_tokens(tv.skip(i + 1)));
        }
        i = i + 1;
    }
    assert(tv.skip(i as int) =~= Seq::<TokenView>::empty());
    assert(r@ + Seq::<char>::empty() =~= r@);
    r
}

} // verus!
