//! The arguments of the container attribute: a comma separated list of
//! properties such as `image = "docker.io/library/nginx"`, and the
//! arguments of a field attribute such as `env_var = "PASSWORD"`.
//!
//! ```text
//! properties := [ property { "," property } [ "," ] ]
//! property   := "image" "=" STR | "health_check_command" "=" STR
//!             | "wait_log" "=" STR | "health_check_timeout" "=" INT
//!             | "wait_time" "=" INT
//!             | "command" "=" "[" [ STR { "," STR } [ "," ] ] "]"
//!             | "ports" "=" "[" [ INT ":" INT { "," INT ":" INT } [ "," ] ] "]"
//! field      := IDENT "=" ( STR | INT | "true" | "false" )
//! ```
//!
//! `print_property_list` writes properties back as text that reads as the
//! same properties (`lemma_print_properties_roundtrip`).

use vstd::prelude::*;
use crate::parser::lexer::{
    is_digit, is_ident_char, is_ident_start, lemma_print_tokens_roundtrip, lex, lex_spec, print_token_list,
    print_tokens, printable, LexError, Token, TokenView,
};

verus! {

/// Why a description could not be read.
#[derive(Debug, PartialEq, Eq, Structural)]
pub enum ParseError {
    /// The text does not split into tokens.
    Lex(LexError),
    /// A property that is none of the known ones.
    UnknownProperty,
    /// A token where another one was expected.
    UnexpectedToken,
    /// The text ends where more was expected.
    UnexpectedEnd,
    /// An integer that does not fit the number type it is read as.
    IntegerOutOfRange,
    /// A property value, or a list item, that should be a string literal.
    ExpectedLitStr,
    /// A property value, or a port, that should be an integer literal.
    ExpectedLitInt,
    /// A field attribute whose value should be a string literal.
    ExpectedStringLiteral,
    /// A field attribute whose value should be an integer literal.
    ExpectedIntegerLiteral,
    /// A field attribute that is none of `env_var`, `arg` or `port`.
    UnknownFieldAttribute,
    /// A field whose type is neither a plain type nor an `Option`.
    UnsupportedFieldType,
    /// The struct carries no container attribute.
    MissingContainerAttribute,
    /// The struct carries more than one container attribute; `extra`
    /// counts those after the first, one error each.
    DuplicateContainerAttribute { extra: usize },
    /// An attribute whose arguments are not in parentheses.
    MissingArguments,
}

impl ParseError {
    /// The text that reports the error.
    pub fn message(&self) -> (r: String)
        ensures
            r@ == match self {
                ParseError::Lex(LexError::UnexpectedCharacter) => "unexpected character"@,
                ParseError::Lex(LexError::UnterminatedString) => "unterminated string literal"@,
                ParseError::Lex(LexError::UnknownEscape) => "unknown character escape"@,
                ParseError::UnknownProperty =>
                    "Expected any of: \"image\", \"command\", \"healt_check_command\", \"health_check_timeout\", \"ports\""@,
                ParseError::UnexpectedToken => "unexpected token"@,
                ParseError::UnexpectedEnd => "unexpected end of input"@,
                ParseError::IntegerOutOfRange => "number too large to fit in target type"@,
                ParseError::ExpectedLitStr => "expected string literal"@,
                ParseError::ExpectedLitInt => "expected integer literal"@,
                ParseError::ExpectedStringLiteral => "Expected a String literal"@,
                ParseError::ExpectedIntegerLiteral => "Expected an Integer literal"@,
                ParseError::UnknownFieldAttribute => "Expected any of: arg or env_var or port"@,
                ParseError::UnsupportedFieldType => "Expected: Option or plain type"@,
                ParseError::MissingContainerAttribute => "Expected container annotation"@,
                ParseError::DuplicateContainerAttribute { .. } => "Expected only one container annotation"@,
                ParseError::MissingArguments => "expected attribute arguments in parentheses"@,
            },
    {
        match self {
            ParseError::Lex(LexError::UnexpectedCharacter) => String::from_str("unexpected character"),
            ParseError::Lex(LexError::UnterminatedString) => String::from_str("unterminated string literal"),
            ParseError::Lex(LexError::UnknownEscape) => String::from_str("unknown character escape"),
            ParseError::UnknownProperty => String::from_str(
                "Expected any of: \"image\", \"command\", \"healt_check_command\", \"health_check_timeout\", \"ports\"",
            ),
            ParseError::UnexpectedToken => String::from_str("unexpected token"),
            ParseError::UnexpectedEnd => String::from_str("unexpected end of input"),
            ParseError::IntegerOutOfRange => String::from_str("number too large to fit in target type"),
            ParseError::ExpectedLitStr => String::from_str("expected string literal"),
            ParseError::ExpectedLitInt => String::from_str("expected integer literal"),
            ParseError::ExpectedStringLiteral => String::from_str("Expected a String literal"),
            ParseError::ExpectedIntegerLiteral => String::from_str("Expected an Integer literal"),
            ParseError::UnknownFieldAttribute => String::from_str("Expected any of: arg or env_var or port"),
            ParseError::UnsupportedFieldType => String::from_str("Expected: Option or plain type"),
            ParseError::MissingContainerAttribute => String::from_str("Expected container annotation"),
            ParseError::DuplicateContainerAttribute { .. } => String::from_str("Expected only one container annotation"),
            ParseError::MissingArguments => String::from_str("expected attribute arguments in parentheses"),
        }
    }
}

/// One property of the container attribute. Integer literals are kept as
/// their decimal digits.
#[derive(Debug)]
pub enum Property {
    Command(Vec<String>),
    HealthCheckCommand(String),
    HealthCheckTimeout(String),
    Image(String),
    Ports(Vec<(String, String)>),
    WaitTime(String),
    WaitLog(String),
}

pub enum PropertyView {
    Command(Seq<Seq<char>>),
    HealthCheckCommand(Seq<char>),
    HealthCheckTimeout(Seq<char>),
    Image(Seq<char>),
    Ports(Seq<(Seq<char>, Seq<char>)>),
    WaitTime(Seq<char>),
    WaitLog(Seq<char>),
}

pub open spec fn pairs_view(v: Vec<(String, String)>) -> Seq<(Seq<char>, Seq<char>)> {
    v@.map_values(|p: (String, String)| (p.0@, p.1@))
}

impl View for Property {
    type V = PropertyView;

    open spec fn view(&self) -> PropertyView {
        match self {
            Property::Command(v) => PropertyView::Command(v.deep_view()),
            Property::HealthCheckCommand(s) => PropertyView::HealthCheckCommand(s@),
            Property::HealthCheckTimeout(s) => PropertyView::HealthCheckTimeout(s@),
            Property::Image(s) => PropertyView::Image(s@),
            Property::Ports(v) => PropertyView::Ports(pairs_view(*v)),
            Property::WaitTime(s) => PropertyView::WaitTime(s@),
            Property::WaitLog(s) => PropertyView::WaitLog(s@),
        }
    }
}

impl DeepView for Property {
    type V = PropertyView;

    open spec fn deep_view(&self) -> PropertyView {
        self@
    }
}

// ------------------------------------------------------------------ specs

pub open spec fn is_punct_at(ts: Seq<TokenView>, k: int, c: char) -> bool {
    0 <= k < ts.len() && ts[k] == TokenView::Punct(c)
}

/// The error for a missing token at `k`.
pub open spec fn missing_at(ts: Seq<TokenView>, k: int) -> ParseError {
    if k >= ts.len() {
        ParseError::UnexpectedEnd
    } else {
        ParseError::UnexpectedToken
    }
}

/// The error for a token at `k` that is not the literal `e` asks for.
pub open spec fn expected_at(ts: Seq<TokenView>, k: int, e: ParseError) -> ParseError {
    if k >= ts.len() {
        ParseError::UnexpectedEnd
    } else {
        e
    }
}

/// `"=" STR` at `k`.
pub open spec fn str_value(ts: Seq<TokenView>, k: int) -> Result<(Seq<char>, int), ParseError> {
    if !is_punct_at(ts, k, '=') {
        Err(missing_at(ts, k))
    } else if k + 1 < ts.len() && ts[k + 1] is Str {
        Ok((ts[k + 1]->Str_0, k + 2))
    } else {
        Err(expected_at(ts, k + 1, ParseError::ExpectedLitStr))
    }
}

/// `"=" INT` at `k`.
pub open spec fn int_value(ts: Seq<TokenView>, k: int) -> Result<(Seq<char>, int), ParseError> {
    if !is_punct_at(ts, k, '=') {
        Err(missing_at(ts, k))
    } else if k + 1 < ts.len() && ts[k + 1] is Int {
        Ok((ts[k + 1]->Int_0, k + 2))
    } else {
        Err(expected_at(ts, k + 1, ParseError::ExpectedLitInt))
    }
}

/// The string list after `[`, up to and including `]`.
pub open spec fn str_list(ts: Seq<TokenView>, k: int) -> Result<(Seq<Seq<char>>, int), ParseError>
    decreases ts.len() - k,
{
    if k < 0 || k >= ts.len() {
        Err(ParseError::UnexpectedEnd)
    } else if ts[k] == TokenView::Punct(']') {
        Ok((Seq::empty(), k + 1))
    } else if ts[k] is Str {
        let v = ts[k]->Str_0;
        if is_punct_at(ts, k + 1, ']') {
            Ok((seq![v], k + 2))
        } else if is_punct_at(ts, k + 1, ',') {
            match str_list(ts, k + 2) {
                Err(e) => Err(e),
                Ok((rest, end)) => Ok((seq![v] + rest, end)),
            }
        } else {
            Err(missing_at(ts, k + 1))
        }
    } else {
        Err(ParseError::ExpectedLitStr)
    }
}

/// The port list after `[`, up to and including `]`.
pub open spec fn port_list(ts: Seq<TokenView>, k: int) -> Result<(Seq<(Seq<char>, Seq<char>)>, int), ParseError>
    decreases ts.len() - k,
{
    if k < 0 || k >= ts.len() {
        Err(ParseError::UnexpectedEnd)
    } else if ts[k] == TokenView::Punct(']') {
        Ok((Seq::empty(), k + 1))
    } else if ts[k] is Int {
        if !is_punct_at(ts, k + 1, ':') {
            Err(missing_at(ts, k + 1))
        } else if !(k + 2 < ts.len() && ts[k + 2] is Int) {
            Err(expected_at(ts, k + 2, ParseError::ExpectedLitInt))
        } else {
            let p = (ts[k]->Int_0, ts[k + 2]->Int_0);
            if is_punct_at(ts, k + 3, ']') {
                Ok((seq![p], k + 4))
            } else if is_punct_at(ts, k + 3, ',') {
                match port_list(ts, k + 4) {
                    Err(e) => Err(e),
                    Ok((rest, end)) => Ok((seq![p] + rest, end)),
                }
            } else {
                Err(missing_at(ts, k + 3))
            }
        }
    } else {
        Err(ParseError::ExpectedLitInt)
    }
}

/// One property at `k`, and the position after it.
pub open spec fn property_at(ts: Seq<TokenView>, k: int) -> Result<(PropertyView, int), ParseError> {
    if k < 0 || k >= ts.len() || !(ts[k] is Ident) {
        Err(ParseError::UnknownProperty)
    } else {
        let w = ts[k]->Ident_0;
        if w == "image"@ {
            match str_value(ts, k + 1) { Err(e) => Err(e), Ok((v, e)) => Ok((PropertyView::Image(v), e)) }
        } else if w == "health_check_command"@ {
            match str_value(ts, k + 1) { Err(e) => Err(e), Ok((v, e)) => Ok((PropertyView::HealthCheckCommand(v), e)) }
        } else if w == "wait_log"@ {
            match str_value(ts, k + 1) { Err(e) => Err(e), Ok((v, e)) => Ok((PropertyView::WaitLog(v), e)) }
        } else if w == "health_check_timeout"@ {
            match int_value(ts, k + 1) { Err(e) => Err(e), Ok((v, e)) => Ok((PropertyView::HealthCheckTimeout(v), e)) }
        } else if w == "wait_time"@ {
            match int_value(ts, k + 1) { Err(e) => Err(e), Ok((v, e)) => Ok((PropertyView::WaitTime(v), e)) }
        } else if w == "command"@ {
            if !is_punct_at(ts, k + 1, '=') {
                Err(missing_at(ts, k + 1))
            } else if !is_punct_at(ts, k + 2, '[') {
                Err(missing_at(ts, k + 2))
            } else {
                match str_list(ts, k + 3) { Err(e) => Err(e), Ok((v, e)) => Ok((PropertyView::Command(v), e)) }
            }
        } else if w == "ports"@ {
            if !is_punct_at(ts, k + 1, '=') {
                Err(missing_at(ts, k + 1))
            } else if !is_punct_at(ts, k + 2, '[') {
                Err(missing_at(ts, k + 2))
            } else {
                match port_list(ts, k + 3) { Err(e) => Err(e), Ok((v, e)) => Ok((PropertyView::Ports(v), e)) }
            }
        } else {
            Err(ParseError::UnknownProperty)
        }
    }
}

/// The properties from `k` to the end.
pub open spec fn properties_from(ts: Seq<TokenView>, k: int) -> Result<Seq<PropertyView>, ParseError>
    decreases ts.len() - k,
{
    if k < 0 || k >= ts.len() {
        Ok(Seq::empty())
    } else {
        match property_at(ts, k) {
            Err(e) => Err(e),
            Ok((p, j)) => if j <= k || j > ts.len() {
                Err(ParseError::UnexpectedToken)
            } else if j == ts.len() {
                Ok(seq![p])
            } else if ts[j] == TokenView::Punct(',') {
                match properties_from(ts, j + 1) {
                    Err(e) => Err(e),
                    Ok(rest) => Ok(seq![p] + rest),
                }
            } else {
                Err(ParseError::UnexpectedToken)
            },
        }
    }
}

/// The properties of the container attribute's arguments `text`.
pub open spec fn properties_spec(text: Seq<char>) -> Result<Seq<PropertyView>, ParseError> {
    match lex_spec(text) {
        Err(e) => Err(ParseError::Lex(e)),
        Ok(ts) => properties_from(ts, 0),
    }
}

// ------------------------------------------------------------------ exec

fn punct_at(ts: &Vec<Token>, k: usize, c: char) -> (r: bool)
    ensures
        r == is_punct_at(ts.deep_view(), k as int, c),
{
    if k < ts.len() {
        match &ts[k] {
            Token::Punct(p) => *p == c,
            _ => false,
        }
    } else {
        false
    }
}

fn missing(ts: &Vec<Token>, k: usize) -> (r: ParseError)
    ensures
        r == missing_at(ts.deep_view(), k as int),
{
    if k >= ts.len() {
        ParseError::UnexpectedEnd
    } else {
        ParseError::UnexpectedToken
    }
}

fn expected(ts: &Vec<Token>, k: usize, e: ParseError) -> (r: ParseError)
    ensures
        r == expected_at(ts.deep_view(), k as int, e),
{
    if k >= ts.len() {
        ParseError::UnexpectedEnd
    } else {
        e
    }
}

/// Whether `w` is the word `lit`.
pub fn word_is(w: &String, lit: &str) -> (r: bool)
    ensures
        r == (w@ == lit@),
{
    w.eq(&String::from_str(lit))
}

fn str_value_exec(ts: &Vec<Token>, k: usize) -> (r: Result<(String, usize), ParseError>)
    requires
        k <= ts.len(),
    ensures
        match (r, str_value(ts.deep_view(), k as int)) {
            (Ok((v, e)), Ok((sv, se))) => v@ == sv && e == se,
            (Err(e), Err(se)) => e == se,
            _ => false,
        },
{
    if !punct_at(ts, k, '=') {
        return Err(missing(ts, k));
    }
    if k + 1 < ts.len() {
        match &ts[k + 1] {
            Token::Str(v) => {
                return Ok((v.clone(), k + 2));
            },
            _ => {},
        }
    }
    Err(expected(ts, k + 1, ParseError::ExpectedLitStr))
}

fn int_value_exec(ts: &Vec<Token>, k: usize) -> (r: Result<(String, usize), ParseError>)
    requires
        k <= ts.len(),
    ensures
        match (r, int_value(ts.deep_view(), k as int)) {
            (Ok((v, e)), Ok((sv, se))) => v@ == sv && e == se,
            (Err(e), Err(se)) => e == se,
            _ => false,
        },
{
    if !punct_at(ts, k, '=') {
        return Err(missing(ts, k));
    }
    if k + 1 < ts.len() {
        match &ts[k + 1] {
            Token::Int(v) => {
                return Ok((v.clone(), k + 2));
            },
            _ => {},
        }
    }
    Err(expected(ts, k + 1, ParseError::ExpectedLitInt))
}

fn str_list_exec(ts: &Vec<Token>, k: usize) -> (r: Result<(Vec<String>, usize), ParseError>)
    requires
        k <= ts.len(),
    ensures
        match (r, str_list(ts.deep_view(), k as int)) {
            (Ok((v, e)), Ok((sv, se))) => v.deep_view() == sv && e == se,
            (Err(e), Err(se)) => e == se,
            _ => false,
        },
    decreases ts.len() - k,
{
    if k >= ts.len() {
        return Err(ParseError::UnexpectedEnd);
    }
    match &ts[k] {
        Token::Punct(c) => {
            if *c == ']' {
                let v: Vec<String> = Vec::new();
                assert(v.deep_view() =~= Seq::<Seq<char>>::empty());
                Ok((v, k + 1))
            } else {
                Err(ParseError::ExpectedLitStr)
            }
        },
        Token::Str(item) => {
            if punct_at(ts, k + 1, ']') {
                let mut v: Vec<String> = Vec::new();
                v.push(item.clone());
                assert(v.deep_view() =~= seq![item@]);
                Ok((v, k + 2))
            } else if punct_at(ts, k + 1, ',') {
                match str_list_exec(ts, k + 2) {
                    Err(e) => Err(e),
                    Ok((rest, end)) => {
                        let mut v = rest;
                        let ghost old_v = v.deep_view();
                        v.insert(0, item.clone());
                        assert(v.deep_view() =~= seq![item@] + old_v);
                        Ok((v, end))
                    },
                }
            } else {
                Err(missing(ts, k + 1))
            }
        },
        _ => Err(ParseError::ExpectedLitStr),
    }
}

fn port_list_exec(ts: &Vec<Token>, k: usize) -> (r: Result<(Vec<(String, String)>, usize), ParseError>)
    requires
        k <= ts.len(),
    ensures
        match (r, port_list(ts.deep_view(), k as int)) {
            (Ok((v, e)), Ok((sv, se))) => pairs_view(v) == sv && e == se,
            (Err(e), Err(se)) => e == se,
            _ => false,
        },
    decreases ts.len() - k,
{
    if k >= ts.len() {
        return Err(ParseError::UnexpectedEnd);
    }
    match &ts[k] {
        Token::Punct(c) => {
            if *c == ']' {
                let v: Vec<(String, String)> = Vec::new();
                assert(pairs_view(v) =~= Seq::<(Seq<char>, Seq<char>)>::empty());
                Ok((v, k + 1))
            } else {
                Err(ParseError::ExpectedLitInt)
            }
        },
        Token::Int(source) => {
            if !punct_at(ts, k + 1, ':') {
                return Err(missing(ts, k + 1));
            }
            let target = if k + 2 < ts.len() {
                match &ts[k + 2] {
                    Token::Int(t) => t.clone(),
                    _ => {
                        return Err(expected(ts, k + 2, ParseError::ExpectedLitInt));
                    },
                }
            } else {
                return Err(expected(ts, k + 2, ParseError::ExpectedLitInt));
            };
            let pair = (source.clone(), target);
            if punct_at(ts, k + 3, ']') {
                let mut v: Vec<(String, String)> = Vec::new();
                v.push(pair);
                assert(pairs_view(v) =~= seq![(pair.0@, pair.1@)]);
                Ok((v, k + 4))
            } else if punct_at(ts, k + 3, ',') {
                match port_list_exec(ts, k + 4) {
                    Err(e) => Err(e),
                    Ok((rest, end)) => {
                        let mut v = rest;
                        let ghost old_v = pairs_view(v);
                        v.insert(0, pair);
                        assert(pairs_view(v) =~= seq![(pair.0@, pair.1@)] + old_v);
                        Ok((v, end))
                    },
                }
            } else {
                Err(missing(ts, k + 3))
            }
        },
        _ => Err(ParseError::ExpectedLitInt),
    }
}

#[verifier::rlimit(60)]
#[verifier::spinoff_prover]
fn property_exec(ts: &Vec<Token>, k: usize) -> (r: Result<(Property, usize), ParseError>)
    requires
        k <= ts.len(),
    ensures
        match (r, property_at(ts.deep_view(), k as int)) {
            (Ok((p, e)), Ok((sp, se))) => p@ == sp && e == se,
            (Err(e), Err(se)) => e == se,
            _ => false,
        },
{
    if k >= ts.len() {
        return Err(ParseError::UnknownProperty);
    }
    let w = match &ts[k] {
        Token::Ident(w) => w,
        _ => {
            return Err(ParseError::UnknownProperty);
        },
    };
    if word_is(w, "image") {
        match str_value_exec(ts, k + 1) { Err(e) => Err(e), Ok((v, e)) => Ok((Property::Image(v), e)) }
    } else if word_is(w, "health_check_command") {
        match str_value_exec(ts, k + 1) { Err(e) => Err(e), Ok((v, e)) => Ok((Property::HealthCheckCommand(v), e)) }
    } else if word_is(w, "wait_log") {
        match str_value_exec(ts, k + 1) { Err(e) => Err(e), Ok((v, e)) => Ok((Property::WaitLog(v), e)) }
    } else if word_is(w, "health_check_timeout") {
        match int_value_exec(ts, k + 1) { Err(e) => Err(e), Ok((v, e)) => Ok((Property::HealthCheckTimeout(v), e)) }
    } else if word_is(w, "wait_time") {
        match int_value_exec(ts, k + 1) { Err(e) => Err(e), Ok((v, e)) => Ok((Property::WaitTime(v), e)) }
    } else if word_is(w, "command") {
        if !punct_at(ts, k + 1, '=') {
            Err(missing(ts, k + 1))
        } else if !punct_at(ts, k + 2, '[') {
            Err(missing(ts, k + 2))
        } else {
            match str_list_exec(ts, k + 3) { Err(e) => Err(e), Ok((v, e)) => Ok((Property::Command(v), e)) }
        }
    } else if word_is(w, "ports") {
        if !punct_at(ts, k + 1, '=') {
            Err(missing(ts, k + 1))
        } else if !punct_at(ts, k + 2, '[') {
            Err(missing(ts, k + 2))
        } else {
            match port_list_exec(ts, k + 3) { Err(e) => Err(e), Ok((v, e)) => Ok((Property::Ports(v), e)) }
        }
    } else {
        Err(ParseError::UnknownProperty)
    }
}

pub open spec fn properties_view(r: Result<Vec<Property>, ParseError>) -> Result<Seq<PropertyView>, ParseError> {
    match r {
        Ok(v) => Ok(v.deep_view()),
        Err(e) => Err(e),
    }
}

fn properties_exec(ts: &Vec<Token>, k: usize) -> (r: Result<Vec<Property>, ParseError>)
    requires
        k <= ts.len(),
    ensures
        properties_view(r) == properties_from(ts.deep_view(), k as int),
    decreases ts.len() - k,
{
    if k >= ts.len() {
        let v: Vec<Property> = Vec::new();
        assert(v.deep_view() =~= Seq::<PropertyView>::empty());
        return Ok(v);
    }
    match property_exec(ts, k) {
        Err(e) => Err(e),
        Ok((p, j)) => {
            if j <= k || j > ts.len() {
                Err(ParseError::UnexpectedToken)
            } else if j == ts.len() {
                let mut v: Vec<Property> = Vec::new();
                let ghost pv = p@;
                v.push(p);
                assert(v.deep_view() =~= seq![pv]);
                Ok(v)
            } else if punct_at(ts, j, ',') {
                match properties_exec(ts, j + 1) {
                    Err(e) => Err(e),
                    Ok(rest) => {
                        let mut v = rest;
                        let ghost old_v = v.deep_view();
                        let ghost pv = p@;
                        v.insert(0, p);
                        assert(v.deep_view() =~= seq![pv] + old_v);
                        Ok(v)
                    },
                }
            } else {
                Err(ParseError::UnexpectedToken)
            }
        },
    }
}

/// Reads the container attribute's arguments.
pub fn parse_properties(text: &str) -> (r: Result<Vec<Property>, ParseError>)
    ensures
        properties_view(r) == properties_spec(text@),
{
    match lex(text) {
        Err(e) => Err(ParseError::Lex(e)),
        Ok(ts) => properties_exec(&ts, 0),
    }
}

// ------------------------------------------------------------------ printing

/// The items of a string list, each followed by a comma, and the closing
/// bracket.
pub open spec fn str_items(vs: Seq<Seq<char>>) -> Seq<TokenView>
    decreases vs.len(),
{
    if vs.len() == 0 {
        seq![TokenView::Punct(']')]
    } else {
        seq![TokenView::Str(vs[0]), TokenView::Punct(',')] + str_items(vs.drop_first())
    }
}

/// The items of a port list, each `source : target` followed by a comma,
/// and the closing bracket.
pub open spec fn port_items(ps: Seq<(Seq<char>, Seq<char>)>) -> Seq<TokenView>
    decreases ps.len(),
{
    if ps.len() == 0 {
        seq![TokenView::Punct(']')]
    } else {
        seq![TokenView::Int(ps[0].0), TokenView::Punct(':'), TokenView::Int(ps[0].1), TokenView::Punct(',')]
            + port_items(ps.drop_first())
    }
}

/// The tokens a property is written as.
pub open spec fn property_tokens(p: PropertyView) -> Seq<TokenView> {
    match p {
        PropertyView::Image(v) => seq![TokenView::Ident("image"@), TokenView::Punct('='), TokenView::Str(v)],
        PropertyView::HealthCheckCommand(v) => seq![
            TokenView::Ident("health_check_command"@),
            TokenView::Punct('='),
            TokenView::Str(v),
        ],
        PropertyView::WaitLog(v) => seq![TokenView::Ident("wait_log"@), TokenView::Punct('='), TokenView::Str(v)],
        PropertyView::HealthCheckTimeout(d) => seq![
            TokenView::Ident("health_check_timeout"@),
            TokenView::Punct('='),
            TokenView::Int(d),
        ],
        PropertyView::WaitTime(d) => seq![TokenView::Ident("wait_time"@), TokenView::Punct('='), TokenView::Int(d)],
        PropertyView::Command(vs) => seq![TokenView::Ident("command"@), TokenView::Punct('='), TokenView::Punct('[')]
            + str_items(vs),
        PropertyView::Ports(ps) => seq![TokenView::Ident("ports"@), TokenView::Punct('='), TokenView::Punct('[')]
            + port_items(ps),
    }
}

/// The tokens of properties, each followed by a comma.
pub open spec fn properties_tokens(ps: Seq<PropertyView>) -> Seq<TokenView>
    decreases ps.len(),
{
    if ps.len() == 0 {
        Seq::empty()
    } else {
        property_tokens(ps[0]) + seq![TokenView::Punct(',')] + properties_tokens(ps.drop_first())
    }
}

/// The text properties are written as.
pub open spec fn print_properties(ps: Seq<PropertyView>) -> Seq<char> {
    print_tokens(properties_tokens(ps))
}

proof fn lemma_str_items(pre: Seq<TokenView>, vs: Seq<Seq<char>>, post: Seq<TokenView>)
    ensures
        str_list(pre + str_items(vs) + post, pre.len() as int)
            == Ok::<(Seq<Seq<char>>, int), ParseError>((vs, (pre.len() + str_items(vs).len()) as int)),
    decreases vs.len(),
{
    let ts = pre + str_items(vs) + post;
    let k = pre.len() as int;
    if vs.len() == 0 {
        assert(ts[k] == TokenView::Punct(']'));
        assert(vs =~= Seq::<Seq<char>>::empty());
    } else {
        let rest = vs.drop_first();
        let pre2 = pre + seq![TokenView::Str(vs[0]), TokenView::Punct(',')];
        assert(ts =~= pre2 + str_items(rest) + post);
        lemma_str_items(pre2, rest, post);
        assert(ts[k] == TokenView::Str(vs[0]));
        assert(ts[k + 1] == TokenView::Punct(','));
        assert(seq![vs[0]] + rest =~= vs);
    }
}

proof fn lemma_port_items(pre: Seq<TokenView>, ps: Seq<(Seq<char>, Seq<char>)>, post: Seq<TokenView>)
    ensures
        port_list(pre + port_items(ps) + post, pre.len() as int)
            == Ok::<(Seq<(Seq<char>, Seq<char>)>, int), ParseError>((ps, (pre.len() + port_items(ps).len()) as int)),
    decreases ps.len(),
{
    let ts = pre + port_items(ps) + post;
    let k = pre.len() as int;
    if ps.len() == 0 {
        assert(ts[k] == TokenView::Punct(']'));
        assert(ps =~= Seq::<(Seq<char>, Seq<char>)>::empty());
    } else {
        let rest = ps.drop_first();
        let item = seq![TokenView::Int(ps[0].0), TokenView::Punct(':'), TokenView::Int(ps[0].1), TokenView::Punct(',')];
        let pre2 = pre + item;
        assert(ts =~= pre2 + port_items(rest) + post);
        lemma_port_items(pre2, rest, post);
        assert(ts[k] == item[0]);
        assert(ts[k + 1] == item[1]);
        assert(ts[k + 2] == item[2]);
        assert(ts[k + 3] == item[3]);
        assert(seq![ps[0]] + rest =~= ps);
    }
}

proof fn lemma_property_tokens(pre: Seq<TokenView>, p: PropertyView, post: Seq<TokenView>)
    ensures
        property_at(pre + property_tokens(p) + post, pre.len() as int)
            == Ok::<(PropertyView, int), ParseError>((p, (pre.len() + property_tokens(p).len()) as int)),
{
    let ts = pre + property_tokens(p) + post;
    let k = pre.len() as int;
    let x = property_tokens(p);
    assert forall|j: int| 0 <= j < x.len() implies ts[k + j] == #[trigger] x[j] by {}
    reveal_strlit("image");
    reveal_strlit("health_check_command");
    reveal_strlit("wait_log");
    reveal_strlit("health_check_timeout");
    reveal_strlit("wait_time");
    reveal_strlit("command");
    reveal_strlit("ports");
    assert(ts[k] == x[0]);
    assert(ts[k + 1] == x[1]);
    assert(ts[k + 2] == x[2]);
    assert("image"@.len() == 5 && "ports"@.len() == 5 && "command"@.len() == 7 && "wait_log"@.len() == 8);
    assert("wait_time"@.len() == 9 && "health_check_command"@.len() == 20 && "health_check_timeout"@.len() == 20);
    assert("image"@[0] != "ports"@[0]);
    assert("health_check_command"@[13] != "health_check_timeout"@[13]);
    match p {
        PropertyView::Command(vs) => {
            let pre2 = pre + seq![TokenView::Ident("command"@), TokenView::Punct('='), TokenView::Punct('[')];
            assert(ts =~= pre2 + str_items(vs) + post);
            lemma_str_items(pre2, vs, post);
            assert(property_at(ts, k) == Ok::<(PropertyView, int), ParseError>((p, k + x.len())));
        },
        PropertyView::Ports(ps) => {
            let pre2 = pre + seq![TokenView::Ident("ports"@), TokenView::Punct('='), TokenView::Punct('[')];
            assert(ts =~= pre2 + port_items(ps) + post);
            lemma_port_items(pre2, ps, post);
            assert(property_at(ts, k) == Ok::<(PropertyView, int), ParseError>((p, k + x.len())));
        },
        PropertyView::Image(v) => {
            assert(property_at(ts, k) == Ok::<(PropertyView, int), ParseError>((p, k + x.len())));
        },
        PropertyView::HealthCheckCommand(v) => {
            assert(property_at(ts, k) == Ok::<(PropertyView, int), ParseError>((p, k + x.len())));
        },
        PropertyView::WaitLog(v) => {
            assert(property_at(ts, k) == Ok::<(PropertyView, int), ParseError>((p, k + x.len())));
        },
        PropertyView::HealthCheckTimeout(v) => {
            assert(property_at(ts, k) == Ok::<(PropertyView, int), ParseError>((p, k + x.len())));
        },
        PropertyView::WaitTime(v) => {
            assert(property_at(ts, k) == Ok::<(PropertyView, int), ParseError>((p, k + x.len())));
        },
    }
}

proof fn lemma_properties_tokens(pre: Seq<TokenView>, ps: Seq<PropertyView>)
    ensures
        properties_from(pre + properties_tokens(ps), pre.len() as int) == Ok::<Seq<PropertyView>, ParseError>(ps),
    decreases ps.len(),
{
    let ts = pre + properties_tokens(ps);
    let k = pre.len() as int;
    if ps.len() == 0 {
        assert(ts =~= pre);
        assert(ps =~= Seq::<PropertyView>::empty());
    } else {
        let p = ps[0];
        let rest = ps.drop_first();
        let x = property_tokens(p);
        let post = seq![TokenView::Punct(',')] + properties_tokens(rest);
        assert(ts =~= pre + x + post);
        lemma_property_tokens(pre, p, post);
        assert(x.len() >= 3);
        let j = k + x.len();
        assert(ts[j] == TokenView::Punct(','));
        let pre2 = pre + x + seq![TokenView::Punct(',')];
        assert(ts =~= pre2 + properties_tokens(rest));
        lemma_properties_tokens(pre2, rest);
        assert(seq![p] + rest =~= ps);
    }
}

/// Every integer a property holds is a non-empty run of digits.
pub open spec fn digits_run(d: Seq<char>) -> bool {
    d.len() > 0 && forall|k: int| 0 <= k < d.len() ==> is_digit(#[trigger] d[k])
}

/// A property that its printed text stands for: its integers are runs
/// of digits.
pub open spec fn printable_property(p: PropertyView) -> bool {
    match p {
        PropertyView::HealthCheckTimeout(d) => digits_run(d),
        PropertyView::WaitTime(d) => digits_run(d),
        PropertyView::Ports(ps) => forall|i: int| 0 <= i < ps.len() ==> digits_run(#[trigger] ps[i].0) && digits_run(ps[i].1),
        _ => true,
    }
}

proof fn lemma_ident_printable(w: Seq<char>)
    requires
        w.len() > 0,
        forall|k: int| 0 <= k < w.len() ==> ('a' <= #[trigger] w[k] <= 'z' || w[k] == '_'),
    ensures
        printable(TokenView::Ident(w)),
{
    assert(is_ident_start(w[0]));
    assert forall|k: int| 0 <= k < w.len() implies is_ident_char(#[trigger] w[k]) by {}
}

proof fn lemma_items_printable(p: PropertyView)
    requires
        printable_property(p),
    ensures
        forall|k: int| 0 <= k < property_tokens(p).len() ==> printable(#[trigger] property_tokens(p)[k]),
{
    reveal_strlit("image");
    reveal_strlit("health_check_command");
    reveal_strlit("wait_log");
    reveal_strlit("health_check_timeout");
    reveal_strlit("wait_time");
    reveal_strlit("command");
    reveal_strlit("ports");
    let x = property_tokens(p);
    lemma_ident_printable(x[0]->Ident_0);
    match p {
        PropertyView::Command(vs) => {
            lemma_str_items_printable(vs);
            assert forall|k: int| 0 <= k < x.len() implies printable(#[trigger] x[k]) by {
                if k >= 3 {
                    assert(x[k] == str_items(vs)[k - 3]);
                }
            }
        },
        PropertyView::Ports(ps) => {
            lemma_port_items_printable(ps);
            assert forall|k: int| 0 <= k < x.len() implies printable(#[trigger] x[k]) by {
                if k >= 3 {
                    assert(x[k] == port_items(ps)[k - 3]);
                }
            }
        },
        _ => {
            assert forall|k: int| 0 <= k < x.len() implies printable(#[trigger] x[k]) by {}
        },
    }
}

proof fn lemma_str_items_printable(vs: Seq<Seq<char>>)
    ensures
        forall|k: int| 0 <= k < str_items(vs).len() ==> printable(#[trigger] str_items(vs)[k]),
    decreases vs.len(),
{
    if vs.len() > 0 {
        lemma_str_items_printable(vs.drop_first());
        let head = seq![TokenView::Str(vs[0]), TokenView::Punct(',')];
        assert forall|k: int| 0 <= k < str_items(vs).len() implies printable(#[trigger] str_items(vs)[k]) by {
            if k >= 2 {
                assert(str_items(vs)[k] == str_items(vs.drop_first())[k - 2]);
            }
        }
    }
}

proof fn lemma_port_items_printable(ps: Seq<(Seq<char>, Seq<char>)>)
    requires
        forall|i: int| 0 <= i < ps.len() ==> digits_run(#[trigger] ps[i].0) && digits_run(ps[i].1),
    ensures
        forall|k: int| 0 <= k < port_items(ps).len() ==> printable(#[trigger] port_items(ps)[k]),
    decreases ps.len(),
{
    if ps.len() > 0 {
        let rest = ps.drop_first();
        assert forall|i: int| 0 <= i < rest.len() implies digits_run(#[trigger] rest[i].0) && digits_run(rest[i].1) by {
            assert(rest[i] == ps[i + 1]);
        }
        lemma_port_items_printable(rest);
        assert(digits_run(ps[0].0) && digits_run(ps[0].1));
        assert forall|k: int| 0 <= k < port_items(ps).len() implies printable(#[trigger] port_items(ps)[k]) by {
            if k >= 4 {
                assert(port_items(ps)[k] == port_items(rest)[k - 4]);
            }
        }
    }
}

proof fn lemma_properties_printable(ps: Seq<PropertyView>)
    requires
        forall|i: int| 0 <= i < ps.len() ==> printable_property(#[trigger] ps[i]),
    ensures
        forall|k: int| 0 <= k < properties_tokens(ps).len() ==> printable(#[trigger] properties_tokens(ps)[k]),
    decreases ps.len(),
{
    if ps.len() > 0 {
        let rest = ps.drop_first();
        assert forall|i: int| 0 <= i < rest.len() implies printable_property(#[trigger] rest[i]) by {
            assert(rest[i] == ps[i + 1]);
        }
        lemma_properties_printable(rest);
        assert(printable_property(ps[0]));
        lemma_items_printable(ps[0]);
        let x = property_tokens(ps[0]);
        let t = properties_tokens(ps);
        assert(t =~= x + seq![TokenView::Punct(',')] + properties_tokens(rest));
        assert forall|k: int| 0 <= k < t.len() implies printable(#[trigger] t[k]) by {
            if k < x.len() {
                assert(t[k] == x[k]);
            } else if k > x.len() {
                assert(t[k] == properties_tokens(rest)[k - x.len() - 1]);
            }
        }
    }
}

/// Printed properties read back as the same properties.
pub proof fn lemma_print_properties_roundtrip(ps: Seq<PropertyView>)
    requires
        forall|i: int| 0 <= i < ps.len() ==> printable_property(#[trigger] ps[i]),
    ensures
        properties_spec(print_properties(ps)) == Ok::<Seq<PropertyView>, ParseError>(ps),
{
    lemma_properties_printable(ps);
    lemma_print_tokens_roundtrip(properties_tokens(ps));
    lemma_properties_tokens(Seq::empty(), ps);
    assert(Seq::<TokenView>::empty() + properties_tokens(ps) =~= properties_tokens(ps));
}

fn push_token(ts: &mut Vec<Token>, t: Token)
    ensures
        final(ts).deep_view() == old(ts).deep_view().push(t@),
{
    ts.push(t);
    assert(ts.deep_view() =~= old(ts).deep_view().push(t@));
}

fn push_property_tokens(ts: &mut Vec<Token>, p: &Property)
    ensures
        final(ts).deep_view() == old(ts).deep_view() + property_tokens(p@),
{
    let ghost start = ts.deep_view();
    match p {
        Property::Image(v) => {
            push_token(ts, Token::Ident(String::from_str("image")));
            push_token(ts, Token::Punct('='));
            push_token(ts, Token::Str(v.clone()));
        },
        Property::HealthCheckCommand(v) => {
            push_token(ts, Token::Ident(String::from_str("health_check_command")));
            push_token(ts, Token::Punct('='));
            push_token(ts, Token::Str(v.clone()));
        },
        Property::WaitLog(v) => {
            push_token(ts, Token::Ident(String::from_str("wait_log")));
            push_token(ts, Token::Punct('='));
            push_token(ts, Token::Str(v.clone()));
        },
        Property::HealthCheckTimeout(d) => {
            push_token(ts, Token::Ident(String::from_str("health_check_timeout")));
            push_token(ts, Token::Punct('='));
            push_token(ts, Token::Int(d.clone()));
        },
        Property::WaitTime(d) => {
            push_token(ts, Token::Ident(String::from_str("wait_time")));
            push_token(ts, Token::Punct('='));
            push_token(ts, Token::Int(d.clone()));
        },
        Property::Command(vs) => {
            push_token(ts, Token::Ident(String::from_str("command")));
            push_token(ts, Token::Punct('='));
            push_token(ts, Token::Punct('['));
            let ghost head = ts.deep_view();
            let ghost vv = vs.deep_view();
            assert(vv.skip(0) =~= vv);
            let mut i: usize = 0;
            while i < vs.len()
                invariant
                    i <= vs.len(),
                    vv == vs.deep_view(),
                    ts.deep_view() + str_items(vv.skip(i as int)) == head + str_items(vv),
                decreases vs.len() - i,
            {
                let ghost before = ts.deep_view();
                push_token(ts, Token::Str(vs[i].clone()));
                push_token(ts, Token::Punct(','));
                proof {
                    assert(vv.skip(i as int)[0] == vv[i as int]);
                    assert(vv.skip(i as int).drop_first() =~= vv.skip(i + 1));
                    assert(before + str_items(vv.skip(i as int)) =~= ts.deep_view() + str_items(vv.skip(i + 1)));
                }
                i = i + 1;
            }
            assert(vv.skip(i as int) =~= Seq::<Seq<char>>::empty());
            assert(str_items(vv.skip(i as int)) == seq![TokenView::Punct(']')]);
            push_token(ts, Token::Punct(']'));
            assert(ts.deep_view() == head + str_items(vv));
            assert(head =~= start + seq![TokenView::Ident("command"@), TokenView::Punct('='), TokenView::Punct('[')]);
        },
        Property::Ports(ps) => {
            push_token(ts, Token::Ident(String::from_str("ports")));
            push_token(ts, Token::Punct('='));
            push_token(ts, Token::Punct('['));
            let ghost head = ts.deep_view();
            let ghost pv = pairs_view(*ps);
            assert(pv.skip(0) =~= pv);
            let mut i: usize = 0;
            while i < ps.len()
                invariant
                    i <= ps.len(),
                    pv == pairs_view(*ps),
                    ts.deep_view() + port_items(pv.skip(i as int)) == head + port_items(pv),
                decreases ps.len() - i,
            {
                let ghost before = ts.deep_view();
                push_token(ts, Token::Int(ps[i].0.clone()));
                push_token(ts, Token::Punct(':'));
                push_token(ts, Token::Int(ps[i].1.clone()));
                push_token(ts, Token::Punct(','));
                proof {
                    assert(pv[i as int] == (ps[i as int].0@, ps[i as int].1@));
                    assert(pv.skip(i as int)[0] == pv[i as int]);
                    assert(pv.skip(i as int).drop_first() =~= pv.skip(i + 1));
                    assert(before + port_items(pv.skip(i as int)) =~= ts.deep_view() + port_items(pv.skip(i + 1)));
                }
                i = i + 1;
            }
            assert(pv.skip(i as int) =~= Seq::<(Seq<char>, Seq<char>)>::empty());
            assert(port_items(pv.skip(i as int)) == seq![TokenView::Punct(']')]);
            push_token(ts, Token::Punct(']'));
            assert(ts.deep_view() == head + port_items(pv));
            assert(head =~= start + seq![TokenView::Ident("ports"@), TokenView::Punct('='), TokenView::Punct('[')]);
        },
    }
    assert(ts.deep_view() =~= start + property_tokens(p@));
}

/// Writes properties as the container attribute's arguments: each
/// property followed by a comma, the tokens separated by spaces.
pub fn print_property_list(ps: &Vec<Property>) -> (r: String)
    ensures
        r@ == print_properties(ps.deep_view()),
{
    let ghost pv = ps.deep_view();
    let mut ts: Vec<Token> = Vec::new();
    let mut i: usize = 0;
    assert(pv.skip(0) =~= pv);
    assert(ts.deep_view() + properties_tokens(pv) =~= properties_tokens(pv));
    while i < ps.len()
        invariant
            i <= ps.len(),
            pv == ps.deep_view(),
            ts.deep_view() + properties_tokens(pv.skip(i as int)) == properties_tokens(pv),
        decreases ps.len() - i,
    {
        let ghost before = ts.deep_view();
        push_property_tokens(&mut ts, &ps[i]);
        push_token(&mut ts, Token::Punct(','));
        proof {
            assert(pv[i as int] == ps[i as int]@);
            assert(pv.skip(i as int)[0] == pv[i as int]);
            assert(pv.skip(i as int).drop_first() =~= pv.skip(i + 1));
            assert(before + properties_tokens(pv.skip(i as int)) =~= ts.deep_view() + properties_tokens(pv.skip(i + 1)));
        }
        i = i + 1;
    }
    assert(pv.skip(i as int) =~= Seq::<PropertyView>::empty());
    assert(ts.deep_view() =~= properties_tokens(pv));
    print_token_list(&ts)
}

} // verus!
