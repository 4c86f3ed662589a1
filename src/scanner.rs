use vstd::prelude::*;

use crate::token::{denotes, is_digit, is_ident_start, keyword, Decimal, Token, TokenType};

verus! {

/// What went wrong at a place in the source that forms no token.
#[derive(Debug, Clone, Copy, PartialEq, Eq, Structural)]
pub enum ErrorKind {
    UnterminatedString,
    UnexpectedCharacter,
}

/// The text that reports an error of kind `k`.
pub open spec fn message_of(k: ErrorKind) -> Seq<char> {
    match k {
        ErrorKind::UnterminatedString => "Unterminated string."@,
        ErrorKind::UnexpectedCharacter => "Unexpected character."@,
    }
}

impl ErrorKind {
    pub fn message(&self) -> (r: &'static str)
        ensures
            r@ == message_of(*self),
    {
        match self {
            ErrorKind::UnterminatedString => "Unterminated string.",
            ErrorKind::UnexpectedCharacter => "Unexpected character.",
        }
    }
}

/// A scan error and the line (counted from 0) on which it stands.
#[derive(Debug, Clone, Copy, PartialEq, Eq, Structural)]
pub struct ScanError {
    pub line: usize,
    pub kind: ErrorKind,
}

/// A lexeme found in the source: where it starts, where it ends (exclusive),
/// and its line.
pub type Span = (int, int, nat);

/// A scan error as the model sees it: its line and its kind.
pub type Fault = (nat, ErrorKind);

pub open spec fn is_blank(c: char) -> bool {
    c == ' ' || c == '\r' || c == '\t'
}

pub open spec fn is_alnum(c: char) -> bool {
    is_ident_start(c) || is_digit(c)
}

/// The end of the run of digits that starts at `i`.
pub open spec fn digits_end(s: Seq<char>, i: int) -> int
    decreases s.len() - i,
{
    if 0 <= i < s.len() && is_digit(s[i]) {
        digits_end(s, i + 1)
    } else {
        i
    }
}

/// The end of the run of letters, digits and underscores that starts at `i`.
pub open spec fn ident_end(s: Seq<char>, i: int) -> int
    decreases s.len() - i,
{
    if 0 <= i < s.len() && is_alnum(s[i]) {
        ident_end(s, i + 1)
    } else {
        i
    }
}

/// The position of the first line break at or after `i`, or the end.
pub open spec fn line_end(s: Seq<char>, i: int) -> int
    decreases s.len() - i,
{
    if 0 <= i < s.len() && s[i] != '\n' {
        line_end(s, i + 1)
    } else {
        i
    }
}

/// The position of the first quote or line break at or after `i`, or the end.
pub open spec fn quote_end(s: Seq<char>, i: int) -> int
    decreases s.len() - i,
{
    if 0 <= i < s.len() && s[i] != '"' && s[i] != '\n' {
        quote_end(s, i + 1)
    } else {
        i
    }
}

/// The end of the number literal that starts at `i`: digits, then a point and
/// more digits if a digit follows the point.
pub open spec fn number_end(s: Seq<char>, i: int) -> int {
    let d = digits_end(s, i);
    if d + 1 < s.len() && s[d] == '.' && is_digit(s[d + 1]) {
        digits_end(s, d + 1)
    } else {
        d
    }
}

pub open spec fn is_single(c: char) -> bool {
    c == '(' || c == ')' || c == '{' || c == '}' || c == ',' || c == '.' || c == '-' || c
        == '+' || c == ';' || c == '*' || c == '/'
}

pub open spec fn is_pairing(c: char) -> bool {
    c == '!' || c == '=' || c == '<' || c == '>'
}

/// The end of the punctuation or operator token at `i`, or `i` if none starts there.
pub open spec fn simple_end(s: Seq<char>, i: int) -> int {
    if is_single(s[i]) {
        i + 1
    } else if is_pairing(s[i]) {
        if i + 1 < s.len() && s[i + 1] == '=' {
            i + 2
        } else {
            i + 1
        }
    } else {
        i
    }
}

/// One step of the scan at `i`, on line `line`: the lexeme found there, if
/// any; the error found there, if any; and where the scan goes on, on which line.
pub open spec fn step(s: Seq<char>, i: int, line: nat) -> (Option<Span>, Option<Fault>, int, nat) {
    let c = s[i];
    if c == '\n' {
        (None, None, i + 1, line + 1)
    } else if is_blank(c) {
        (None, None, i + 1, line)
    } else if c == '/' && i + 1 < s.len() && s[i + 1] == '/' {
        (None, None, line_end(s, i), line)
    } else if c == '"' {
        let q = quote_end(s, i + 1);
        if q < s.len() && s[q] == '"' {
            (Some((i, q + 1, line)), None, q + 1, line)
        } else {
            (None, Some((line, ErrorKind::UnterminatedString)), q, line)
        }
    } else if is_digit(c) {
        let e = number_end(s, i);
        (Some((i, e, line)), None, e, line)
    } else if is_ident_start(c) {
        let e = ident_end(s, i);
        (Some((i, e, line)), None, e, line)
    } else if simple_end(s, i) > i {
        let e = simple_end(s, i);
        (Some((i, e, line)), None, e, line)
    } else {
        (None, Some((line, ErrorKind::UnexpectedCharacter)), i + 1, line)
    }
}

pub open spec fn opt_seq<T>(o: Option<T>) -> Seq<T> {
    match o {
        Some(x) => seq![x],
        None => seq![],
    }
}

/// The lexemes and errors that the scan finds from `i` on, starting on line `line`.
pub open spec fn lex(s: Seq<char>, i: int, line: nat) -> (Seq<Span>, Seq<Fault>)
    decreases s.len() - i,
    via lex_decreases
{
    if 0 <= i < s.len() {
        let (t, f, next, next_line) = step(s, i, line);
        let rest = lex(s, next, next_line);
        (opt_seq(t) + rest.0, opt_seq(f) + rest.1)
    } else {
        (seq![], seq![])
    }
}

#[via_fn]
proof fn lex_decreases(s: Seq<char>, i: int, line: nat) {
    if 0 <= i < s.len() {
        lemma_step(s, i, line);
    }
}

pub proof fn lemma_digits_end(s: Seq<char>, i: int)
    requires
        0 <= i <= s.len(),
    ensures
        i <= digits_end(s, i) <= s.len(),
        forall|p: int| i <= p < digits_end(s, i) ==> is_digit(#[trigger] s[p]),
        digits_end(s, i) == s.len() || !is_digit(s[digits_end(s, i)]),
    decreases s.len() - i,
{
    if i < s.len() && is_digit(s[i]) {
        lemma_digits_end(s, i + 1);
    }
}

pub proof fn lemma_ident_end(s: Seq<char>, i: int)
    requires
        0 <= i <= s.len(),
    ensures
        i <= ident_end(s, i) <= s.len(),
        forall|p: int| i <= p < ident_end(s, i) ==> is_alnum(#[trigger] s[p]),
        ident_end(s, i) == s.len() || !is_alnum(s[ident_end(s, i)]),
    decreases s.len() - i,
{
    if i < s.len() && is_alnum(s[i]) {
        lemma_ident_end(s, i + 1);
    }
}

pub proof fn lemma_line_end(s: Seq<char>, i: int)
    requires
        0 <= i <= s.len(),
    ensures
        i <= line_end(s, i) <= s.len(),
        forall|p: int| i <= p < line_end(s, i) ==> #[trigger] s[p] != '\n',
        line_end(s, i) == s.len() || s[line_end(s, i)] == '\n',
    decreases s.len() - i,
{
    if i < s.len() && s[i] != '\n' {
        lemma_line_end(s, i + 1);
    }
}

pub proof fn lemma_quote_end(s: Seq<char>, i: int)
    requires
        0 <= i <= s.len(),
    ensures
        i <= quote_end(s, i) <= s.len(),
        forall|p: int| i <= p < quote_end(s, i) ==> #[trigger] s[p] != '"' && s[p] != '\n',
        quote_end(s, i) == s.len() || s[quote_end(s, i)] == '"' || s[quote_end(s, i)] == '\n',
    decreases s.len() - i,
{
    if i < s.len() && s[i] != '"' && s[i] != '\n' {
        lemma_quote_end(s, i + 1);
    }
}

/// A step moves forward and stays within the source; a lexeme it finds runs
/// from `i` to where the scan goes on, on the current line.
pub proof fn lemma_step(s: Seq<char>, i: int, line: nat)
    requires
        0 <= i < s.len(),
    ensures
        i < step(s, i, line).2 <= s.len(),
        step(s, i, line).0 matches Some(sp) ==> sp == (i, step(s, i, line).2, line),
        step(s, i, line).3 == if s[i] == '\n' { line + 1 } else { line },
{
    lemma_line_end(s, i);
    if i + 1 <= s.len() {
        lemma_quote_end(s, i + 1);
    }
    lemma_digits_end(s, i);
    let d = digits_end(s, i);
    if d + 1 < s.len() {
        lemma_digits_end(s, d + 1);
    }
    lemma_ident_end(s, i);
}

/// `t` is the token for the lexeme `sp` of `s`: its text, its line, and the
/// kind with the literal value that the text denotes.
pub open spec fn token_at(s: Seq<char>, t: Token, sp: Span) -> bool {
    &&& 0 <= sp.0 <= sp.1 <= s.len()
    &&& t.text() == s.subrange(sp.0, sp.1)
    &&& t.row() == sp.2
    &&& denotes(t.kind(), t.text())
}

pub open spec fn tokens_match(s: Seq<char>, toks: Seq<Token>, spans: Seq<Span>) -> bool {
    &&& toks.len() == spans.len()
    &&& forall|k: int| 0 <= k < toks.len() ==> token_at(s, #[trigger] toks[k], spans[k])
}

/// `e` reports the fault `f`: same line, same kind.
pub open spec fn fault_is(e: ScanError, f: Fault) -> bool {
    e.line == f.0 && e.kind == f.1
}

pub open spec fn errors_match(errs: Seq<ScanError>, faults: Seq<Fault>) -> bool {
    &&& errs.len() == faults.len()
    &&& forall|k: int| 0 <= k < errs.len() ==> fault_is(#[trigger] errs[k], faults[k])
}

/// `toks` are the tokens of the source `s`, in order.
pub open spec fn scanned(s: Seq<char>, toks: Seq<Token>) -> bool {
    tokens_match(s, toks, lex(s, 0, 0).0)
}

/// `errs` are the scan errors of the source `s`, in order.
pub open spec fn reported(s: Seq<char>, errs: Seq<ScanError>) -> bool {
    errors_match(errs, lex(s, 0, 0).1)
}

/// Relies on String::push: appends one character to the string.
#[verifier::external_body]
fn push_char(s: &mut String, c: char)
    ensures
        final(s)@ == old(s)@.push(c),
{
    s.push(c);
}

/// The characters `s[a..b]` as a string.
fn string_of(s: &Vec<char>, a: usize, b: usize) -> (r: String)
    requires
        a <= b <= s@.len(),
    ensures
        r@ == s@.subrange(a as int, b as int),
{
    let mut r = String::new();
    let mut k: usize = a;
    while k < b
        invariant
            a <= k <= b <= s@.len(),
            r@ == s@.subrange(a as int, k as int),
        decreases b - k,
    {
        push_char(&mut r, s[k]);
        assert(r@ =~= s@.subrange(a as int, k + 1));
        k = k + 1;
    }
    r
}

fn digit(c: char) -> (r: bool)
    ensures
        r == is_digit(c),
{
    '0' <= c && c <= '9'
}

fn ident_start(c: char) -> (r: bool)
    ensures
        r == is_ident_start(c),
{
    ('a' <= c && c <= 'z') || ('A' <= c && c <= 'Z') || c == '_'
}

fn scan_digits(s: &Vec<char>, i: usize) -> (r: usize)
    requires
        i <= s@.len(),
    ensures
        r == digits_end(s@, i as int),
{
    let mut j: usize = i;
    while j < s.len() && digit(s[j])
        invariant
            i <= j <= s@.len(),
            digits_end(s@, j as int) == digits_end(s@, i as int),
        decreases s@.len() - j,
    {
        j = j + 1;
    }
    j
}

fn scan_ident(s: &Vec<char>, i: usize) -> (r: usize)
    requires
        i <= s@.len(),
    ensures
        r == ident_end(s@, i as int),
{
    let mut j: usize = i;
    while j < s.len() && (ident_start(s[j]) || digit(s[j]))
        invariant
            i <= j <= s@.len(),
            ident_end(s@, j as int) == ident_end(s@, i as int),
        decreases s@.len() - j,
    {
        j = j + 1;
    }
    j
}

fn scan_line(s: &Vec<char>, i: usize) -> (r: usize)
    requires
        i <= s@.len(),
    ensures
        r == line_end(s@, i as int),
{
    let mut j: usize = i;
    while j < s.len() && s[j] != '\n'
        invariant
            i <= j <= s@.len(),
            line_end(s@, j as int) == line_end(s@, i as int),
        decreases s@.len() - j,
    {
        j = j + 1;
    }
    j
}

fn scan_quote(s: &Vec<char>, i: usize) -> (r: usize)
    requires
        i <= s@.len(),
    ensures
        r == quote_end(s@, i as int),
{
    let mut j: usize = i;
    while j < s.len() && s[j] != '"' && s[j] != '\n'
        invariant
            i <= j <= s@.len(),
            quote_end(s@, j as int) == quote_end(s@, i as int),
        decreases s@.len() - j,
    {
        j = j + 1;
    }
    j
}

/// The punctuation or operator token at `i` and its end, if one starts there.
fn simple(s: &Vec<char>, i: usize) -> (r: Option<(TokenType, usize)>)
    requires
        i < s.len(),
    ensures
        r is None <==> simple_end(s@, i as int) == i,
        r matches Some(p) ==> p.1 == simple_end(s@, i as int) && denotes(
            p.0,
            s@.subrange(i as int, p.1 as int),
        ),
{
    let c = s[i];
    let eq_next = i < s.len() - 1 && s[i + 1] == '=';
    let (k, n): (TokenType, usize) = match c {
        '(' => (TokenType::LeftParen, 1),
        ')' => (TokenType::RightParen, 1),
        '{' => (TokenType::LeftBrace, 1),
        '}' => (TokenType::RightBrace, 1),
        ',' => (TokenType::Comma, 1),
        '.' => (TokenType::Dot, 1),
        '-' => (TokenType::Minus, 1),
        '+' => (TokenType::Plus, 1),
        ';' => (TokenType::Semicolon, 1),
        '*' => (TokenType::Star, 1),
        '/' => (TokenType::Slash, 1),
        '!' => if eq_next {
            (TokenType::BangEqual, 2)
        } else {
            (TokenType::Bang, 1)
        },
        '=' => if eq_next {
            (TokenType::EqualEqual, 2)
        } else {
            (TokenType::Equal, 1)
        },
        '<' => if eq_next {
            (TokenType::LessEqual, 2)
        } else {
            (TokenType::Less, 1)
        },
        '>' => if eq_next {
            (TokenType::GreaterEqual, 2)
        } else {
            (TokenType::Greater, 1)
        },
        _ => {
            return None;
        },
    };
    Some((k, i + n))
}

/// The number token that starts with the digit at `i`, and its end.
fn number_at(s: &Vec<char>, i: usize, line: usize) -> (r: (Token, usize))
    requires
        i < s.len(),
        is_digit(s@[i as int]),
    ensures
        r.1 == number_end(s@, i as int),
        token_at(s@, r.0, (i as int, r.1 as int, line as nat)),
{
    let d = scan_digits(s, i);
    proof {
        lemma_digits_end(s@, i as int);
    }
    let whole = string_of(s, i, d);
    let (fraction, e) = if d < s.len() - 1 && s[d] == '.' && digit(s[d + 1]) {
        let e = scan_digits(s, d + 1);
        proof {
            lemma_digits_end(s@, d + 1);
        }
        (string_of(s, d + 1, e), e)
    } else {
        (String::new(), d)
    };
    let number = Decimal::new(whole, fraction);
    let lexeme = string_of(s, i, e);
    proof {
        if e > d {
            assert(s@.subrange(i as int, e as int) =~= s@.subrange(i as int, d as int) + seq!['.']
                + s@.subrange(d + 1, e as int));
        }
    }
    (Token::new(TokenType::Number(number), lexeme, line), e)
}

/// The identifier or reserved word that starts at `i`, and its end.
fn word_at(s: &Vec<char>, i: usize, line: usize) -> (r: (Token, usize))
    requires
        i < s.len(),
        is_ident_start(s@[i as int]),
    ensures
        r.1 == ident_end(s@, i as int),
        token_at(s@, r.0, (i as int, r.1 as int, line as nat)),
{
    let e = scan_ident(s, i);
    proof {
        lemma_ident_end(s@, i as int);
    }
    let kind = match keyword(s, i, e) {
        Some(k) => k,
        None => TokenType::Identifier,
    };
    (Token::new(kind, string_of(s, i, e), line), e)
}

/// One step of the scan at `i`, on line `line`: the token and the error found
/// there, if any, and where the scan goes on, on which line.
fn scan_at(s: &Vec<char>, i: usize, line: usize) -> (r: (
    Option<Token>,
    Option<ScanError>,
    usize,
    usize,
))
    requires
        i < s.len(),
        line <= i,
    ensures
        i < r.2 <= s@.len(),
        r.3 <= r.2,
        r.2 == step(s@, i as int, line as nat).2,
        r.3 == step(s@, i as int, line as nat).3,
        r.0 is Some <==> step(s@, i as int, line as nat).0 is Some,
        r.0 matches Some(t) ==> token_at(s@, t, step(s@, i as int, line as nat).0->0),
        r.1 is Some <==> step(s@, i as int, line as nat).1 is Some,
        r.1 matches Some(e) ==> fault_is(e, step(s@, i as int, line as nat).1->0),
{
    proof {
        lemma_step(s@, i as int, line as nat);
    }
    let c = s[i];
    if c == '\n' {
        (None, None, i + 1, line + 1)
    } else if c == ' ' || c == '\r' || c == '\t' {
        (None, None, i + 1, line)
    } else if c == '/' && i < s.len() - 1 && s[i + 1] == '/' {
        (None, None, scan_line(s, i), line)
    } else if c == '"' {
        let q = scan_quote(s, i + 1);
        proof {
            lemma_quote_end(s@, i + 1);
        }
        if q < s.len() && s[q] == '"' {
            let literal = string_of(s, i + 1, q);
            let lexeme = string_of(s, i, q + 1);
            assert(s@.subrange(i as int, q + 1).subrange(1, q + 1 - i - 1) =~= s@.subrange(
                i + 1,
                q as int,
            ));
            (Some(Token::new(TokenType::String(literal), lexeme, line)), None, q + 1, line)
        } else {
            let err = ScanError { line, kind: ErrorKind::UnterminatedString };
            (None, Some(err), q, line)
        }
    } else if digit(c) {
        let (tok, e) = number_at(s, i, line);
        (Some(tok), None, e, line)
    } else if ident_start(c) {
        let (tok, e) = word_at(s, i, line);
        (Some(tok), None, e, line)
    } else {
        match simple(s, i) {
            Some((k, e)) => (Some(Token::new(k, string_of(s, i, e), line)), None, e, line),
            None => {
                let err = ScanError { line, kind: ErrorKind::UnexpectedCharacter };
                (None, Some(err), i + 1, line)
            },
        }
    }
}

/// Scans source text into tokens, line by line.
pub struct Scanner<'a> {
    source: &'a str,
}

impl<'a> Scanner<'a> {
    /// The characters of the source.
    pub closed spec fn text(&self) -> Seq<char> {
        self.source@
    }

    pub fn new(source: &'a str) -> (r: Self)
        ensures
            r.text() == source@,
    {
        Self { source }
    }

    /// The tokens of the source, in order, and the errors found on the way, in order.
    pub fn scan(&self) -> (r: (Vec<Token>, Vec<ScanError>))
        ensures
            scanned(self.text(), r.0@),
            reported(self.text(), r.1@),
    {
        let s = crate::chars_of(self.source);
        let ghost all = lex(s@, 0, 0);
        let ghost mut spans: Seq<Span> = seq![];
        let ghost mut faults: Seq<Fault> = seq![];
        let mut tokens: Vec<Token> = Vec::new();
        let mut errors: Vec<ScanError> = Vec::new();
        let mut i: usize = 0;
        let mut line: usize = 0;
        while i < s.len()
            invariant
                s@ == self.text(),
                all == lex(s@, 0, 0),
                i <= s@.len(),
                line <= i,
                all.0 == spans + lex(s@, i as int, line as nat).0,
                all.1 == faults + lex(s@, i as int, line as nat).1,
                tokens_match(s@, tokens@, spans),
                errors_match(errors@, faults),
            decreases s@.len() - i,
        {
            let (tok, err, next, next_line) = scan_at(&s, i, line);
            proof {
                let st = step(s@, i as int, line as nat);
                let rest = lex(s@, next as int, next_line as nat);
                assert(all.0 =~= (spans + opt_seq(st.0)) + rest.0);
                assert(all.1 =~= (faults + opt_seq(st.1)) + rest.1);
                spans = spans + opt_seq(st.0);
                faults = faults + opt_seq(st.1);
            }
            match tok {
                Some(t) => tokens.push(t),
                None => {},
            }
            match err {
                Some(e) => errors.push(e),
                None => {},
            }
            i = next;
            line = next_line;
        }
        assert(spans =~= all.0);
        assert(faults =~= all.1);
        (tokens, errors)
    }

    /// The tokens of the source, in order.
    pub fn scan_tokens(&self) -> (r: Vec<Token>)
        ensures
            scanned(self.text(), r@),
    {
        let (tokens, _errors) = self.scan();
        tokens
    }
}

} // verus!
