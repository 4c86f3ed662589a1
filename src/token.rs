use vstd::prelude::*;

verus! {

/// The kinds of token, with the literal value carried by strings and numbers.
#[derive(Debug, PartialEq, Clone)]
pub enum TokenType {
    // Single character tokens
    LeftParen,
    RightParen,
    LeftBrace,
    RightBrace,
    Comma,
    Dot,
    Minus,
    Plus,
    Semicolon,
    Slash,
    Star,
    // One or two character tokens
    Bang,
    BangEqual,
    Equal,
    EqualEqual,
    Greater,
    GreaterEqual,
    Less,
    LessEqual,
    // Literals
    Identifier,
    String(String),
    Number(Decimal),
    // Keywords
    And,
    Class,
    Else,
    False,
    Fun,
    For,
    If,
    Nil,
    Or,
    Print,
    Return,
    Super,
    This,
    True,
    Var,
    While,
    EOF,
}

/// A number literal, kept exactly as written: the digits before the point,
/// and those after it (none when the literal has no point).
#[derive(Debug, PartialEq, Clone)]
pub struct Decimal {
    whole: String,
    fraction: String,
}

pub open spec fn is_digit(c: char) -> bool {
    '0' <= c <= '9'
}

pub open spec fn all_digits(s: Seq<char>) -> bool {
    forall|i: int| 0 <= i < s.len() ==> is_digit(#[trigger] s[i])
}

impl Decimal {
    /// The digits before the point.
    pub closed spec fn whole_digits(&self) -> Seq<char> {
        self.whole@
    }

    /// The digits after the point.
    pub closed spec fn fraction_digits(&self) -> Seq<char> {
        self.fraction@
    }

    /// The whole part is one or more digits; the fraction is digits only.
    pub open spec fn wf(&self) -> bool {
        &&& self.whole_digits().len() > 0
        &&& all_digits(self.whole_digits())
        &&& all_digits(self.fraction_digits())
    }

    /// The literal's text: `whole`, or `whole.fraction` when there is a fraction.
    pub open spec fn text(&self) -> Seq<char> {
        if self.fraction_digits().len() == 0 {
            self.whole_digits()
        } else {
            self.whole_digits() + seq!['.'] + self.fraction_digits()
        }
    }

    pub fn new(whole: String, fraction: String) -> (r: Decimal)
        requires
            whole@.len() > 0,
            all_digits(whole@),
            all_digits(fraction@),
        ensures
            r.wf(),
            r.whole_digits() == whole@,
            r.fraction_digits() == fraction@,
    {
        Decimal { whole, fraction }
    }

    pub fn whole(&self) -> (r: &str)
        ensures
            r@ == self.whole_digits(),
    {
        self.whole.as_str()
    }

    pub fn fraction(&self) -> (r: &str)
        ensures
            r@ == self.fraction_digits(),
    {
        self.fraction.as_str()
    }
}

/// The reserved word spelt by `lex`, if any.
pub open spec fn keyword_of(lex: Seq<char>) -> Option<TokenType> {
    if lex == "and"@ {
        Some(TokenType::And)
    } else if lex == "class"@ {
        Some(TokenType::Class)
    } else if lex == "else"@ {
        Some(TokenType::Else)
    } else if lex == "false"@ {
        Some(TokenType::False)
    } else if lex == "for"@ {
        Some(TokenType::For)
    } else if lex == "fun"@ {
        Some(TokenType::Fun)
    } else if lex == "if"@ {
        Some(TokenType::If)
    } else if lex == "nil"@ {
        Some(TokenType::Nil)
    } else if lex == "or"@ {
        Some(TokenType::Or)
    } else if lex == "print"@ {
        Some(TokenType::Print)
    } else if lex == "return"@ {
        Some(TokenType::Return)
    } else if lex == "super"@ {
        Some(TokenType::Super)
    } else if lex == "this"@ {
        Some(TokenType::This)
    } else if lex == "true"@ {
        Some(TokenType::True)
    } else if lex == "var"@ {
        Some(TokenType::Var)
    } else if lex == "while"@ {
        Some(TokenType::While)
    } else {
        None
    }
}

pub open spec fn is_ident_start(c: char) -> bool {
    ('a' <= c <= 'z') || ('A' <= c <= 'Z') || c == '_'
}

pub open spec fn is_one(lex: Seq<char>, c: char) -> bool {
    lex.len() == 1 && lex[0] == c
}

pub open spec fn is_two(lex: Seq<char>, c: char, d: char) -> bool {
    lex.len() == 2 && lex[0] == c && lex[1] == d
}

/// `k` is the kind, with its literal value, that the lexeme `lex` denotes.
pub open spec fn denotes(k: TokenType, lex: Seq<char>) -> bool {
    match k {
        TokenType::LeftParen => is_one(lex, '('),
        TokenType::RightParen => is_one(lex, ')'),
        TokenType::LeftBrace => is_one(lex, '{'),
        TokenType::RightBrace => is_one(lex, '}'),
        TokenType::Comma => is_one(lex, ','),
        TokenType::Dot => is_one(lex, '.'),
        TokenType::Minus => is_one(lex, '-'),
        TokenType::Plus => is_one(lex, '+'),
        TokenType::Semicolon => is_one(lex, ';'),
        TokenType::Slash => is_one(lex, '/'),
        TokenType::Star => is_one(lex, '*'),
        TokenType::Bang => is_one(lex, '!'),
        TokenType::BangEqual => is_two(lex, '!', '='),
        TokenType::Equal => is_one(lex, '='),
        TokenType::EqualEqual => is_two(lex, '=', '='),
        TokenType::Greater => is_one(lex, '>'),
        TokenType::GreaterEqual => is_two(lex, '>', '='),
        TokenType::Less => is_one(lex, '<'),
        TokenType::LessEqual => is_two(lex, '<', '='),
        TokenType::Identifier => lex.len() > 0 && is_ident_start(lex[0]) && keyword_of(lex) is None,
        TokenType::String(v) => {
            &&& lex.len() >= 2
            &&& lex[0] == '"'
            &&& lex[lex.len() - 1] == '"'
            &&& v@ == lex.subrange(1, lex.len() - 1)
        },
        TokenType::Number(d) => d.wf() && d.text() == lex,
        TokenType::EOF => false,
        _ => keyword_of(lex) == Some(k),
    }
}

/// A classified lexeme and the line (counted from 0) on which it stands.
#[derive(Debug)]
pub struct Token {
    token_type: TokenType,
    lexeme: String,
    line: usize,
}

impl Token {
    pub closed spec fn kind(&self) -> TokenType {
        self.token_type
    }

    pub closed spec fn text(&self) -> Seq<char> {
        self.lexeme@
    }

    pub closed spec fn row(&self) -> nat {
        self.line as nat
    }

    pub fn new(token_type: TokenType, lexeme: String, line: usize) -> (r: Token)
        ensures
            r.kind() == token_type,
            r.text() == lexeme@,
            r.row() == line,
    {
        Token { token_type, lexeme, line }
    }

    pub fn token_type(&self) -> (r: &TokenType)
        ensures
            *r == self.kind(),
    {
        &self.token_type
    }

    pub fn lexeme(&self) -> (r: &str)
        ensures
            r@ == self.text(),
    {
        self.lexeme.as_str()
    }

    pub fn line(&self) -> (r: usize)
        ensures
            r == self.row(),
    {
        self.line
    }
}

/// Whether the characters `s[start..end]` spell `w`.
fn span_is(s: &Vec<char>, start: usize, end: usize, w: &str) -> (r: bool)
    requires
        start <= end <= s@.len(),
    ensures
        r == (s@.subrange(start as int, end as int) == w@),
{
    let n: usize = w.unicode_len();
    if end - start != n {
        return false;
    }
    let mut k: usize = 0;
    while k < n
        invariant
            k <= n,
            n == w@.len(),
            end - start == n,
            start <= end <= s@.len(),
            forall|j: int| 0 <= j < k ==> s@[start + j] == w@[j],
        decreases n - k,
    {
        if s[start + k] != w.get_char(k) {
            assert(s@.subrange(start as int, end as int)[k as int] != w@[k as int]);
            return false;
        }
        k = k + 1;
    }
    assert(s@.subrange(start as int, end as int) =~= w@);
    true
}

/// The reserved word spelt by `s[start..end]`, if any.
pub fn keyword(s: &Vec<char>, start: usize, end: usize) -> (r: Option<TokenType>)
    requires
        start <= end <= s@.len(),
    ensures
        r == keyword_of(s@.subrange(start as int, end as int)),
{
    if span_is(s, start, end, "and") {
        Some(TokenType::And)
    } else if span_is(s, start, end, "class") {
        Some(TokenType::Class)
    } else if span_is(s, start, end, "else") {
        Some(TokenType::Else)
    } else if span_is(s, start, end, "false") {
        Some(TokenType::False)
    } else if span_is(s, start, end, "for") {
        Some(TokenType::For)
    } else if span_is(s, start, end, "fun") {
        Some(TokenType::Fun)
    } else if span_is(s, start, end, "if") {
        Some(TokenType::If)
    } else if span_is(s, start, end, "nil") {
        Some(TokenType::Nil)
    } else if span_is(s, start, end, "or") {
        Some(TokenType::Or)
    } else if span_is(s, start, end, "print") {
        Some(TokenType::Print)
    } else if span_is(s, start, end, "return") {
        Some(TokenType::Return)
    } else if span_is(s, start, end, "super") {
        Some(TokenType::Super)
    } else if span_is(s, start, end, "this") {
        Some(TokenType::This)
    } else if span_is(s, start, end, "true") {
        Some(TokenType::True)
    } else if span_is(s, start, end, "var") {
        Some(TokenType::Var)
    } else if span_is(s, start, end, "while") {
        Some(TokenType::While)
    } else {
        None
    }
}

} // verus!
