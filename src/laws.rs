use vstd::prelude::*;

use crate::scanner::{
    is_blank, lemma_line_end, lemma_quote_end, lemma_step, lex, line_end, quote_end, reported,
    scanned, step, ErrorKind, Span,
};
use crate::token::{denotes, keyword_of, Token, TokenType};

verus! {

/// The kind of a one-character punctuation token.
pub open spec fn single_kind(c: char) -> TokenType {
    match c {
        '(' => TokenType::LeftParen,
        ')' => TokenType::RightParen,
        '{' => TokenType::LeftBrace,
        '}' => TokenType::RightBrace,
        ',' => TokenType::Comma,
        '.' => TokenType::Dot,
        '-' => TokenType::Minus,
        '+' => TokenType::Plus,
        ';' => TokenType::Semicolon,
        _ => TokenType::Star,
    }
}

pub open spec fn is_punctuation(c: char) -> bool {
    c == '(' || c == ')' || c == '{' || c == '}' || c == ',' || c == '.' || c == '-' || c
        == '+' || c == ';' || c == '*'
}

/// No reserved word is shorter than two characters, and the two-character
/// ones start with a letter.
proof fn lemma_short_words(lex: Seq<char>)
    requires
        lex.len() <= 2,
        lex.len() == 2 ==> !('a' <= lex[0] <= 'z'),
    ensures
        keyword_of(lex) is None,
{
    reveal_strlit("and");
    reveal_strlit("class");
    reveal_strlit("else");
    reveal_strlit("false");
    reveal_strlit("for");
    reveal_strlit("fun");
    reveal_strlit("if");
    reveal_strlit("nil");
    reveal_strlit("or");
    reveal_strlit("print");
    reveal_strlit("return");
    reveal_strlit("super");
    reveal_strlit("this");
    reveal_strlit("true");
    reveal_strlit("var");
    reveal_strlit("while");
}

/// Scanning one punctuation character alone gives exactly one token: that
/// character, of its kind, on the first line.
pub proof fn single_character_token(c: char, toks: Seq<Token>)
    requires
        is_punctuation(c),
        scanned(seq![c], toks),
    ensures
        toks.len() == 1,
        toks[0].text() == seq![c],
        toks[0].kind() == single_kind(c),
        toks[0].row() == 0,
{
    let s = seq![c];
    lemma_step(s, 0, 0);
    assert(lex(s, 1, 0).0.len() == 0);
    assert(lex(s, 0, 0).0 =~= seq![(0int, 1int, 0nat)]);
    assert(s.subrange(0, 1) =~= s);
    lemma_short_words(s);
    let k = toks[0].kind();
    assert(denotes(k, s));
    if let TokenType::Number(d) = k {
        assert(d.text()[0] == d.whole_digits()[0]);
    }
}

/// The kinds of an operator alone and followed by `=`.
pub open spec fn operator_kinds(c: char) -> (TokenType, TokenType) {
    match c {
        '!' => (TokenType::Bang, TokenType::BangEqual),
        '=' => (TokenType::Equal, TokenType::EqualEqual),
        '<' => (TokenType::Less, TokenType::LessEqual),
        _ => (TokenType::Greater, TokenType::GreaterEqual),
    }
}

pub open spec fn is_operator(c: char) -> bool {
    c == '!' || c == '=' || c == '<' || c == '>'
}

/// Scanning `!`, `=`, `<` or `>` alone gives one token of the one-character kind.
pub proof fn operator_alone(c: char, toks: Seq<Token>)
    requires
        is_operator(c),
        scanned(seq![c], toks),
    ensures
        toks.len() == 1,
        toks[0].text() == seq![c],
        toks[0].kind() == operator_kinds(c).0,
{
    let s = seq![c];
    lemma_step(s, 0, 0);
    assert(lex(s, 1, 0).0.len() == 0);
    assert(lex(s, 0, 0).0 =~= seq![(0int, 1int, 0nat)]);
    assert(s.subrange(0, 1) =~= s);
    lemma_short_words(s);
    let k = toks[0].kind();
    if let TokenType::Number(d) = k {
        assert(d.text()[0] == d.whole_digits()[0]);
    }
}

/// Scanning `!=`, `==`, `<=` or `>=` gives one token of the two-character kind.
pub proof fn operator_with_equal(c: char, toks: Seq<Token>)
    requires
        is_operator(c),
        scanned(seq![c, '='], toks),
    ensures
        toks.len() == 1,
        toks[0].text() == seq![c, '='],
        toks[0].kind() == operator_kinds(c).1,
{
    let s = seq![c, '='];
    lemma_step(s, 0, 0);
    assert(lex(s, 2, 0).0.len() == 0);
    assert(lex(s, 0, 0).0 =~= seq![(0int, 2int, 0nat)]);
    assert(s.subrange(0, 2) =~= s);
    lemma_short_words(s);
    let k = toks[0].kind();
    if let TokenType::Number(d) = k {
        assert(d.text()[0] == d.whole_digits()[0]);
    }
}

/// A line that holds only a comment gives no token and no error.
pub proof fn comment_line(s: Seq<char>, toks: Seq<Token>, errs: Seq<crate::scanner::ScanError>)
    requires
        s.len() >= 2,
        s[0] == '/',
        s[1] == '/',
        forall|p: int| 0 <= p < s.len() ==> s[p] != '\n',
        scanned(s, toks),
        reported(s, errs),
    ensures
        toks.len() == 0,
        errs.len() == 0,
{
    lemma_line_end(s, 0);
    assert(line_end(s, 0) == s.len());
    assert(lex(s, s.len() as int, 0).0.len() == 0);
}

/// A string that is not closed on its line gives no token and exactly one
/// error, on that line.
pub proof fn unterminated_string(
    s: Seq<char>,
    toks: Seq<Token>,
    errs: Seq<crate::scanner::ScanError>,
)
    requires
        s.len() >= 1,
        s[0] == '"',
        forall|p: int| 1 <= p < s.len() ==> s[p] != '"' && s[p] != '\n',
        scanned(s, toks),
        reported(s, errs),
    ensures
        toks.len() == 0,
        errs.len() == 1,
        errs[0].line == 0,
        errs[0].kind == ErrorKind::UnterminatedString,
{
    lemma_quote_end(s, 1);
    assert(quote_end(s, 1) == s.len());
    assert(lex(s, s.len() as int, 0).1.len() == 0);
}

/// `p` lies in the comment that starts at `q`: `//` stands at `q`, and no line
/// break stands from `q` up to `p`.
pub open spec fn comment_from(s: Seq<char>, q: int, p: int) -> bool {
    &&& 0 <= q <= p < s.len()
    &&& q + 1 < s.len()
    &&& s[q] == '/'
    &&& s[q + 1] == '/'
    &&& forall|r: int| q <= r <= p ==> s[r] != '\n'
}

/// The character at `p` is whitespace, a line break, or part of a comment.
pub open spec fn insignificant(s: Seq<char>, p: int) -> bool {
    is_blank(s[p]) || s[p] == '\n' || exists|q: int| #[trigger] comment_from(s, q, p)
}

/// Only insignificant characters stand in `s[a..b]`.
pub open spec fn gap(s: Seq<char>, a: int, b: int) -> bool {
    forall|p: int| a <= p < b ==> insignificant(s, p)
}

/// The lexemes `spans` follow one another through `s` from `from` on, with
/// nothing but insignificant characters before, between and after them.
pub open spec fn tiles(s: Seq<char>, spans: Seq<Span>, from: int) -> bool
    decreases spans.len(),
{
    if spans.len() == 0 {
        gap(s, from, s.len() as int)
    } else {
        &&& from <= spans[0].0 < spans[0].1 <= s.len()
        &&& gap(s, from, spans[0].0)
        &&& tiles(s, spans.drop_first(), spans[0].1)
    }
}

proof fn lemma_gap_before(s: Seq<char>, spans: Seq<Span>, a: int, b: int)
    requires
        a <= b,
        gap(s, a, b),
        tiles(s, spans, b),
    ensures
        tiles(s, spans, a),
{
}

proof fn lemma_tiles(s: Seq<char>, i: int, line: nat)
    requires
        0 <= i <= s.len(),
        lex(s, i, line).1.len() == 0,
    ensures
        tiles(s, lex(s, i, line).0, i),
    decreases s.len() - i,
{
    if i < s.len() {
        lemma_step(s, i, line);
        let (t, f, n, nl) = step(s, i, line);
        let rest = lex(s, n, nl);
        assert(lex(s, i, line).1 == crate::scanner::opt_seq(f) + rest.1);
        assert(f is None);
        assert(rest.1 =~= lex(s, i, line).1);
        lemma_tiles(s, n, nl);
        match t {
            Some(sp) => {
                let all = lex(s, i, line).0;
                assert(all =~= seq![sp] + rest.0);
                assert(all.drop_first() =~= rest.0);
            },
            None => {
                assert(lex(s, i, line).0 =~= rest.0);
                if s[i] == '/' && i + 1 < s.len() && s[i + 1] == '/' {
                    lemma_line_end(s, i);
                    assert forall|p: int| i <= p < n implies insignificant(s, p) by {
                        assert(comment_from(s, i, p));
                    }
                }
                lemma_gap_before(s, rest.0, i, n);
            },
        }
    }
}

/// Where the scan finds no error, the lexemes of the tokens, in order, are
/// consecutive pieces of the source, and what stands before, between and
/// after them is whitespace, line breaks and comments only: joined, they give
/// back the source without those.
pub proof fn lexemes_tile_source(
    s: Seq<char>,
    toks: Seq<Token>,
    errs: Seq<crate::scanner::ScanError>,
)
    requires
        scanned(s, toks),
        reported(s, errs),
        errs.len() == 0,
    ensures
        tiles(s, lex(s, 0, 0).0, 0),
        forall|k: int|
            0 <= k < toks.len() ==> (#[trigger] toks[k]).text() == s.subrange(
                lex(s, 0, 0).0[k].0,
                lex(s, 0, 0).0[k].1,
            ),
{
    lemma_tiles(s, 0, 0);
}

} // verus!
