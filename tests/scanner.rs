use scan_lib::add;
use scan_lib::scanner::{ErrorKind, ScanError, Scanner};
use scan_lib::token::{Decimal, Token, TokenType};

fn number_value(t: &TokenType) -> f32 {
    match t {
        TokenType::Number(d) => format!("{}.{}0", d.whole(), d.fraction()).parse().unwrap(),
        other => panic!("not a number: {:?}", other),
    }
}

fn scan(source: &str) -> Vec<Token> {
    Scanner::new(source).scan_tokens()
}

fn kinds(source: &str) -> Vec<TokenType> {
    scan(source).iter().map(|t| t.token_type().clone()).collect()
}

#[test]
fn compound_tokens() {
    let scanner = Scanner::new("!=");
    let tokens = scanner.scan_tokens();
    let token = tokens.first().unwrap();
    assert!(matches!(token.token_type(), TokenType::BangEqual));
}

#[test]
fn string() {
    let scanner = Scanner::new(r#"("hey, yall()")"#);
    let tokens = scanner.scan_tokens();
    let token = tokens.get(1).unwrap();
    assert!(matches!(token.token_type(), TokenType::String(s) if s == "hey, yall()"));
    assert_eq!(token.lexeme(), r#""hey, yall()""#)
}

#[test]
fn comment() {
    let scanner = Scanner::new(r#"// ("hey!")"#);
    let tokens = scanner.scan_tokens();
    assert!(tokens.is_empty())
}

#[test]
fn parse_integer() {
    let scanner = Scanner::new("1234");
    let tokens = scanner.scan_tokens();
    let token = tokens.first().unwrap();
    assert_eq!(token.lexeme(), "1234");
    assert_eq!(number_value(token.token_type()), 1234.0);
}

#[test]
fn parse_identifier() {
    let scanner = Scanner::new("variable");
    let tokens = scanner.scan_tokens();
    let token = tokens.first().unwrap();
    assert_eq!(token.lexeme(), "variable");
    assert_eq!(token.token_type(), &TokenType::Identifier);
}

#[test]
fn parse_keyword() {
    let scanner = Scanner::new("if");
    let tokens = scanner.scan_tokens();
    let token = tokens.first().unwrap();
    assert_eq!(token.lexeme(), "if");
    assert_eq!(token.token_type(), &TokenType::If);
}

#[test]
fn each_punctuation_alone() {
    let cases = [
        ("(", TokenType::LeftParen),
        (")", TokenType::RightParen),
        ("{", TokenType::LeftBrace),
        ("}", TokenType::RightBrace),
        (",", TokenType::Comma),
        (".", TokenType::Dot),
        ("-", TokenType::Minus),
        ("+", TokenType::Plus),
        (";", TokenType::Semicolon),
        ("*", TokenType::Star),
        ("/", TokenType::Slash),
    ];
    for (text, kind) in cases {
        let tokens = scan(text);
        assert_eq!(tokens.len(), 1);
        assert_eq!(tokens[0].lexeme(), text);
        assert_eq!(tokens[0].token_type(), &kind);
        assert_eq!(tokens[0].line(), 0);
    }
}

#[test]
fn operators_alone_and_with_equal() {
    let cases = [
        ("!", TokenType::Bang, "!=", TokenType::BangEqual),
        ("=", TokenType::Equal, "==", TokenType::EqualEqual),
        ("<", TokenType::Less, "<=", TokenType::LessEqual),
        (">", TokenType::Greater, ">=", TokenType::GreaterEqual),
    ];
    for (one, one_kind, two, two_kind) in cases {
        let tokens = scan(one);
        assert_eq!(tokens.len(), 1);
        assert_eq!(tokens[0].lexeme(), one);
        assert_eq!(tokens[0].token_type(), &one_kind);
        let tokens = scan(two);
        assert_eq!(tokens.len(), 1);
        assert_eq!(tokens[0].lexeme(), two);
        assert_eq!(tokens[0].token_type(), &two_kind);
    }
}

#[test]
fn operator_followed_by_other() {
    assert_eq!(kinds("!!"), vec![TokenType::Bang, TokenType::Bang]);
    assert_eq!(kinds("=!="), vec![TokenType::Equal, TokenType::BangEqual]);
    assert_eq!(kinds("<>"), vec![TokenType::Less, TokenType::Greater]);
}

#[test]
fn comment_after_tokens() {
    let tokens = scan("a / b // c + d");
    let lexemes: Vec<&str> = tokens.iter().map(|t| t.lexeme()).collect();
    assert_eq!(lexemes, vec!["a", "/", "b"]);
    assert_eq!(tokens[1].token_type(), &TokenType::Slash);
}

#[test]
fn string_with_quote_mark_inside() {
    let tokens = scan("\"hey, y'all()\"");
    assert_eq!(tokens.len(), 1);
    assert_eq!(tokens[0].token_type(), &TokenType::String("hey, y'all()".to_string()));
    assert_eq!(tokens[0].lexeme(), "\"hey, y'all()\"");
}

#[test]
fn empty_string_literal() {
    let tokens = scan("\"\"");
    assert_eq!(tokens.len(), 1);
    assert_eq!(tokens[0].token_type(), &TokenType::String(String::new()));
    assert_eq!(tokens[0].lexeme(), "\"\"");
}

#[test]
fn two_strings_on_a_line() {
    let tokens = scan("\"a\" \"b\"");
    assert_eq!(tokens.len(), 2);
    assert_eq!(tokens[0].token_type(), &TokenType::String("a".to_string()));
    assert_eq!(tokens[1].token_type(), &TokenType::String("b".to_string()));
}

#[test]
fn parse_decimal() {
    let tokens = scan("12.34");
    assert_eq!(tokens.len(), 1);
    assert_eq!(tokens[0].lexeme(), "12.34");
    assert_eq!(number_value(tokens[0].token_type()), 12.34);
    match tokens[0].token_type() {
        TokenType::Number(d) => {
            assert_eq!(d.whole(), "12");
            assert_eq!(d.fraction(), "34");
        }
        other => panic!("not a number: {:?}", other),
    }
}

#[test]
fn number_with_trailing_dot() {
    let tokens = scan("12.");
    assert_eq!(tokens.len(), 2);
    assert_eq!(tokens[0].lexeme(), "12");
    assert_eq!(number_value(tokens[0].token_type()), 12.0);
    assert_eq!(tokens[1].token_type(), &TokenType::Dot);
}

#[test]
fn number_then_method_call() {
    let lexemes: Vec<String> = scan("1.2.3").iter().map(|t| t.lexeme().to_string()).collect();
    assert_eq!(lexemes, vec!["1.2", ".", "3"]);
}

#[test]
fn decimal_parts() {
    let d = Decimal::new("7".to_string(), "25".to_string());
    assert_eq!(d.whole(), "7");
    assert_eq!(d.fraction(), "25");
}

#[test]
fn identifier_with_digits_and_underscores() {
    let tokens = scan("_foo9 bar_baz");
    assert_eq!(tokens.len(), 2);
    assert_eq!(tokens[0].lexeme(), "_foo9");
    assert_eq!(tokens[0].token_type(), &TokenType::Identifier);
    assert_eq!(tokens[1].lexeme(), "bar_baz");
}

#[test]
fn keyword_prefix_is_identifier() {
    assert_eq!(kinds("iffy"), vec![TokenType::Identifier]);
    assert_eq!(kinds("orchid"), vec![TokenType::Identifier]);
    assert_eq!(kinds("If"), vec![TokenType::Identifier]);
}

#[test]
fn every_keyword() {
    let cases = [
        ("and", TokenType::And),
        ("class", TokenType::Class),
        ("else", TokenType::Else),
        ("false", TokenType::False),
        ("for", TokenType::For),
        ("fun", TokenType::Fun),
        ("if", TokenType::If),
        ("nil", TokenType::Nil),
        ("or", TokenType::Or),
        ("print", TokenType::Print),
        ("return", TokenType::Return),
        ("super", TokenType::Super),
        ("this", TokenType::This),
        ("true", TokenType::True),
        ("var", TokenType::Var),
        ("while", TokenType::While),
    ];
    for (text, kind) in cases {
        let tokens = scan(text);
        assert_eq!(tokens.len(), 1);
        assert_eq!(tokens[0].lexeme(), text);
        assert_eq!(tokens[0].token_type(), &kind);
    }
}

#[test]
fn unterminated_string_reports_its_line() {
    let (tokens, errors) = Scanner::new("\"abc").scan();
    assert!(tokens.is_empty());
    assert_eq!(errors, vec![ScanError { line: 0, kind: ErrorKind::UnterminatedString }]);

    let (tokens, errors) = Scanner::new("x\n\"abc\ny").scan();
    let lexemes: Vec<&str> = tokens.iter().map(|t| t.lexeme()).collect();
    assert_eq!(lexemes, vec!["x", "y"]);
    assert_eq!(tokens[1].line(), 2);
    assert_eq!(errors, vec![ScanError { line: 1, kind: ErrorKind::UnterminatedString }]);
}

#[test]
fn unexpected_character_is_skipped() {
    let (tokens, errors) = Scanner::new("a @ b").scan();
    let lexemes: Vec<&str> = tokens.iter().map(|t| t.lexeme()).collect();
    assert_eq!(lexemes, vec!["a", "b"]);
    assert_eq!(errors, vec![ScanError { line: 0, kind: ErrorKind::UnexpectedCharacter }]);
}

#[test]
fn lines_are_counted_from_zero() {
    let tokens = scan("a\n\nb // c\r\n  c");
    let lines: Vec<usize> = tokens.iter().map(|t| t.line()).collect();
    assert_eq!(lines, vec![0, 2, 3]);
}

#[test]
fn comment_ends_at_line_break() {
    let tokens = scan("// first\nsecond");
    assert_eq!(tokens.len(), 1);
    assert_eq!(tokens[0].lexeme(), "second");
    assert_eq!(tokens[0].line(), 1);
}

#[test]
fn empty_and_blank_sources() {
    assert!(scan("").is_empty());
    assert!(scan(" \t\r\n  ").is_empty());
}

#[test]
fn lexemes_rebuild_source() {
    let source = "var x = (12.5 + y) * \"a b\"; // note\nprint x;";
    let joined: String = scan(source).iter().map(|t| t.lexeme()).collect();
    assert_eq!(joined, "varx=(12.5+y)*\"a b\";printx;");
}

#[test]
fn error_messages() {
    assert_eq!(ErrorKind::UnterminatedString.message(), "Unterminated string.");
    assert_eq!(ErrorKind::UnexpectedCharacter.message(), "Unexpected character.");
}

#[test]
fn add_sums() {
    assert_eq!(add(2, 3), 5);
    assert_eq!(add(0, 0), 0);
}
