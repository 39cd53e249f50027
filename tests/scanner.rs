use rlox::scanner::{ScanError, Scanner};
use rlox::token::{TokenInfo, TokenType};

fn scan(src: &str) -> (Result<(), ScanError>, Vec<TokenInfo>, Vec<(char, usize)>) {
    let mut sc = Scanner::new(&src.to_string());
    let r = sc.scan_tokens();
    let unexpected = sc.unexpected.clone();
    (r, sc.tokens, unexpected)
}

fn kinds(tokens: &[TokenInfo]) -> Vec<TokenType> {
    tokens.iter().map(|t| t.token_type.clone()).collect()
}

#[test]
fn empty_source_gives_end_of_input() {
    let (r, toks, _) = scan("");
    assert!(r.is_ok());
    assert_eq!(kinds(&toks), vec![TokenType::EOF]);
    assert_eq!(toks[0].line, 1);
    assert_eq!(toks[0].lexeme, "");
}

#[test]
fn compound_operators_take_the_longest_match() {
    let (r, toks, _) = scan("!= == <= >= ! = < > / * . , ; + - ( ) { }");
    assert!(r.is_ok());
    assert_eq!(
        kinds(&toks),
        vec![
            TokenType::BangEqual,
            TokenType::EqualEqual,
            TokenType::LessEqual,
            TokenType::GreaterEqual,
            TokenType::Bang,
            TokenType::Equal,
            TokenType::Less,
            TokenType::Greater,
            TokenType::Slash,
            TokenType::Star,
            TokenType::Dot,
            TokenType::Comma,
            TokenType::Semicolon,
            TokenType::Plus,
            TokenType::Minus,
            TokenType::LeftParen,
            TokenType::RightParen,
            TokenType::LeftBrace,
            TokenType::RightBrace,
            TokenType::EOF,
        ]
    );
    assert_eq!(toks[0].lexeme, "!=");
    assert_eq!(toks[4].lexeme, "!");
}

#[test]
fn adjacent_compound_operators() {
    let (_, toks, _) = scan("!==");
    assert_eq!(kinds(&toks), vec![TokenType::BangEqual, TokenType::Equal, TokenType::EOF]);
}

#[test]
fn comment_runs_to_end_of_line_or_input() {
    let (r, toks, _) = scan("1 // note\n2 // last");
    assert!(r.is_ok());
    assert_eq!(kinds(&toks), vec![TokenType::Number, TokenType::Number, TokenType::EOF]);
    assert_eq!(toks[0].line, 1);
    assert_eq!(toks[1].line, 2);
    assert_eq!(toks[2].line, 2);
}

#[test]
fn numbers_with_and_without_fraction() {
    let (_, toks, _) = scan("12 3.25 7.");
    assert_eq!(
        kinds(&toks),
        vec![TokenType::Number, TokenType::Number, TokenType::Number, TokenType::Dot, TokenType::EOF]
    );
    assert_eq!(toks[0].lexeme, "12");
    assert_eq!(toks[1].lexeme, "3.25");
    assert_eq!(toks[2].lexeme, "7");
    assert!(toks[0].number.is_none());
}

#[test]
fn a_second_dot_ends_the_number() {
    let (_, toks, _) = scan("1.2.3");
    assert_eq!(
        kinds(&toks),
        vec![TokenType::Number, TokenType::Dot, TokenType::Number, TokenType::EOF]
    );
    assert_eq!(toks[0].lexeme, "1.2");
    assert_eq!(toks[2].lexeme, "3");
}

#[test]
fn keywords_and_identifiers() {
    let (_, toks, _) = scan("var x and orchid while fun class nil true false x1");
    assert_eq!(
        kinds(&toks),
        vec![
            TokenType::Var,
            TokenType::Identifier,
            TokenType::And,
            TokenType::Identifier,
            TokenType::While,
            TokenType::Fun,
            TokenType::Class,
            TokenType::Nil,
            TokenType::True,
            TokenType::False,
            TokenType::Identifier,
            TokenType::EOF,
        ]
    );
    assert_eq!(toks[3].lexeme, "orchid");
    assert_eq!(toks[10].lexeme, "x1");
}

#[test]
fn all_keywords_are_recognised() {
    let (_, toks, _) =
        scan("and class else false fun for if nil or print return super this true var while");
    assert_eq!(
        kinds(&toks),
        vec![
            TokenType::And,
            TokenType::Class,
            TokenType::Else,
            TokenType::False,
            TokenType::Fun,
            TokenType::For,
            TokenType::If,
            TokenType::Nil,
            TokenType::Or,
            TokenType::Print,
            TokenType::Return,
            TokenType::Super,
            TokenType::This,
            TokenType::True,
            TokenType::Var,
            TokenType::While,
            TokenType::EOF,
        ]
    );
}

#[test]
fn string_literal_spans_lines() {
    let (r, toks, _) = scan("\"a\nb\" x");
    assert!(r.is_ok());
    assert_eq!(kinds(&toks), vec![TokenType::String, TokenType::Identifier, TokenType::EOF]);
    assert_eq!(toks[0].lexeme, "a\nb");
    assert_eq!(toks[0].line, 2);
    assert_eq!(toks[1].line, 2);
}

#[test]
fn newlines_advance_the_line() {
    let (_, toks, _) = scan("a\n\nb\r\n c");
    assert_eq!(toks[0].line, 1);
    assert_eq!(toks[1].line, 3);
    assert_eq!(toks[2].line, 4);
    assert_eq!(toks[3].line, 4);
}

#[test]
fn unexpected_character_is_reported_and_skipped() {
    let (r, toks, unexpected) = scan("1 @\n#2");
    assert!(r.is_ok());
    assert_eq!(kinds(&toks), vec![TokenType::Number, TokenType::Number, TokenType::EOF]);
    assert_eq!(unexpected, vec![('@', 1), ('#', 2)]);
}

#[test]
fn unterminated_string_stops_the_scan() {
    let (r, _, _) = scan("print \"abc\nd");
    assert_eq!(r, Err(ScanError { line: 2 }));
}

#[test]
fn keyword_prefix_is_an_identifier() {
    let (_, toks, _) = scan("fortune");
    assert_eq!(kinds(&toks), vec![TokenType::Identifier, TokenType::EOF]);
}
