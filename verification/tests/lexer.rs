use theta_lang::lexer::token::{Token, TokenKind, TokenType};
use theta_lang::lexer::{BasicLexer, LexError};

fn lex(src: &str) -> Result<Vec<Token>, LexError> {
    BasicLexer::new(src.chars().collect()).try_lex()
}

fn kinds(src: &str) -> Vec<TokenType> {
    lex(src).unwrap().into_iter().map(|t| t.1).collect()
}

#[test]
fn lexes_binary_expression_with_locations() {
    let toks = lex("1 + 3;").unwrap();
    assert_eq!(
        toks,
        vec![
            Token::new(1, 0, 1, TokenKind::Integer(1)),
            Token::new(1, 2, 3, TokenKind::Plus),
            Token::new(1, 4, 5, TokenKind::Integer(3)),
            Token::new(1, 5, 6, TokenKind::Semicolon),
            Token::new(1, 6, 6, TokenKind::Eof),
        ]
    );
}

#[test]
fn empty_input_gives_only_eof() {
    assert_eq!(lex("").unwrap(), vec![Token::new(1, 0, 0, TokenKind::Eof)]);
}

#[test]
fn two_character_operators() {
    assert_eq!(
        kinds("-> != == <= >= - ! = < >"),
        vec![
            TokenKind::Arrow,
            TokenKind::BangEqual,
            TokenKind::EqualEqual,
            TokenKind::LessEqual,
            TokenKind::GreaterEqual,
            TokenKind::Minus,
            TokenKind::Bang,
            TokenKind::Equal,
            TokenKind::Less,
            TokenKind::Greater,
            TokenKind::Eof,
        ]
    );
}

#[test]
fn brackets_count_as_braces() {
    assert_eq!(
        kinds("[]{}()"),
        vec![
            TokenKind::LeftBrace,
            TokenKind::RightBrace,
            TokenKind::LeftBrace,
            TokenKind::RightBrace,
            TokenKind::LeftParen,
            TokenKind::RightParen,
            TokenKind::Eof,
        ]
    );
}

#[test]
fn keywords_and_identifiers() {
    assert_eq!(
        kinds("let x fun while if else true false print"),
        vec![
            TokenKind::Let,
            TokenKind::Identifier(String::from("x")),
            TokenKind::Fun,
            TokenKind::While,
            TokenKind::If,
            TokenKind::Else,
            TokenKind::True,
            TokenKind::False,
            TokenKind::Identifier(String::from("print")),
            TokenKind::Eof,
        ]
    );
}

#[test]
fn numbers_and_strings() {
    assert_eq!(
        kinds("42 3.25 \"hi there\""),
        vec![
            TokenKind::Integer(42),
            TokenKind::Float(String::from("3.25")),
            TokenKind::Str(String::from("hi there")),
            TokenKind::Eof,
        ]
    );
}

#[test]
fn comments_are_skipped_and_lines_counted() {
    let toks = lex("// a comment\n/* block\n */ x").unwrap();
    assert_eq!(toks.len(), 2);
    assert_eq!(toks[0].1, TokenKind::Identifier(String::from("x")));
    assert_eq!(toks[0].line_num(), 3);
}

#[test]
fn unterminated_string_is_an_error() {
    assert_eq!(lex("\"abc"), Err(LexError::UnterminatedString));
}

#[test]
fn bad_character_is_an_error() {
    assert_eq!(lex("1 # 2"), Err(LexError::BadInput('#')));
}

#[test]
fn too_large_integer_is_an_error() {
    assert_eq!(lex("99999999999"), Err(LexError::BadInteger));
}

#[test]
fn token_describe_writes_kind_and_location() {
    let t = Token::new(2, 4, 5, TokenKind::Plus);
    assert_eq!(t.describe(), "+ - Located at line 2, char 4 ending 5");
    let id = Token::new(1, 0, 3, TokenKind::Identifier(String::from("abc")));
    assert_eq!(id.describe(), "ID: abc - Located at line 1, char 0 ending 3");
    assert_eq!(TokenKind::<String>::Integer(-7).describe(), "Int: -7");
    assert_eq!(TokenKind::<String>::Float(String::from("1.5")).describe(), "Float: 1.5,");
}

#[test]
fn token_type_predicates() {
    assert!(TokenKind::<String>::Integer(1).is_literal());
    assert!(TokenKind::<String>::Str(String::from("s")).is_literal());
    assert!(!TokenKind::<String>::Plus.is_literal());
    assert!(TokenKind::<String>::Identifier(String::from("a")).is_ident());
    assert!(!TokenKind::<String>::Integer(1).is_ident());
}

#[test]
fn identifiers_take_letters_only() {
    assert_eq!(
        lex("ab1 whiles while").unwrap(),
        vec![
            Token::new(1, 0, 2, TokenKind::Identifier(String::from("ab"))),
            Token::new(1, 2, 3, TokenKind::Integer(1)),
            Token::new(1, 4, 10, TokenKind::Identifier(String::from("whiles"))),
            Token::new(1, 11, 16, TokenKind::While),
            Token::new(1, 16, 16, TokenKind::Eof),
        ]
    );
}

#[test]
fn token_stream_runs_in_order_to_one_end_of_file() {
    let src = "let x = 12; // note\n/* a\nb */ print(\"hi\" + x);";
    let ts = lex(src).unwrap();
    let n = src.chars().count();
    assert!(matches!(ts.last().unwrap().1, TokenKind::Eof));
    assert_eq!(ts.iter().filter(|t| matches!(t.1, TokenKind::Eof)).count(), 1);
    assert_eq!(ts.last().unwrap().0.tok_begin, n);
    assert_eq!(ts.last().unwrap().0.tok_end, n);
    for w in ts.windows(2) {
        assert!(w[0].0.tok_begin <= w[0].0.tok_end);
        assert!(w[0].0.tok_end <= w[1].0.tok_begin);
    }
}

#[test]
fn scan_token_reads_one_token_at_a_time() {
    let mut l = BasicLexer::new("( x".chars().collect());
    assert!(matches!(l.scan_token(), Ok(Some(Token(_, TokenKind::LeftParen)))));
    let mut bad = BasicLexer::new("@".chars().collect());
    assert_eq!(bad.try_scan_token(), Err(LexError::BadInput('@')));
}
