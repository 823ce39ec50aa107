use theta_lang::ast::symbol::SymbolData;
use theta_lang::ast::transformers::typeck::TypeInformation;
use theta_lang::ast::{AbstractTree, Expression, Item, Statement};
use theta_lang::bytecode::Symbol;
use theta_lang::lexer::token::{Token, TokenKind};
use theta_lang::lexer::BasicLexer;
use theta_lang::parser::{BasicParser, ParseError, ParseInfo, Parser, ReplItem, ReplParser};

fn tokens(src: &str) -> Vec<Token> {
    BasicLexer::new(src.chars().collect()).lex().unwrap()
}

fn literal(t: &Token) -> Box<Expression<()>> {
    Box::new(Expression::Literal { literal: t.clone(), information: () })
}

fn binary_statement(l: &Token, op: &Token, r: &Token) -> AbstractTree<()> {
    AbstractTree::statement(
        Statement::ExpressionStatement {
            expression: Expression::Binary { left: literal(l), operator: op.clone(), right: literal(r), information: () },
            information: (),
        },
        (),
    )
}

fn parsed_tree(input: Vec<Token>) -> AbstractTree<()> {
    let mut parser = BasicParser::new(input);
    let stmt = parser.declaration().unwrap();
    let info = *stmt.information();
    AbstractTree::statement(stmt, info).strip_information()
}

#[test]
fn basic_parser_recog_binary() {
    let semicolon = Token::new(1, 0, 1, TokenKind::Semicolon);
    let left = Token::new(1, 0, 1, TokenKind::Integer(1));
    let right = Token::new(1, 0, 1, TokenKind::Integer(3));
    let plus = Token::new(1, 0, 1, TokenKind::Plus);
    let input = vec![left.clone(), plus.clone(), right.clone(), semicolon];
    assert_eq!(parsed_tree(input), binary_statement(&left, &plus, &right));
}

#[test]
fn basic_parser_recog_bool() {
    let semicolon = Token::new(1, 0, 1, TokenKind::Semicolon);
    let left = Token::new(1, 0, 1, TokenKind::True);
    let right = Token::new(1, 2, 3, TokenKind::True);
    let eq = Token::new(1, 1, 2, TokenKind::EqualEqual);
    let input = vec![left.clone(), eq.clone(), right.clone(), semicolon];
    assert_eq!(parsed_tree(input), binary_statement(&left, &eq, &right));
}

#[test]
fn stripping_keeps_the_shape_of_a_block() {
    let mut parser = BasicParser::new(tokens("{ print(1); };"));
    let stmt = parser.declaration().unwrap().strip_information();
    match stmt {
        Statement::ExpressionStatement { expression: Expression::BlockExpression { statements, information: () }, .. } => {
            assert_eq!(statements.len(), 1);
            assert!(matches!(
                &statements[0],
                Statement::PrintStatement { expression: Expression::Literal { literal: Token(_, TokenKind::Integer(1)), .. }, .. }
            ));
        },
        _ => panic!("expected a block"),
    }
}

#[test]
fn multiplication_binds_tighter_than_addition() {
    let mut parser = BasicParser::new(tokens("1 + 2 * 3;"));
    let stmt = parser.declaration().unwrap();
    match stmt {
        Statement::ExpressionStatement { expression: Expression::Binary { left, operator, right, .. }, .. } => {
            assert_eq!(operator.1, TokenKind::Plus);
            assert!(matches!(*left, Expression::Literal { .. }));
            assert!(matches!(*right, Expression::Binary { operator: Token(_, TokenKind::Star), .. }));
        },
        _ => panic!("expected a sum"),
    }
}

#[test]
fn global_variable_declaration_enters_the_table() {
    let mut parser = BasicParser::new(tokens("let x: Int = 5;"));
    let stmt = parser.declaration().unwrap();
    let info: ParseInfo = *stmt.information();
    assert_eq!(info.scope_depth, 0);
    match &stmt {
        Statement::VarStatement { ident, init, .. } => {
            assert_eq!(ident.id(), "x");
            assert!(matches!(init, Expression::Literal { literal: Token(_, TokenKind::Integer(5)), .. }));
        },
        _ => panic!("expected a variable declaration"),
    }
    let data = parser.scopes().get_symbol_data(info.current_symbol_table, &Symbol::from_str("x"), 0);
    assert!(matches!(data, Some(SymbolData::GlobalVariable { ty: TypeInformation::Int })));
}

#[test]
fn print_statement() {
    let mut parser = BasicParser::new(tokens("print(1);"));
    let stmt = parser.declaration().unwrap();
    assert!(matches!(stmt, Statement::PrintStatement { expression: Expression::Literal { .. }, .. }));
    assert!(parser.is_at_end());
}

#[test]
fn declaration_without_type_is_refused() {
    let mut parser = BasicParser::new(tokens("let x = 5;"));
    let r = parser.declaration();
    assert!(matches!(r, Err(ParseError::Other { msg: "Expected expression and variable type" })));
}

#[test]
fn missing_semicolon_is_reported_at_the_token() {
    let mut parser = BasicParser::new(tokens("print(1)"));
    let r = parser.declaration();
    match r {
        Err(e @ ParseError::TokenError { .. }) => {
            assert!(matches!(e, ParseError::TokenError { msg: "Expected ';' after expression", .. }));
            assert_eq!(e.describe(), "[Parse] Error: Expected ';' after expression at end of file");
        },
        _ => panic!("expected an error at a token"),
    }
}

#[test]
fn parse_error_messages() {
    let other = ParseError::from_other("failed to find top level item");
    assert_eq!(other.describe(), "[Parse] Error: failed to find top level item");
    let at = ParseError::from_token(Token::new(3, 7, 8, TokenKind::Plus), "Unexpected token");
    assert_eq!(at.describe(), "[Parse] Error: Unexpected token at line 3, character 7");
}

#[test]
fn function_item() {
    let mut parser = BasicParser::new(tokens("fun main() { print(1); }"));
    let items = parser.parse().unwrap();
    assert_eq!(items.len(), 1);
    match &items[0] {
        Item::Function(f) => {
            assert_eq!(f.name.id(), "main");
            assert!(matches!(f.return_ty, TypeInformation::Unit));
            assert_eq!(f.args.len(), 0);
        },
    }
}

#[test]
fn function_with_argument_and_return_type() {
    let mut parser = BasicParser::new(tokens("fun inc(a: Int) -> Int { a; }"));
    let items = parser.parse().unwrap();
    match &items[0] {
        Item::Function(f) => {
            assert_eq!(f.name.id(), "inc");
            assert!(matches!(f.return_ty, TypeInformation::Int));
            assert_eq!(f.args.len(), 1);
            assert!(matches!(f.args[0].ty, TypeInformation::Int));
        },
    }
}

#[test]
fn top_level_statement_is_not_an_item() {
    let mut parser = BasicParser::new(tokens("1;"));
    assert!(matches!(parser.parse(), Err(ParseError::Other { msg: "failed to find top level item" })));
}

#[test]
fn repl_parser_reads_items_and_declarations() {
    let parser = BasicParser::new(tokens("let y: Bool = true; fun f() { print(2); }"));
    let mut repl = ReplParser::new(parser);
    let items = repl.parse().unwrap();
    assert_eq!(items.len(), 2);
    assert!(matches!(items[0], ReplItem::Declaration(_)));
    assert!(matches!(items[1], ReplItem::ParserItem(_)));
}

#[test]
fn parser_trait_reads_all_items() {
    let mut parser = BasicParser::new(tokens("fun a() { } fun b() { }"));
    let items = parser.parse_all().unwrap();
    assert_eq!(items.len(), 2);
}

#[test]
fn block_opens_a_scope_with_locals() {
    let mut parser = BasicParser::new(tokens("{ let z: Int = 1; z; };"));
    let stmt = parser.declaration().unwrap();
    match stmt {
        Statement::ExpressionStatement { expression: Expression::BlockExpression { statements, .. }, .. } => {
            assert_eq!(statements.len(), 2);
            match &statements[0] {
                Statement::VarStatement { information, .. } => {
                    assert_eq!(information.scope_depth, 1);
                    let data = parser.scopes().get_symbol_data(
                        information.current_symbol_table,
                        &Symbol::from_str("z"),
                        1,
                    );
                    assert!(matches!(data, Some(SymbolData::LocalVariable { slot: 0, .. })));
                },
                _ => panic!("expected a variable declaration"),
            }
        },
        _ => panic!("expected a block"),
    }
}

#[test]
fn tree_information_is_kept() {
    let mut parser = BasicParser::new(tokens("2;"));
    let stmt = parser.declaration().unwrap();
    let info = *stmt.information();
    let tree = AbstractTree::statement(stmt, info);
    assert_eq!(tree.information().scope_depth, 0);
}
