use theta_lang::ast::transformers::to_bytecode::{ToByteCode, ToByteCodeError};
use theta_lang::ast::transformers::typeck::{TypeCk, TypeCkError, TypeInformation};
use theta_lang::ast::transformers::TransformError;
use theta_lang::ast::{AbstractTree, Item, Statement};
use theta_lang::bytecode::{OpCode, Symbol, ThetaConstant};
use theta_lang::lexer::token::{Token, TokenKind};
use theta_lang::lexer::BasicLexer;
use theta_lang::parser::{BasicParser, ParseInfo, ReplParser};
use theta_lang::repl::{compile_items, try_compile_items, ReplError};
use theta_lang::bytecode::{Chunk, ThetaBitstream};

fn tokens(src: &str) -> Vec<Token> {
    BasicLexer::new(src.chars().collect()).lex().unwrap()
}

/// Parses one declaration and type checks it as a tree.
fn checked(src: &str) -> (BasicParser, Result<AbstractTree<theta_lang::ast::transformers::typeck::TypeCkOutput>, TransformError>) {
    let mut parser = BasicParser::new(tokens(src));
    let stmt: Statement<ParseInfo> = parser.declaration().unwrap();
    let info = *stmt.information();
    let tree = AbstractTree::statement(stmt, info);
    assert!(theta_lang::ast::transformers::typeck::tree_sequences_filled(&tree));
    let r = TypeCk::new(parser.scopes(), info.current_symbol_table).transform_tree(&tree);
    (parser, r)
}

#[test]
fn print_of_sum_compiles_to_constants_add_and_print() {
    let (parser, typed) = checked("print(1 + 2);");
    let typed = typed.unwrap();
    let gen = ToByteCode::new(parser.scopes(), vec![]);
    assert!(gen.tree_compiles(&typed));
    let chunk = gen.transform_tree(&typed).unwrap();
    assert_eq!(
        chunk.instructions().clone(),
        vec![
            OpCode::Constant { offset: 0 },
            OpCode::Constant { offset: 1 },
            OpCode::Add,
            OpCode::DebugPrint,
        ]
    );
    assert_eq!(chunk.constants().clone(), vec![ThetaConstant::Int(1), ThetaConstant::Int(2)]);
}

#[test]
fn global_declaration_defines_a_global_by_name() {
    let (parser, typed) = checked("let x: Int = 5;");
    let typed = typed.unwrap();
    let gen = ToByteCode::new(parser.scopes(), vec![]);
    let chunk = gen.transform_tree(&typed).unwrap();
    assert_eq!(chunk.instructions().clone(), vec![OpCode::Constant { offset: 0 }, OpCode::DefineGlobal { offset: 1 }]);
    assert_eq!(chunk.constants().clone(), vec![ThetaConstant::Int(5), ThetaConstant::Str(String::from("x"))]);
}

#[test]
fn expression_statement_pops_its_value() {
    let (parser, typed) = checked("3 * 4;");
    let typed = typed.unwrap();
    let gen = ToByteCode::new(parser.scopes(), vec![]);
    let chunk = gen.transform_tree(&typed).unwrap();
    assert_eq!(
        chunk.instructions().clone(),
        vec![OpCode::Constant { offset: 0 }, OpCode::Constant { offset: 1 }, OpCode::Multiply, OpCode::Pop]
    );
}

#[test]
fn not_equal_is_equal_then_negate() {
    let (parser, typed) = checked("print(1 != 2);");
    let gen = ToByteCode::new(parser.scopes(), vec![]);
    let chunk = gen.transform_tree(&typed.unwrap()).unwrap();
    assert_eq!(
        chunk.instructions().clone(),
        vec![
            OpCode::Constant { offset: 0 },
            OpCode::Constant { offset: 1 },
            OpCode::Equal,
            OpCode::Negate,
            OpCode::DebugPrint,
        ]
    );
}

#[test]
fn float_literals_take_bits_from_the_table() {
    let (parser, typed) = checked("print(1.5);");
    let gen = ToByteCode::new(parser.scopes(), vec![(String::from("1.5"), 1.5f64.to_bits())]);
    let chunk = gen.transform_tree(&typed.unwrap()).unwrap();
    assert_eq!(chunk.constants().clone(), vec![ThetaConstant::Double(1.5f64.to_bits())]);
}

#[test]
fn float_literal_missing_from_the_table_is_an_error() {
    let (parser, typed) = checked("print(2.5);");
    let gen = ToByteCode::new(parser.scopes(), vec![]);
    let r = gen.transform_tree(&typed.unwrap());
    assert!(matches!(r, Err(TransformError::ToByteCodeError(ToByteCodeError::InvalidToken(_)))));
}

#[test]
fn mismatched_operands_fail_type_checking() {
    let (_parser, typed) = checked("1 + true;");
    match typed {
        Err(TransformError::TypeCkError(e)) => {
            assert!(matches!(e, TypeCkError::ExpressionBinaryTypeCkFail(TypeInformation::Int, TypeInformation::Boolean, _)));
            assert_eq!(
                e.describe(),
                "Type Mismatch! Left Ty: Int, Right Ty: Boolean, Oper: + - Located at line 1, char 2 ending 3"
            );
        },
        _ => panic!("expected a type error"),
    }
}

#[test]
fn string_concatenation_type_checks() {
    let (_parser, typed) = checked("print(\"a\" + \"b\");");
    assert!(typed.is_ok());
}

#[test]
fn if_needs_a_boolean_check() {
    let (_parser, typed) = checked("if (1) { print(1); };");
    assert!(matches!(typed, Err(TransformError::TypeCkError(TypeCkError::InvalidIfExpressionCheck(TypeInformation::Int)))));
}

#[test]
fn if_expression_compiles_with_a_local_jump() {
    let (parser, typed) = checked("if (true) { print(1); };");
    let typed = typed.unwrap();
    let gen = ToByteCode::new(parser.scopes(), vec![]);
    assert!(gen.tree_compiles(&typed));
    let chunk = gen.transform_tree(&typed).unwrap();
    let ops = chunk.instructions().clone();
    assert_eq!(ops[0], OpCode::Constant { offset: 0 });
    assert!(matches!(ops[1], OpCode::JumpLocalIfFalse { .. }));
    assert_eq!(ops[2], OpCode::Pop);
}

#[test]
fn while_loop_compiles_with_a_far_jump_back() {
    let (parser, typed) = checked("while (false) { print(1); };");
    let typed = typed.unwrap();
    let gen = ToByteCode::new(parser.scopes(), vec![]);
    let chunk = gen.transform_tree(&typed).unwrap();
    let ops = chunk.instructions().clone();
    assert!(ops.iter().any(|op| matches!(op, OpCode::JumpFar { offset } if *offset < 0)));
    assert!(ops.iter().any(|op| matches!(op, OpCode::JumpLocalIfFalse { .. })));
}

#[test]
fn function_item_compiles() {
    let mut parser = BasicParser::new(tokens("fun main() { print(1); }"));
    let items = parser.parse().unwrap();
    let Item::Function(f) = &items[0];
    let ck = TypeCk::new(parser.scopes(), f.information.current_symbol_table);
    let typed = ck.transform_item(&items[0]).unwrap();
    let gen = ToByteCode::new(parser.scopes(), vec![]);
    let Item::Function(tf) = &typed;
    assert!(tf.chunk.information().pi.frame_data < parser.scopes().frame_count());
    assert!(gen.tree_compiles(&tf.chunk));
    let func = gen.transform_item(&typed).unwrap();
    assert_eq!(func.name.as_string().as_str(), "main");
    assert!(matches!(func.return_ty, TypeInformation::Unit));
    assert_eq!(func.chunk.instructions().clone(), vec![OpCode::Constant { offset: 0 }, OpCode::DebugPrint]);
}

#[test]
fn function_returning_the_wrong_type_is_refused() {
    let mut parser = BasicParser::new(tokens("fun f() -> Int { print(1); }"));
    let items = parser.parse().unwrap();
    let Item::Function(f) = &items[0];
    let ck = TypeCk::new(parser.scopes(), f.information.current_symbol_table);
    let r = ck.transform_item(&items[0]);
    assert!(matches!(
        r,
        Err(TransformError::TypeCkError(TypeCkError::InvalidFunctionReturn(TypeInformation::Unit, TypeInformation::Int)))
    ));
}

#[test]
fn error_messages() {
    assert_eq!(TypeInformation::Int.describe(), "Int");
    assert_eq!(TypeInformation::Unit.describe(), "!");
    assert_eq!(TypeInformation::NonLiteral(Symbol::from_str("Point")).describe(), "Point");
    let e = TypeCkError::TypeNotFound(Symbol::from_str("q"));
    assert_eq!(e.describe(), "Type not found for variable: q");
    let b = ToByteCodeError::NoIdentFound(String::from("v"));
    assert_eq!(b.describe(), "No identifier found with name v");
    let t = TransformError::ToByteCodeError(ToByteCodeError::InvalidLocal(String::from("w")));
    assert_eq!(t.describe(), "An error occured during bytecode generation: Invalid Local with Identifier: w");
    let t2 = TransformError::TypeCkError(TypeCkError::InvalidPredicate(TypeInformation::String));
    assert_eq!(t2.describe(), "An error occured during type checking: Type Mismatch! Expected boolean, got: String");
    let tk = Token::new(1, 0, 1, TokenKind::Minus);
    let u = TypeCkError::ExpressionUnaryTypeCkFail(TypeInformation::Boolean, tk);
    assert_eq!(u.describe(), "Type Mismatch! Right Ty: Boolean, Oper: - - Located at line 1, char 0 ending 1");
}

#[test]
fn checking_only_annotates_the_tree() {
    let mut parser = BasicParser::new(tokens("if (1 < 2) { print(3 + 4); };"));
    let stmt: Statement<ParseInfo> = parser.declaration().unwrap();
    let info = *stmt.information();
    let tree = AbstractTree::statement(stmt, info);
    let typed = TypeCk::new(parser.scopes(), info.current_symbol_table).transform_tree(&tree).unwrap();
    assert_eq!(format!("{:?}", typed.strip_information()), format!("{:?}", tree.strip_information()));
}

fn compile_line(src: &str, checked_first: bool) -> Result<(ThetaBitstream, Chunk), ReplError> {
    let mut repl = ReplParser::new(BasicParser::new(tokens(src)));
    let items = repl.parse().unwrap();
    let scopes = repl.into_inner().into_scopes();
    if checked_first {
        try_compile_items(&scopes, vec![], items)
    } else {
        compile_items(&scopes, vec![], items)
    }
}

#[test]
fn line_compiles_declarations_into_the_chunk_and_functions_into_the_bitstream() {
    let (bs, chunk) = compile_line("print(1 + 2); fun f() { print(5); }", false).unwrap();
    assert_eq!(bs.constants, vec![ThetaConstant::Int(1), ThetaConstant::Int(2), ThetaConstant::Int(5)]);
    assert_eq!(
        chunk.instructions().clone(),
        vec![OpCode::Constant { offset: 0 }, OpCode::Constant { offset: 1 }, OpCode::Add, OpCode::DebugPrint]
    );
    assert_eq!(chunk.constants().clone(), vec![ThetaConstant::Int(1), ThetaConstant::Int(2)]);
    assert_eq!(bs.functions.len(), 1);
    assert_eq!(bs.functions[0].name.as_string().as_str(), "f");
    assert_eq!(
        bs.functions[0].chunk.instructions().clone(),
        vec![OpCode::Constant { offset: 2 }, OpCode::DebugPrint]
    );
}

#[test]
fn later_declarations_are_moved_past_the_bitstream_and_merged() {
    let (bs, chunk) = compile_line("print(1); print(3);", true).unwrap();
    assert_eq!(bs.constants, vec![ThetaConstant::Int(1), ThetaConstant::Int(3)]);
    assert_eq!(chunk.constants().clone(), vec![ThetaConstant::Int(1), ThetaConstant::Int(3)]);
    assert_eq!(
        chunk.instructions().clone(),
        vec![OpCode::Constant { offset: 0 }, OpCode::DebugPrint, OpCode::Constant { offset: 2 }, OpCode::DebugPrint]
    );
}

#[test]
fn line_with_a_type_error_is_refused() {
    match compile_line("print(2); 1 + true;", true) {
        Err(ReplError::Transform(TransformError::TypeCkError(TypeCkError::ExpressionBinaryTypeCkFail(..)))) => {},
        _ => panic!("expected a type error"),
    }
}
