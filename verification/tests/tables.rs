use theta_lang::ast::transformers::augmented::{AugmentedAbstractTree, AugmentedExpression, AugmentedInner, AugmentedStatement};
use theta_lang::ast::symbol::{FrameData, Scopes, SymbolData, SymbolKey, SymbolTable};
use theta_lang::ast::transformers::typeck::TypeInformation;
use theta_lang::bytecode::Symbol;
use theta_lang::parser::Identifier;
use theta_lang::text::{alt_hex_string, push_dec, push_signed, text_order};

#[test]
fn default_table_knows_the_built_in_types() {
    let t = SymbolTable::default();
    let scopes = Scopes::new();
    assert!(matches!(t.get_symbol_data(&scopes, &Symbol::from_str("Int"), 0), Some(SymbolData::Type { ty: TypeInformation::Int })));
    assert!(matches!(
        t.get_symbol_data(&scopes, &Symbol::from_str("String"), 0),
        Some(SymbolData::Type { ty: TypeInformation::String })
    ));
    assert!(matches!(
        t.get_symbol_data(&scopes, &Symbol::from_str("Bool"), 0),
        Some(SymbolData::Type { ty: TypeInformation::Boolean })
    ));
    assert!(matches!(
        t.get_symbol_data(&scopes, &Symbol::from_str("Float"), 0),
        Some(SymbolData::Type { ty: TypeInformation::Float })
    ));
    assert!(t.get_symbol_data(&scopes, &Symbol::from_str("Char"), 0).is_none());
}

#[test]
fn a_lookup_gives_back_what_was_inserted() {
    let mut t = SymbolTable::new();
    let level = t.insert_symbol(Symbol::from_str("v"), SymbolData::GlobalVariable { ty: TypeInformation::Int });
    assert_eq!(level, 0);
    assert!(matches!(t.find(0, &Symbol::from_str("v")), Some(SymbolData::GlobalVariable { ty: TypeInformation::Int })));
    t.insert_symbol(Symbol::from_str("v"), SymbolData::GlobalVariable { ty: TypeInformation::Boolean });
    assert!(matches!(t.find(0, &Symbol::from_str("v")), Some(SymbolData::GlobalVariable { ty: TypeInformation::Boolean })));
}

#[test]
fn deeper_levels_see_the_levels_below() {
    let mut t = SymbolTable::new();
    let scopes = Scopes::new();
    t.insert_symbol(Symbol::from_str("g"), SymbolData::GlobalVariable { ty: TypeInformation::Int });
    t.inc_scope_depth();
    assert_eq!(t.scope_depth(), 1);
    t.insert_symbol(
        Symbol::from_str("l"),
        SymbolData::LocalVariable { ty: TypeInformation::String, scope_level: 1, slot: 0 },
    );
    assert!(t.get_symbol_data(&scopes, &Symbol::from_str("g"), 1).is_some());
    assert!(t.get_symbol_data(&scopes, &Symbol::from_str("l"), 1).is_some());
    assert!(t.get_symbol_data(&scopes, &Symbol::from_str("l"), 0).is_none());
    t.dec_scope_depth();
    assert_eq!(t.scope_depth(), 0);
}

#[test]
fn enclosed_tables_fall_back_on_their_encloser() {
    let mut scopes = Scopes::new();
    let outer = scopes.push_table(SymbolTable::default());
    let inner = scopes.push_table(SymbolTable::new_enclosed(outer));
    assert_eq!(scopes.enclosing(inner), Some(outer));
    scopes.insert_symbol(outer, Symbol::from_str("o"), SymbolData::GlobalVariable { ty: TypeInformation::Int });
    assert!(scopes.get_symbol_data(inner, &Symbol::from_str("o"), 0).is_some());
    assert!(scopes.get_symbol_data(inner, &Symbol::from_str("Int"), 0).is_some());
    assert!(scopes.get_symbol_data(outer, &Symbol::from_str("nothing"), 0).is_none());
    assert_eq!(scopes.table_count(), 2);
}

#[test]
fn modifying_gives_back_the_previous_data() {
    let mut t = SymbolTable::new();
    t.insert_symbol(Symbol::from_str("m"), SymbolData::GlobalVariable { ty: TypeInformation::Int });
    let prev = t.modify_symbol_data(
        SymbolKey(0, Symbol::from_str("m")),
        SymbolData::GlobalVariable { ty: TypeInformation::String },
    );
    assert!(matches!(prev, Some(SymbolData::GlobalVariable { ty: TypeInformation::Int })));
    assert!(matches!(t.find(0, &Symbol::from_str("m")), Some(SymbolData::GlobalVariable { ty: TypeInformation::String })));
}

#[test]
fn frame_data_counts_params_and_locals() {
    let mut f = FrameData::new();
    assert_eq!(f.new_function_variable(), 0);
    assert_eq!(f.new_function_variable(), 1);
    assert_eq!(f.new_local(), 2);
    assert_eq!(f.total_params(), 2);
    assert_eq!(f.total_locals(), 1);
    let mut scopes = Scopes::new();
    let fd = scopes.push_frame(FrameData::default());
    assert_eq!(scopes.new_local(fd), 0);
    assert_eq!(scopes.frame(fd).total_locals(), 1);
}

#[test]
fn table_locals() {
    let mut t = SymbolTable::new();
    assert_eq!(t.new_local(), 0);
    assert_eq!(t.new_local(), 1);
    assert_eq!(t.total_locals(), 2);
    assert_eq!(t.enclosing(), None);
}

#[test]
fn symbols_and_identifiers() {
    let a = Symbol::from_str("abc");
    let b = Symbol::from_string(String::from("abc"));
    assert!(a.same(&b));
    assert_eq!(a.duplicate().id(), "abc");
    let i = Identifier::from_str("xy");
    assert_eq!(i.id(), "xy");
    let tk = theta_lang::lexer::token::Token::new(1, 0, 1, theta_lang::lexer::token::TokenKind::Identifier(String::from("q")));
    assert_eq!(Symbol::new(tk).unwrap().id(), "q");
    let not_ident = theta_lang::lexer::token::Token::new(1, 0, 1, theta_lang::lexer::token::TokenKind::Plus);
    assert!(Symbol::new(not_ident).is_err());
}

#[test]
fn numerals() {
    assert_eq!(alt_hex_string(0), "0x0");
    assert_eq!(alt_hex_string(255), "0xFF");
    let mut s = String::from("n=");
    push_dec(&mut s, 1203);
    assert_eq!(s, "n=1203");
    let mut t = String::new();
    push_signed(&mut t, -45);
    assert_eq!(t, "-45");
    let mut u = String::new();
    push_signed(&mut u, i64::MIN);
    assert_eq!(u, "-9223372036854775808");
}

#[test]
fn text_order_is_lexicographic() {
    assert_eq!(text_order("abc", "abd"), -1);
    assert_eq!(text_order("b", "abc"), 1);
    assert_eq!(text_order("ab", "ab"), 0);
    assert_eq!(text_order("ab", "abc"), -1);
    assert_eq!(text_order("", ""), 0);
    assert_eq!(text_order("é", "z"), 1);
}

#[test]
fn augmented_tree_keeps_its_information() {
    let lit = AugmentedExpression::Literal { literal: theta_lang::lexer::token::Token::new(1, 0, 1, theta_lang::lexer::token::TokenKind::Integer(4)), information: 7u8 };
    assert_eq!(*lit.information(), 7);
    let st = AugmentedStatement::PrintStatement { expression: lit, information: 8u8 };
    assert_eq!(*st.information(), 8);
    let tree = AugmentedAbstractTree::statement(st, 9u8);
    assert!(matches!(tree.inner(), AugmentedInner::Statement((_, 9))));
    let e = AugmentedExpression::Sequence { seq: vec![], information: 1u8 };
    let t2 = AugmentedAbstractTree::expression(e, 2u8);
    assert!(matches!(t2.inner(), AugmentedInner::Expression((AugmentedExpression::Sequence { .. }, 2))));
}
