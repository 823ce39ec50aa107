pub mod symbol;
pub mod transformers;
pub mod tree;

pub use self::tree::{AbstractTree, InnerAbstractTree, Expression, Statement, Function, FunctionArg, Item, expr_info, stmt_info};
