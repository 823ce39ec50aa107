//! Passes over the syntax tree: type checking and bytecode generation.

use vstd::prelude::*;

pub mod typeck;
pub mod to_bytecode;
pub mod augmented;

use self::typeck::{TypeCkError, typeck_error_text};
use self::to_bytecode::{ToByteCodeError, bc_error_text};
use crate::text::push_str;

verus! {

/// Why a pass over the tree failed.
#[derive(Debug)]
pub enum TransformError {
    TypeCkError(TypeCkError),
    ToByteCodeError(ToByteCodeError),
}

/// How an error of a pass is written in messages.
pub open spec fn transform_error_text(e: TransformError) -> Seq<char> {
    match e {
        TransformError::TypeCkError(x) => "An error occured during type checking: "@ + typeck_error_text(x),
        TransformError::ToByteCodeError(x) => "An error occured during bytecode generation: "@ + bc_error_text(x@),
    }
}

impl TransformError {
    /// The error as messages write it.
    pub fn describe(&self) -> (r: String)
        ensures
            r@ == transform_error_text(*self),
    {
        let mut out = String::new();
        match self {
            TransformError::TypeCkError(x) => {
                push_str(&mut out, "An error occured during type checking: ");
                push_str(&mut out, x.describe().as_str());
            },
            TransformError::ToByteCodeError(x) => {
                push_str(&mut out, "An error occured during bytecode generation: ");
                push_str(&mut out, x.describe().as_str());
            },
        }
        assert(out@ =~= transform_error_text(*self));
        out
    }
}

} // verus!
