//! Compiled functions, and bitstreams of constants and functions.

use vstd::prelude::*;
use crate::ast::transformers::typeck::TypeInformation;
use super::chunk::{Chunk, ChunkView, ops_relocatable, relocated};
use super::value::{ThetaConstant, ThetaString, ThetaValue};

verus! {

/// The header of an assembled bitstream.
pub const BITSTREAM_HEADER: [u8; 8] = [0xD, 0xE, 0xA, 0xD, 0xC, 0xA, 0xF, 0xE];

/// The type of an argument of a compiled function.
#[derive(Debug)]
pub struct ThetaFuncArg {
    pub ty: TypeInformation,
}

/// A compiled function: its arguments, code, name and return type.
#[derive(Debug)]
pub struct ThetaFunction {
    pub args: Vec<ThetaFuncArg>,
    pub chunk: Chunk,
    pub name: ThetaString,
    pub return_ty: TypeInformation,
}

/// The constants and functions of a unit of compiled code.
#[derive(Debug)]
pub struct ThetaBitstream {
    pub constants: Vec<ThetaConstant>,
    pub functions: Vec<ThetaFunction>,
}

/// Whether `f` is `g` with its code's constant-pool operands moved up by `base`.
pub open spec fn function_relocated(f: ThetaFunction, g: ThetaFunction, base: nat) -> bool {
    &&& f.args@ == g.args@
    &&& f.name@ == g.name@
    &&& f.return_ty == g.return_ty
    &&& f.chunk@ == relocated(g.chunk@, base)
}

impl ThetaBitstream {
    pub fn new() -> (r: ThetaBitstream)
        ensures
            r.constants@ == Seq::<ThetaConstant>::empty(),
            r.functions@ == Seq::<ThetaFunction>::empty(),
    {
        ThetaBitstream { constants: Vec::new(), functions: Vec::new() }
    }

    pub fn new_filled(constants: Vec<ThetaConstant>, functions: Vec<ThetaFunction>) -> (r: ThetaBitstream)
        ensures
            r.constants == constants,
            r.functions == functions,
    {
        ThetaBitstream { constants, functions }
    }

    pub fn write_function(&mut self, func: ThetaFunction)
        ensures
            final(self).functions@ == old(self).functions@.push(func),
            final(self).constants == old(self).constants,
    {
        self.functions.push(func);
    }

    pub fn functions(&self) -> (r: &Vec<ThetaFunction>)
        ensures
            r == self.functions,
    {
        &self.functions
    }

    pub fn write_constant(&mut self, constant: ThetaConstant)
        ensures
            final(self).constants@ == old(self).constants@.push(constant),
            final(self).functions == old(self).functions,
    {
        self.constants.push(constant);
    }

    pub fn constants(&self) -> (r: &Vec<ThetaConstant>)
        ensures
            r == self.constants,
    {
        &self.constants
    }

    /// The bitstream of this one's constants and then `other`'s, and of this
    /// one's functions and then `other`'s, whose code is moved to refer to
    /// their constants at their new places.
    pub fn merge(self, other: ThetaBitstream) -> (r: ThetaBitstream)
        requires
            forall|j: int|
                0 <= j < other.functions@.len() ==> ops_relocatable(
                    (#[trigger] other.functions@[j]).chunk@.ops,
                    self.constants@.len(),
                ),
        ensures
            r.constants@ == self.constants@ + other.constants@,
            r.functions@.len() == self.functions@.len() + other.functions@.len(),
            forall|i: int| 0 <= i < self.functions@.len() ==> r.functions@[i] == self.functions@[i],
            forall|j: int|
                0 <= j < other.functions@.len() ==> function_relocated(
                    #[trigger] r.functions@[self.functions@.len() + j],
                    other.functions@[j],
                    self.constants@.len(),
                ),
    {
        let offset_size = self.constants.len();
        let ghost own = self.functions@;
        let ghost theirs = other.functions@;
        let mut constants = self.constants;
        let mut other_constants = other.constants;
        constants.append(&mut other_constants);
        let mut functions = self.functions;
        let mut rest = other.functions;
        let mut k: usize = 0;
        let n = rest.len();
        assert(rest@.subrange(0, rest@.len() as int) =~= rest@);
        while rest.len() > 0
            invariant
                k + rest@.len() == theirs.len(),
                theirs.len() == n,
                rest@ == theirs.subrange(k as int, theirs.len() as int),
                functions@.len() == own.len() + k,
                offset_size == self.constants@.len(),
                forall|i: int| 0 <= i < own.len() ==> functions@[i] == own[i],
                forall|j: int|
                    0 <= j < theirs.len() ==> ops_relocatable((#[trigger] theirs[j]).chunk@.ops, offset_size as nat),
                forall|j: int|
                    0 <= j < k ==> function_relocated(#[trigger] functions@[own.len() + j], theirs[j], offset_size as nat),
            decreases rest@.len(),
        {
            let func = rest.remove(0);
            assert(func == theirs[k as int]);
            let ThetaFunction { args, chunk, name, return_ty } = func;
            let moved = ThetaFunction { args, chunk: chunk.relocate(offset_size), name, return_ty };
            functions.push(moved);
            k = k + 1;
            assert(rest@ =~= theirs.subrange(k as int, theirs.len() as int));
        }
        ThetaBitstream { constants, functions }
    }
}

/// A function read back from a file: its argument types, code bytes, name and return type.
#[derive(Debug)]
pub struct ThetaCompiledFunction {
    pub args: Vec<ThetaFuncArg>,
    pub chunk: Vec<u8>,
    pub name: ThetaString,
    pub return_ty: TypeInformation,
}

/// The constants and functions read back from a file.
#[derive(Debug)]
pub struct ThetaCompiledBitstream {
    pub constants: Vec<ThetaValue>,
    pub functions: Vec<ThetaCompiledFunction>,
}

impl ThetaCompiledBitstream {
    pub fn new() -> (r: ThetaCompiledBitstream)
        ensures
            r.constants@ == Seq::<ThetaValue>::empty(),
            r.functions@ == Seq::<ThetaCompiledFunction>::empty(),
    {
        ThetaCompiledBitstream { constants: Vec::new(), functions: Vec::new() }
    }

    pub fn functions(&self) -> (r: &Vec<ThetaCompiledFunction>)
        ensures
            r == self.functions,
    {
        &self.functions
    }
}

} // verus!
