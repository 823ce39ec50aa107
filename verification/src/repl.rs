//! What a line at the prompt is compiled to, and what it leaves the prompt to do.
//!
//! The items of a line are checked and compiled in order. A function joins the
//! bitstream: its constants are appended to the bitstream's, and its code is
//! moved to refer to them there. A declaration's constants join the bitstream
//! too, and its code, moved in the same way, is appended to the chunk that the
//! line runs.

use vstd::prelude::*;
use crate::ast::symbol::{Scopes, TableView, FrameView};
use crate::ast::tree::{AbstractTree, Function, Item};
use crate::ast::transformers::TransformError;
use crate::ast::transformers::typeck::{
    TypeCk, TypeCkOutput, tc_tree, typed_tree, tc_function, typed_function, tree_seqs_nonempty, tree_sequences_filled,
};
use crate::ast::transformers::to_bytecode::{ToByteCode, BcError, bc_tree, tree_bc_total, compiled_function};
use crate::bytecode::{
    Chunk, ChunkView, ThetaBitstream, ThetaConstant, ThetaFunction, ops_relocatable, mergeable, merged, relocated,
};
use crate::parser::{ParseInfo, ReplItem};

verus! {

/// Whether the prompt goes on after a line.
#[derive(Debug, Clone, Copy, PartialEq, Eq, Structural)]
pub enum ReplStatus {
    ReplOk,
    ReplTerminate,
}

/// Why the items of a line could not be compiled.
#[derive(Debug)]
pub enum ReplError {
    /// Checking or code generation reported an error.
    Transform(TransformError),
    /// A sequence expression has no element, so the line cannot be checked.
    EmptySequence,
    /// The code of the line cannot be generated or placed within machine words:
    /// its tree is too large, it names a frame that does not exist, or a
    /// constant's place overflows when the code is moved.
    Uncompilable,
}

/// What the items compiled so far have given: the bitstream's constants and
/// functions, and the chunk that the line runs.
pub struct CompiledView {
    pub constants: Seq<ThetaConstant>,
    pub functions: Seq<ThetaFunction>,
    pub chunk: ChunkView,
}

/// A bitstream and a chunk seen together.
pub open spec fn progress(bs: ThetaBitstream, ch: Chunk) -> CompiledView {
    CompiledView { constants: bs.constants@, functions: bs.functions@, chunk: ch@ }
}

/// Nothing compiled yet.
pub open spec fn nothing_compiled() -> CompiledView {
    CompiledView { constants: seq![], functions: seq![], chunk: ChunkView { ops: seq![], pool: seq![] } }
}

/// A compiling step's result seen mathematically.
pub open spec fn outcome(r: Result<(ThetaBitstream, Chunk), ReplError>) -> Result<CompiledView, ReplError> {
    match r {
        Ok((bs, ch)) => Ok(progress(bs, ch)),
        Err(e) => Err(e),
    }
}

/// What adding a checked declaration `t` after `s` gives: its code `c` is moved
/// past the bitstream's constants, its constants are appended to them, and the
/// moved code is merged into the chunk.
pub open spec fn checked_declaration_outcome(
    sc: Seq<TableView>,
    frames: Seq<FrameView>,
    fl: Seq<(String, u64)>,
    t: AbstractTree<TypeCkOutput>,
    s: CompiledView,
    out: Result<CompiledView, ReplError>,
) -> bool {
    if t.info().pi.frame_data >= frames.len() || !tree_bc_total(sc, fl, t) {
        out == Err::<CompiledView, ReplError>(ReplError::Uncompilable)
    } else {
        match bc_tree(sc, frames, fl, t) {
            Err(x) => out matches Err(ReplError::Transform(TransformError::ToByteCodeError(y))) && y@ == x,
            Ok(c) => {
                let moved = relocated(c, s.constants.len());
                if !ops_relocatable(c.ops, s.constants.len()) || !mergeable(s.chunk, moved) {
                    out == Err::<CompiledView, ReplError>(ReplError::Uncompilable)
                } else {
                    out == Ok::<CompiledView, ReplError>(
                        CompiledView {
                            constants: s.constants + c.pool,
                            functions: s.functions,
                            chunk: merged(s.chunk, moved),
                        },
                    )
                }
            },
        }
    }
}

/// What compiling the declaration `d` after `s` may give: the checker's error,
/// or, for a tree the checker annotates, what adding it gives.
pub open spec fn declaration_outcome(
    sc: Seq<TableView>,
    frames: Seq<FrameView>,
    fl: Seq<(String, u64)>,
    d: AbstractTree<ParseInfo>,
    s: CompiledView,
    out: Result<CompiledView, ReplError>,
) -> bool {
    let tbl = d.info().current_symbol_table as nat;
    if !tree_seqs_nonempty(d) {
        out == Err::<CompiledView, ReplError>(ReplError::EmptySequence)
    } else {
        match tc_tree(sc, tbl, d) {
            Err(e) => out == Err::<CompiledView, ReplError>(ReplError::Transform(TransformError::TypeCkError(e))),
            Ok(_) => exists|t: AbstractTree<TypeCkOutput>|
                #[trigger] typed_tree(sc, tbl, d, t) && checked_declaration_outcome(sc, frames, fl, t, s, out),
        }
    }
}

/// What adding a checked function `t` after `s` gives: its code `c` joins the
/// bitstream's functions moved past the bitstream's constants, and its constants
/// are appended to them; the chunk is left as it is.
pub open spec fn checked_function_outcome(
    sc: Seq<TableView>,
    frames: Seq<FrameView>,
    fl: Seq<(String, u64)>,
    t: Function<TypeCkOutput>,
    s: CompiledView,
    out: Result<CompiledView, ReplError>,
) -> bool {
    if t.chunk.info().pi.frame_data >= frames.len() || !tree_bc_total(sc, fl, t.chunk) {
        out == Err::<CompiledView, ReplError>(ReplError::Uncompilable)
    } else {
        match bc_tree(sc, frames, fl, t.chunk) {
            Err(x) => out matches Err(ReplError::Transform(TransformError::ToByteCodeError(y))) && y@ == x,
            Ok(c) => if !ops_relocatable(c.ops, s.constants.len()) {
                out == Err::<CompiledView, ReplError>(ReplError::Uncompilable)
            } else {
                &&& out matches Ok(n)
                &&& n.constants == s.constants + c.pool
                &&& n.chunk == s.chunk
                &&& n.functions.len() == s.functions.len() + 1
                &&& n.functions.drop_last() == s.functions
                &&& compiled_function(t, n.functions.last(), relocated(c, s.constants.len()))
            },
        }
    }
}

/// What compiling the function `f` after `s` may give: the checker's error, or,
/// for a function the checker annotates, what adding it gives.
pub open spec fn function_outcome(
    sc: Seq<TableView>,
    frames: Seq<FrameView>,
    fl: Seq<(String, u64)>,
    f: Function<ParseInfo>,
    s: CompiledView,
    out: Result<CompiledView, ReplError>,
) -> bool {
    let tbl = f.information.current_symbol_table as nat;
    if !tree_seqs_nonempty(f.chunk) {
        out == Err::<CompiledView, ReplError>(ReplError::EmptySequence)
    } else {
        match tc_function(sc, tbl, f) {
            Err(e) => out == Err::<CompiledView, ReplError>(ReplError::Transform(TransformError::TypeCkError(e))),
            Ok(_) => exists|t: Function<TypeCkOutput>|
                #[trigger] typed_function(sc, tbl, f, t) && checked_function_outcome(sc, frames, fl, t, s, out),
        }
    }
}

/// What compiling one item after `s` may give.
#[verifier::opaque]
pub open spec fn item_outcome(
    sc: Seq<TableView>,
    frames: Seq<FrameView>,
    fl: Seq<(String, u64)>,
    item: ReplItem,
    s: CompiledView,
    out: Result<CompiledView, ReplError>,
) -> bool {
    match item {
        ReplItem::ParserItem(Item::Function(f)) => function_outcome(sc, frames, fl, f, s, out),
        ReplItem::Declaration(d) => declaration_outcome(sc, frames, fl, d, s, out),
    }
}

/// Whether `trace` is a run of compiling `items` in order from nothing that
/// ends in `out`: `trace[j]` is what the first `j` items give, each item is
/// compiled after those before it, and the first error stops compiling.
pub open spec fn compiled_run(
    sc: Seq<TableView>,
    frames: Seq<FrameView>,
    fl: Seq<(String, u64)>,
    items: Seq<ReplItem>,
    trace: Seq<CompiledView>,
    out: Result<CompiledView, ReplError>,
) -> bool {
    &&& 1 <= trace.len() <= items.len() + 1
    &&& trace[0] == nothing_compiled()
    &&& forall|j: int|
        0 <= j < trace.len() - 1 ==> item_outcome(sc, frames, fl, items[j], #[trigger] trace[j], Ok(trace[j + 1]))
    &&& if trace.len() == items.len() + 1 {
        out == Ok::<CompiledView, ReplError>(trace.last())
    } else {
        out is Err && item_outcome(sc, frames, fl, items[trace.len() - 1], trace.last(), out)
    }
}

/// What compiling `items` in order from nothing may give: the end of some run.
pub open spec fn items_outcome(
    sc: Seq<TableView>,
    frames: Seq<FrameView>,
    fl: Seq<(String, u64)>,
    items: Seq<ReplItem>,
    out: Result<CompiledView, ReplError>,
) -> bool {
    exists|trace: Seq<CompiledView>| #[trigger] compiled_run(sc, frames, fl, items, trace, out)
}

/// Appends copies of `more` to `v`.
fn append_constants(v: &mut Vec<ThetaConstant>, more: &Vec<ThetaConstant>)
    ensures
        final(v)@ == old(v)@ + more@,
{
    let ghost start = v@;
    let mut i: usize = 0;
    while i < more.len()
        invariant
            i <= more@.len(),
            v@ == start + more@.subrange(0, i as int),
        decreases more@.len() - i,
    {
        v.push(more[i].duplicate());
        i = i + 1;
        assert(v@ =~= start + more@.subrange(0, i as int));
    }
    assert(more@.subrange(0, i as int) =~= more@);
}

/// Adds a checked declaration to the bitstream and the chunk.
fn add_declaration(
    scopes: &Scopes,
    generator: &ToByteCode,
    t: &AbstractTree<TypeCkOutput>,
    bitstream: ThetaBitstream,
    chunk: Chunk,
) -> (r: Result<(ThetaBitstream, Chunk), ReplError>)
    requires
        generator.tables() == scopes.tables(),
        generator.frames() == scopes.frames(),
    ensures
        checked_declaration_outcome(
            scopes.tables(),
            scopes.frames(),
            generator.floats(),
            *t,
            progress(bitstream, chunk),
            outcome(r),
        ),
{
    if t.information().pi.frame_data >= scopes.frame_count() || !generator.tree_compiles(t) {
        return Err(ReplError::Uncompilable);
    }
    let code = match generator.transform_tree(t) {
        Ok(c) => c,
        Err(e) => {
            return Err(ReplError::Transform(e));
        },
    };
    let base = bitstream.constants.len();
    if !code.can_relocate(base) {
        return Err(ReplError::Uncompilable);
    }
    let moved = code.relocate(base);
    if !moved.can_relocate(chunk.constants().len()) {
        return Err(ReplError::Uncompilable);
    }
    let mut bitstream = bitstream;
    append_constants(&mut bitstream.constants, moved.constants());
    let chunk = chunk.merge_chunk(moved);
    Ok((bitstream, chunk))
}

/// Adds a checked function to the bitstream.
fn add_function(
    scopes: &Scopes,
    generator: &ToByteCode,
    item: &Item<TypeCkOutput>,
    bitstream: ThetaBitstream,
    chunk: Chunk,
) -> (r: Result<(ThetaBitstream, Chunk), ReplError>)
    requires
        generator.tables() == scopes.tables(),
        generator.frames() == scopes.frames(),
    ensures
        match *item {
            Item::Function(t) => checked_function_outcome(
                scopes.tables(),
                scopes.frames(),
                generator.floats(),
                t,
                progress(bitstream, chunk),
                outcome(r),
            ),
        },
{
    let Item::Function(t) = item;
    if t.chunk.information().pi.frame_data >= scopes.frame_count() || !generator.tree_compiles(&t.chunk) {
        return Err(ReplError::Uncompilable);
    }
    let f = match generator.transform_item(item) {
        Ok(f) => f,
        Err(e) => {
            return Err(ReplError::Transform(e));
        },
    };
    let ghost c = choose|c: ChunkView|
        bc_tree(scopes.tables(), scopes.frames(), generator.floats(), t.chunk) == Ok::<ChunkView, BcError>(c)
            && compiled_function(*t, f, c);
    let base = bitstream.constants.len();
    if !f.chunk.can_relocate(base) {
        return Err(ReplError::Uncompilable);
    }
    let ThetaFunction { args, chunk: code, name, return_ty } = f;
    let ghost before = progress(bitstream, chunk);
    let mut bitstream = bitstream;
    append_constants(&mut bitstream.constants, code.constants());
    let placed = ThetaFunction { args, chunk: code.relocate(base), name, return_ty };
    assert(compiled_function(*t, placed, relocated(c, base as nat)));
    bitstream.functions.push(placed);
    assert(bitstream.functions@.drop_last() =~= before.functions);
    Ok((bitstream, chunk))
}

/// Compiles one item after what `bitstream` and `chunk` hold.
fn compile_item(
    scopes: &Scopes,
    generator: &ToByteCode,
    item: &ReplItem,
    bitstream: ThetaBitstream,
    chunk: Chunk,
) -> (r: Result<(ThetaBitstream, Chunk), ReplError>)
    requires
        generator.tables() == scopes.tables(),
        generator.frames() == scopes.frames(),
    ensures
        item_outcome(scopes.tables(), scopes.frames(), generator.floats(), *item, progress(bitstream, chunk), outcome(r)),
{
    reveal(item_outcome);
    match item {
        ReplItem::ParserItem(pi) => {
            let Item::Function(f) = pi;
            if !tree_sequences_filled(&f.chunk) {
                return Err(ReplError::EmptySequence);
            }
            let checker = TypeCk::new(scopes, f.information.current_symbol_table);
            let checked = match checker.transform_item(pi) {
                Ok(t) => t,
                Err(e) => {
                    return Err(ReplError::Transform(e));
                },
            };
            let r = add_function(scopes, generator, &checked, bitstream, chunk);
            let Item::Function(t) = &checked;
            assert(typed_function(scopes.tables(), f.information.current_symbol_table as nat, *f, *t));
            r
        },
        ReplItem::Declaration(d) => {
            if !tree_sequences_filled(d) {
                return Err(ReplError::EmptySequence);
            }
            let checker = TypeCk::new(scopes, d.information().current_symbol_table);
            let checked = match checker.transform_tree(d) {
                Ok(t) => t,
                Err(e) => {
                    return Err(ReplError::Transform(e));
                },
            };
            let r = add_declaration(scopes, generator, &checked, bitstream, chunk);
            assert(typed_tree(scopes.tables(), d.info().current_symbol_table as nat, *d, checked));
            r
        },
    }
}

/// Compiles the items of a line in order, with the symbol tables and frames of
/// `scopes` and the bit patterns `floats` gives for float literals: the
/// bitstream of its functions and their constants, and the chunk of its
/// declarations; or the first error that checking or code generation reports,
/// as `items_outcome` says. Items that cannot be checked or placed at all
/// (`try_compile_items` names them) are not admitted.
pub fn compile_items(scopes: &Scopes, floats: Vec<(String, u64)>, items: Vec<ReplItem>) -> (r: Result<
    (ThetaBitstream, Chunk),
    ReplError,
>)
    requires
        !items_outcome(scopes.tables(), scopes.frames(), floats@, items@, Err(ReplError::EmptySequence)),
        !items_outcome(scopes.tables(), scopes.frames(), floats@, items@, Err(ReplError::Uncompilable)),
    ensures
        items_outcome(scopes.tables(), scopes.frames(), floats@, items@, outcome(r)),
        r matches Err(e) ==> e is Transform,
{
    try_compile_items(scopes, floats, items)
}

/// Checks and compiles the items of a line in order, as `compile_items` does;
/// an item with an empty sequence expression is answered with `EmptySequence`,
/// and one whose code cannot be generated or placed within machine words with
/// `Uncompilable`.
pub fn try_compile_items(scopes: &Scopes, floats: Vec<(String, u64)>, items: Vec<ReplItem>) -> (r: Result<
    (ThetaBitstream, Chunk),
    ReplError,
>)
    ensures
        items_outcome(scopes.tables(), scopes.frames(), floats@, items@, outcome(r)),
{
    let generator = ToByteCode::new(scopes, floats);
    let mut bitstream = ThetaBitstream::new();
    let mut chunk = Chunk::new();
    let mut i: usize = 0;
    let ghost sc = scopes.tables();
    let ghost fr = scopes.frames();
    let ghost mut trace: Seq<CompiledView> = seq![nothing_compiled()];
    assert(progress(bitstream, chunk) =~= nothing_compiled());
    while i < items.len()
        invariant
            i <= items@.len(),
            sc == scopes.tables(),
            fr == scopes.frames(),
            generator.tables() == sc,
            generator.frames() == fr,
            generator.floats() == floats@,
            trace.len() == i + 1,
            trace[0] == nothing_compiled(),
            trace.last() == progress(bitstream, chunk),
            forall|j: int|
                0 <= j < trace.len() - 1 ==> item_outcome(sc, fr, floats@, items@[j], #[trigger] trace[j], Ok(trace[j + 1])),
        decreases items@.len() - i,
    {
        let ghost before = progress(bitstream, chunk);
        let r = compile_item(scopes, &generator, &items[i], bitstream, chunk);
        match r {
            Ok((b, c)) => {
                bitstream = b;
                chunk = c;
                proof {
                    let old_trace = trace;
                    trace = trace.push(progress(bitstream, chunk));
                    assert forall|j: int| 0 <= j < trace.len() - 1 implies item_outcome(
                        sc,
                        fr,
                        floats@,
                        items@[j],
                        #[trigger] trace[j],
                        Ok(trace[j + 1]),
                    ) by {
                        if j < old_trace.len() - 1 {
                            assert(old_trace[j] == trace[j] && old_trace[j + 1] == trace[j + 1]);
                        }
                    }
                }
                i = i + 1;
            },
            Err(e) => {
                assert(compiled_run(sc, fr, floats@, items@, trace, Err::<CompiledView, ReplError>(e)));
                return Err(e);
            },
        }
    }
    assert(compiled_run(sc, fr, floats@, items@, trace, outcome(Ok::<(ThetaBitstream, Chunk), ReplError>((bitstream, chunk)))));
    Ok((bitstream, chunk))
}

} // verus!
