//! Readable listings of chunks before they are assembled.

use vstd::prelude::*;
use crate::text::{string_from_str, push_str, push_alt_hex, alt_hex};
use super::chunk::{Chunk, ChunkView, code_size, lemma_code_size_concat};
use super::instruction::{OpCode, op_size, op_hexcode, op_description};
use super::disassembler::{ListingLine, LineView, line_views};
use super::value::ThetaConstant;

verus! {

/// Where a jump at code offset `at` lands, as `{:#X}` writes it: the target
/// as a machine word.
pub open spec fn jump_part(op: OpCode, at: nat) -> Seq<char> {
    match op {
        OpCode::JumpFar { offset } => " -> "@ + alt_hex(((at + offset) as u64) as nat),
        OpCode::JumpLocal { offset } => " -> "@ + alt_hex(((at + offset) as u64) as nat),
        OpCode::JumpFarIfFalse { offset } => " -> "@ + alt_hex(((at + offset) as u64) as nat),
        OpCode::JumpLocalIfFalse { offset } => " -> "@ + alt_hex(((at + offset) as u64) as nat),
        _ => seq![],
    }
}

/// The line listing instruction `op` at code offset `at`.
pub open spec fn op_line(op: OpCode, at: nat) -> Seq<char> {
    alt_hex(at) + " | Op: "@ + op_description(op) + " ("@ + alt_hex(op_hexcode(op) as nat) + ")"@ + jump_part(op, at)
        + "\n"@
}

/// The listing of a chunk: its constants, then its instructions each with its
/// code offset, then the size of its code.
pub open spec fn chunk_listing(c: ChunkView) -> Seq<LineView> {
    seq![LineView::Text("=== CHUNK BEGIN ===\n"@), LineView::Text("-- CONSTANT POOL --\n"@)]
        + c.pool.map_values(|k: ThetaConstant| LineView::ConstantDebug(k@))
        + seq![LineView::Text("-- INSTRUCTIONS --\n"@)]
        + Seq::new(c.ops.len(), |i: int| LineView::Text(op_line(c.ops[i], code_size(c.ops.subrange(0, i)))))
        + seq![LineView::Text("=== CHUNK END @ "@ + alt_hex(code_size(c.ops)) + " ===\n"@)]
}

/// The listings of chunks, one after the other.
pub open spec fn chunks_listing(cs: Seq<ChunkView>) -> Seq<LineView>
    decreases cs.len(),
{
    if cs.len() == 0 {
        seq![]
    } else {
        chunks_listing(cs.drop_last()) + chunk_listing(cs.last())
    }
}

/// Writes readable listings of chunks. Its lines accumulate for the caller to write out.
pub struct PlainTextAssembler {
    lines: Vec<ListingLine>,
}

impl View for PlainTextAssembler {
    type V = Seq<LineView>;

    closed spec fn view(&self) -> Seq<LineView> {
        line_views(self.lines@)
    }
}

/// The line of text listing `op` at code offset `at`.
fn op_text(op: OpCode, at: usize) -> (r: String)
    ensures
        r@ == op_line(op, at as nat),
{
    let mut s = crate::text::alt_hex_string(at as u64);
    push_str(&mut s, " | Op: ");
    let d = op.human_readable();
    push_str(&mut s, d.as_str());
    push_str(&mut s, " (");
    push_alt_hex(&mut s, op.as_hexcode() as u64);
    push_str(&mut s, ")");
    match op {
        OpCode::JumpFar { offset } => {
            push_str(&mut s, " -> ");
            push_alt_hex(&mut s, (at as i128 + offset as i128) as u64);
        },
        OpCode::JumpLocal { offset } => {
            push_str(&mut s, " -> ");
            push_alt_hex(&mut s, (at as i128 + offset as i128) as u64);
        },
        OpCode::JumpFarIfFalse { offset } => {
            push_str(&mut s, " -> ");
            push_alt_hex(&mut s, (at as i128 + offset as i128) as u64);
        },
        OpCode::JumpLocalIfFalse { offset } => {
            push_str(&mut s, " -> ");
            push_alt_hex(&mut s, (at as i128 + offset as i128) as u64);
        },
        _ => {},
    }
    push_str(&mut s, "\n");
    s
}

impl PlainTextAssembler {
    pub fn new() -> (r: PlainTextAssembler)
        ensures
            r@ == Seq::<LineView>::empty(),
    {
        let r = PlainTextAssembler { lines: Vec::new() };
        assert(r@ =~= Seq::<LineView>::empty());
        r
    }

    /// The lines written so far, handing them back.
    pub fn into_lines(self) -> (r: Vec<ListingLine>)
        ensures
            line_views(r@) == self@,
    {
        self.lines
    }

    fn push_line(&mut self, l: ListingLine)
        ensures
            final(self)@ == old(self)@.push(l@),
    {
        self.lines.push(l);
        assert(line_views(self.lines@) =~= old(self)@.push(l@));
    }

    /// Lists one chunk.
    pub fn assemble_chunk(&mut self, chunk: &Chunk)
        requires
            code_size(chunk@.ops) <= usize::MAX,
        ensures
            final(self)@ == old(self)@ + chunk_listing(chunk@),
    {
        self.push_line(ListingLine::Text(string_from_str("=== CHUNK BEGIN ===\n")));
        self.push_line(ListingLine::Text(string_from_str("-- CONSTANT POOL --\n")));
        let constants = chunk.constants();
        let ghost start = self@;
        let mut i: usize = 0;
        while i < constants.len()
            invariant
                i <= constants@.len(),
                constants@ == chunk@.pool,
                self@ == start + constants@.subrange(0, i as int).map_values(|k: ThetaConstant| LineView::ConstantDebug(k@)),
            decreases constants@.len() - i,
        {
            self.push_line(ListingLine::ConstantDebug(constants[i].duplicate()));
            i = i + 1;
            assert(constants@.subrange(0, i as int).map_values(|k: ThetaConstant| LineView::ConstantDebug(k@))
                =~= constants@.subrange(0, i - 1).map_values(|k: ThetaConstant| LineView::ConstantDebug(k@)).push(
                LineView::ConstantDebug(constants@[i - 1]@),
            ));
        }
        assert(constants@.subrange(0, i as int) =~= constants@);
        self.push_line(ListingLine::Text(string_from_str("-- INSTRUCTIONS --\n")));
        let ghost mid = self@;
        let ops = chunk.instructions();
        let mut code_offset: usize = 0;
        let mut j: usize = 0;
        while j < ops.len()
            invariant
                j <= ops@.len(),
                ops@ == chunk@.ops,
                code_size(ops@) <= usize::MAX,
                code_offset == code_size(ops@.subrange(0, j as int)),
                self@ == mid + Seq::new(
                    j as nat,
                    |k: int| LineView::Text(op_line(ops@[k], code_size(ops@.subrange(0, k)))),
                ),
            decreases ops@.len() - j,
        {
            let op = ops[j];
            let line = op_text(op, code_offset);
            self.push_line(ListingLine::Text(line));
            proof {
                let pre = ops@.subrange(0, j + 1);
                assert(pre.drop_last() =~= ops@.subrange(0, j as int));
                let rest = ops@.subrange(j + 1, ops@.len() as int);
                assert(ops@ =~= pre + rest);
                lemma_code_size_concat(pre, rest);
            }
            code_offset = code_offset + op.size();
            j = j + 1;
            assert(self@ =~= mid + Seq::new(
                j as nat,
                |k: int| LineView::Text(op_line(ops@[k], code_size(ops@.subrange(0, k)))),
            ));
        }
        assert(ops@.subrange(0, j as int) =~= ops@);
        let mut end = string_from_str("=== CHUNK END @ ");
        push_alt_hex(&mut end, code_offset as u64);
        push_str(&mut end, " ===\n");
        self.push_line(ListingLine::Text(end));
        assert(self@ =~= old(self)@ + chunk_listing(chunk@));
    }

    /// Lists chunks one after the other.
    pub fn assemble(&mut self, chunks: Vec<Chunk>)
        requires
            forall|i: int| 0 <= i < chunks@.len() ==> code_size((#[trigger] chunks@[i])@.ops) <= usize::MAX,
        ensures
            final(self)@ == old(self)@ + chunks_listing(super::assembler::chunk_views(chunks@)),
    {
        let ghost all = super::assembler::chunk_views(chunks@);
        let mut k: usize = 0;
        assert(all.subrange(0, 0) =~= Seq::<ChunkView>::empty());
        while k < chunks.len()
            invariant
                k <= chunks@.len(),
                all == super::assembler::chunk_views(chunks@),
                forall|i: int| 0 <= i < chunks@.len() ==> code_size((#[trigger] chunks@[i])@.ops) <= usize::MAX,
                self@ == old(self)@ + chunks_listing(all.subrange(0, k as int)),
            decreases chunks@.len() - k,
        {
            self.assemble_chunk(&chunks[k]);
            let ghost pre = all.subrange(0, k as int + 1);
            assert(pre.drop_last() =~= all.subrange(0, k as int));
            k = k + 1;
        }
        assert(all.subrange(0, k as int) =~= all);
    }
}

} // verus!
