use vstd::prelude::*;
use super::instruction::{OpCode, op_size, op_relocatable, op_relocated, lemma_relocation_laws};
use super::value::ThetaConstant;

verus! {

/// "TheChunk": the header of an assembled chunk.
pub const CHUNK_HEADER: [u8; 8] = [84, 104, 101, 67, 104, 117, 110, 107];

/// The number of bytes that a sequence of instructions is counted as taking.
pub open spec fn code_size(ops: Seq<OpCode>) -> nat
    decreases ops.len(),
{
    if ops.len() == 0 {
        0
    } else {
        code_size(ops.drop_last()) + op_size(ops.last())
    }
}

/// Whether every instruction of `ops` can have its constant-pool operand moved up by `base`.
pub open spec fn ops_relocatable(ops: Seq<OpCode>, base: nat) -> bool {
    forall|i: int| 0 <= i < ops.len() ==> op_relocatable(#[trigger] ops[i], base)
}

/// `ops` with every constant-pool operand moved up by `base`.
pub open spec fn ops_relocated(ops: Seq<OpCode>, base: nat) -> Seq<OpCode> {
    ops.map_values(|op: OpCode| op_relocated(op, base))
}

/// A chunk seen as its instructions and its constant pool.
pub struct ChunkView {
    pub ops: Seq<OpCode>,
    pub pool: Seq<ThetaConstant>,
}

/// Whether `b` can be appended to `a`: its constant-pool operands, moved past
/// the constants of `a`, stay within a machine word.
pub open spec fn mergeable(a: ChunkView, b: ChunkView) -> bool {
    ops_relocatable(b.ops, a.pool.len())
}

/// The chunk that runs `a` and then `b`: the constants of `b` follow those of
/// `a`, and the instructions of `b` refer to their constants at the new places.
pub open spec fn merged(a: ChunkView, b: ChunkView) -> ChunkView {
    ChunkView { ops: a.ops + ops_relocated(b.ops, a.pool.len()), pool: a.pool + b.pool }
}

/// The chunk `c` with its constant-pool operands moved up by `base`.
pub open spec fn relocated(c: ChunkView, base: nat) -> ChunkView {
    ChunkView { ops: ops_relocated(c.ops, base), pool: c.pool }
}

/// A sequence of instructions together with the constants they refer to.
#[derive(Debug)]
pub struct Chunk {
    instructions: Vec<OpCode>,
    constants: Vec<ThetaConstant>,
}

impl View for Chunk {
    type V = ChunkView;

    closed spec fn view(&self) -> ChunkView {
        ChunkView { ops: self.instructions@, pool: self.constants@ }
    }
}

/// The size of a sequence of instructions is the sum of the sizes of its parts.
pub proof fn lemma_code_size_concat(a: Seq<OpCode>, b: Seq<OpCode>)
    ensures
        code_size(a + b) == code_size(a) + code_size(b),
    decreases b.len(),
{
    if b.len() == 0 {
        assert(a + b =~= a);
    } else {
        assert((a + b).drop_last() =~= a + b.drop_last());
        lemma_code_size_concat(a, b.drop_last());
    }
}

/// Moving constant-pool operands never changes the size of the code.
pub proof fn lemma_code_size_relocated(ops: Seq<OpCode>, base: nat)
    ensures
        code_size(ops_relocated(ops, base)) == code_size(ops),
    decreases ops.len(),
{
    if ops.len() > 0 {
        assert(ops_relocated(ops, base).drop_last() =~= ops_relocated(ops.drop_last(), base));
        lemma_relocation_laws(ops.last(), base, 0);
        lemma_code_size_relocated(ops.drop_last(), base);
    }
}

/// Appending chunks: the code of the result is as long as the two codes together,
/// an empty chunk on either side changes nothing, and appending is associative.
pub proof fn lemma_merge_laws(a: ChunkView, b: ChunkView, c: ChunkView)
    ensures
        code_size(merged(a, b).ops) == code_size(a.ops) + code_size(b.ops),
        merged(a, ChunkView { ops: seq![], pool: seq![] }) == a,
        merged(ChunkView { ops: seq![], pool: seq![] }, a) == a,
        mergeable(a, b) && mergeable(merged(a, b), c) ==> mergeable(b, c) && mergeable(
            a,
            merged(b, c),
        ) && merged(merged(a, b), c) == merged(a, merged(b, c)),
{
    lemma_code_size_concat(a.ops, ops_relocated(b.ops, a.pool.len()));
    lemma_code_size_relocated(b.ops, a.pool.len());
    let e = ChunkView { ops: seq![], pool: seq![] };
    assert(merged(a, e).ops =~= a.ops);
    assert(merged(a, e).pool =~= a.pool);
    assert(merged(e, a).ops =~= a.ops) by {
        assert forall|i: int| 0 <= i < a.ops.len() implies merged(e, a).ops[i] == a.ops[i] by {
            lemma_relocation_laws(a.ops[i], 0, 0);
        }
    }
    assert(merged(e, a).pool =~= a.pool);
    if mergeable(a, b) && mergeable(merged(a, b), c) {
        let la = a.pool.len();
        let lb = b.pool.len();
        assert forall|i: int| 0 <= i < c.ops.len() implies op_relocatable(#[trigger] c.ops[i], lb)
            && op_relocatable(op_relocated(c.ops[i], lb), la) by {
            assert(op_relocatable(c.ops[i], lb + la));
            lemma_relocation_laws(c.ops[i], lb, la);
        }
        let bc = merged(b, c);
        assert forall|i: int| 0 <= i < bc.ops.len() implies op_relocatable(#[trigger] bc.ops[i], la) by {
            if i >= b.ops.len() {
                let j = i - b.ops.len();
                assert(bc.ops[i] == op_relocated(c.ops[j], lb));
            } else {
                assert(op_relocatable(b.ops[i], la));
            }
        }
        let lhs = merged(merged(a, b), c);
        let rhs = merged(a, bc);
        assert forall|i: int| 0 <= i < lhs.ops.len() implies lhs.ops[i] == rhs.ops[i] by {
            if i >= a.ops.len() + b.ops.len() {
                let j = i - a.ops.len() - b.ops.len();
                assert(op_relocatable(c.ops[j], la + lb));
                lemma_relocation_laws(c.ops[j], lb, la);
                assert((la + lb) as nat == (lb + la) as nat);
            }
        }
        assert(lhs.ops =~= rhs.ops);
        assert(lhs.pool =~= rhs.pool);
    }
}

impl Chunk {
    pub fn new() -> (r: Chunk)
        ensures
            r@.ops == Seq::<OpCode>::empty(),
            r@.pool == Seq::<ThetaConstant>::empty(),
    {
        Chunk { instructions: Vec::new(), constants: Vec::new() }
    }

    /// Builds a chunk from its instructions and constants.
    pub fn from_parts(instructions: Vec<OpCode>, constants: Vec<ThetaConstant>) -> (r: Chunk)
        ensures
            r@.ops == instructions@,
            r@.pool == constants@,
    {
        Chunk { instructions, constants }
    }

    /// Derives the size of the individual instructions inside the chunk.
    /// This can be used, for example, to derive jump information for if-statements and loops.
    pub fn instruction_size(&self) -> (r: usize)
        requires
            code_size(self@.ops) <= usize::MAX,
        ensures
            r == code_size(self@.ops),
    {
        let mut size: usize = 0;
        let mut i: usize = 0;
        while i < self.instructions.len()
            invariant
                0 <= i <= self.instructions@.len(),
                size == code_size(self.instructions@.subrange(0, i as int)),
                code_size(self.instructions@) <= usize::MAX,
            decreases self.instructions@.len() - i,
        {
            let ghost pre = self.instructions@.subrange(0, i as int);
            let ghost post = self.instructions@.subrange(0, i + 1);
            assert(post.drop_last() =~= pre);
            proof {
                let rest = self.instructions@.subrange(i + 1, self.instructions@.len() as int);
                assert(self.instructions@ =~= post + rest);
                lemma_code_size_concat(post, rest);
            }
            size = size + self.instructions[i].size();
            i = i + 1;
        }
        assert(self.instructions@.subrange(0, i as int) =~= self.instructions@);
        size
    }

    pub fn write_to_chunk(&mut self, instruction: OpCode)
        ensures
            final(self)@.ops == old(self)@.ops.push(instruction),
            final(self)@.pool == old(self)@.pool,
    {
        self.instructions.push(instruction);
    }

    pub fn instructions(&self) -> (r: &Vec<OpCode>)
        ensures
            r@ == self@.ops,
    {
        &self.instructions
    }

    pub fn write_constant(&mut self, constant: ThetaConstant)
        ensures
            final(self)@.pool == old(self)@.pool.push(constant),
            final(self)@.ops == old(self)@.ops,
    {
        self.constants.push(constant);
    }

    pub fn constants(&self) -> (r: &Vec<ThetaConstant>)
        ensures
            r@ == self@.pool,
    {
        &self.constants
    }

    /// Appends `other` to this chunk: its constants follow ours, and its
    /// instructions are moved to refer to them at their new places.
    pub fn merge_chunk(self, other: Chunk) -> (r: Chunk)
        requires
            mergeable(self@, other@),
        ensures
            r@ == merged(self@, other@),
    {
        let offset_size = self.constants.len();
        let mut constants = self.constants;
        let mut other_constants = other.constants;
        constants.append(&mut other_constants);
        let mut instructions = self.instructions;
        let ghost first = instructions@;
        let mut i: usize = 0;
        while i < other.instructions.len()
            invariant
                0 <= i <= other.instructions@.len(),
                offset_size == self@.pool.len(),
                ops_relocatable(other.instructions@, offset_size as nat),
                instructions@ == first + ops_relocated(other.instructions@, offset_size as nat).subrange(0, i as int),
            decreases other.instructions@.len() - i,
        {
            let op = other.instructions[i];
            assert(op_relocatable(other.instructions@[i as int], offset_size as nat));
            instructions.push(op.relocate_constants(offset_size));
            i = i + 1;
            assert(instructions@ =~= first + ops_relocated(other.instructions@, offset_size as nat).subrange(0, i as int));
        }
        assert(ops_relocated(other.instructions@, offset_size as nat).subrange(0, i as int) =~= ops_relocated(other.instructions@, offset_size as nat));
        Chunk { instructions, constants }
    }

    /// Whether every constant-pool operand can be moved up by `new_base`
    /// within a machine word: what `relocate` and, for the chunk appended,
    /// `merge_chunk` need.
    pub fn can_relocate(&self, new_base: usize) -> (r: bool)
        ensures
            r == ops_relocatable(self@.ops, new_base as nat),
    {
        let mut i: usize = 0;
        while i < self.instructions.len()
            invariant
                i <= self.instructions@.len(),
                forall|j: int| 0 <= j < i ==> op_relocatable(#[trigger] self.instructions@[j], new_base as nat),
            decreases self.instructions@.len() - i,
        {
            let ok = match self.instructions[i] {
                OpCode::Constant { offset } => offset <= usize::MAX - new_base,
                OpCode::DefineGlobal { offset } => offset <= usize::MAX - new_base,
                OpCode::GetGlobal { offset } => offset <= usize::MAX - new_base,
                _ => true,
            };
            if !ok {
                return false;
            }
            i = i + 1;
        }
        true
    }

    /// The chunk with every constant-pool operand moved up by `new_base`, for
    /// when its constants are placed after `new_base` others.
    pub fn relocate(self, new_base: usize) -> (r: Chunk)
        requires
            ops_relocatable(self@.ops, new_base as nat),
        ensures
            r@ == relocated(self@, new_base as nat),
    {
        let mut instructions: Vec<OpCode> = Vec::new();
        let mut i: usize = 0;
        while i < self.instructions.len()
            invariant
                0 <= i <= self.instructions@.len(),
                ops_relocatable(self.instructions@, new_base as nat),
                instructions@ == ops_relocated(self.instructions@, new_base as nat).subrange(0, i as int),
            decreases self.instructions@.len() - i,
        {
            let op = self.instructions[i];
            assert(op_relocatable(self.instructions@[i as int], new_base as nat));
            instructions.push(op.relocate_constants(new_base));
            i = i + 1;
            assert(instructions@ =~= ops_relocated(self.instructions@, new_base as nat).subrange(0, i as int));
        }
        assert(ops_relocated(self.instructions@, new_base as nat).subrange(0, i as int) =~= ops_relocated(self.instructions@, new_base as nat));
        Chunk { instructions, constants: self.constants }
    }
}

} // verus!
