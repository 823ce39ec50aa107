use vstd::prelude::*;
use vstd::utf8::encode_utf8;
use super::chunk::{Chunk, ChunkView, CHUNK_HEADER};
use super::encoding::{le_bytes, push_le_bytes};
use super::instruction::OpCode;
use super::value::{ThetaConstant, ConstantView, CONSTANT_POOL_HEADER};

verus! {

/// `std::io::Error`, the error that writing assembled bytes out can end with.
#[verifier::external_type_specification]
#[verifier::external_body]
pub struct ExIoError(std::io::Error);

/// Why assembled bytes could not be written out.
#[derive(Debug)]
pub enum AssembleError {
    IOError(std::io::Error),
}

/// The bytes that stand for one constant in a constant pool: a two-byte marker,
/// then the value (eight little-endian bytes for numbers, one byte for a
/// boolean, and for a string its UTF-8 length as eight little-endian bytes
/// followed by its UTF-8 bytes).
pub open spec fn constant_bytes(c: ConstantView) -> Seq<u8> {
    match c {
        ConstantView::Double(d) => seq![0xFu8, 0xFu8] + le_bytes(d),
        ConstantView::Int(i) => seq![0xAu8, 0xAu8] + le_bytes(i as u64),
        ConstantView::Bool(b) => seq![0xBu8, 0xBu8, if b { 1u8 } else { 0u8 }],
        ConstantView::Str(s) => seq![0xCu8, 0xCu8] + le_bytes(encode_utf8(s).len() as u64)
            + encode_utf8(s),
    }
}

/// The bytes of the constants of a pool, one after the other.
pub open spec fn constants_bytes(cs: Seq<ConstantView>) -> Seq<u8>
    decreases cs.len(),
{
    if cs.len() == 0 {
        seq![]
    } else {
        constant_bytes(cs[0]) + constants_bytes(cs.drop_first())
    }
}

/// The views of a sequence of constants.
pub open spec fn views(cs: Seq<ThetaConstant>) -> Seq<ConstantView> {
    cs.map_values(|c: ThetaConstant| c@)
}

/// A constant pool: its header, a zero byte, the number of constants (modulo
/// 256), then the constants.
pub open spec fn pool_bytes(cs: Seq<ConstantView>) -> Seq<u8> {
    CONSTANT_POOL_HEADER@ + seq![0u8, (cs.len() % 256) as u8] + constants_bytes(cs)
}

/// The bytes of one instruction in assembled code: its identifying byte, then
/// its operand, if any (one byte for a pool or local index and for a local jump,
/// eight little-endian bytes for a frame size and for a far jump).
pub open spec fn op_bytes(op: OpCode) -> Seq<u8> {
    match op {
        OpCode::Return => seq![0u8],
        OpCode::Constant { offset } => seq![1u8, offset as u8],
        OpCode::Push { size } => seq![2u8] + le_bytes(size as u64),
        OpCode::Pop => seq![3u8],
        OpCode::Add => seq![4u8],
        OpCode::Subtract => seq![5u8],
        OpCode::Multiply => seq![6u8],
        OpCode::Divide => seq![7u8],
        OpCode::Negate => seq![8u8],
        OpCode::Equal => seq![9u8],
        OpCode::GreaterThan => seq![0xAu8],
        OpCode::LessThan => seq![0xBu8],
        OpCode::DefineGlobal { offset } => seq![0xC0u8, offset as u8],
        OpCode::GetGlobal { offset } => seq![0xC1u8, offset as u8],
        OpCode::DefineLocal { offset } => seq![0xC2u8, offset as u8],
        OpCode::GetLocal { offset } => seq![0xC3u8, offset as u8],
        OpCode::JumpLocal { offset } => seq![0xD0u8, offset as u8],
        OpCode::JumpLocalIfFalse { offset } => seq![0xD1u8, offset as u8],
        OpCode::JumpFar { offset } => seq![0xD2u8] + le_bytes(offset as u64),
        OpCode::JumpFarIfFalse { offset } => seq![0xD3u8] + le_bytes(offset as u64),
        OpCode::DebugPrint => seq![0xFFu8],
        OpCode::Noop => seq![0xFDu8],
    }
}

/// The bytes of a sequence of instructions, one after the other.
pub open spec fn code_bytes(ops: Seq<OpCode>) -> Seq<u8>
    decreases ops.len(),
{
    if ops.len() == 0 {
        seq![]
    } else {
        code_bytes(ops.drop_last()) + op_bytes(ops.last())
    }
}

/// An assembled chunk: its header, its constant pool, then its instructions.
pub open spec fn chunk_bytes(c: ChunkView) -> Seq<u8> {
    CHUNK_HEADER@ + pool_bytes(views(c.pool)) + code_bytes(c.ops)
}

/// Appends the bytes of one constant.
pub fn write_constant_bytes(out: &mut Vec<u8>, c: &ThetaConstant)
    ensures
        final(out)@ == old(out)@ + constant_bytes(c@),
{
    match c {
        ThetaConstant::Double(d) => {
            out.push(0xF);
            out.push(0xF);
            push_le_bytes(out, *d);
        },
        ThetaConstant::Int(i) => {
            out.push(0xA);
            out.push(0xA);
            push_le_bytes(out, *i as u64);
        },
        ThetaConstant::Bool(b) => {
            out.push(0xB);
            out.push(0xB);
            out.push(if *b { 1u8 } else { 0u8 });
        },
        ThetaConstant::Str(s) => {
            out.push(0xC);
            out.push(0xC);
            let bytes = s.as_str().as_bytes();
            push_le_bytes(out, bytes.len() as u64);
            let mut i: usize = 0;
            let ghost before = out@;
            while i < bytes.len()
                invariant
                    0 <= i <= bytes@.len(),
                    bytes@ == encode_utf8(s@),
                    out@ == before + bytes@.subrange(0, i as int),
                decreases bytes@.len() - i,
            {
                out.push(bytes[i]);
                i = i + 1;
                assert(out@ =~= before + bytes@.subrange(0, i as int));
            }
            assert(bytes@.subrange(0, i as int) =~= bytes@);
        },
    }
    assert(out@ =~= old(out)@ + constant_bytes(c@));
}

/// Appends a constant pool holding `constants`.
pub fn write_pool_bytes(out: &mut Vec<u8>, constants: &Vec<ThetaConstant>)
    ensures
        final(out)@ == old(out)@ + pool_bytes(views(constants@)),
{
    let mut k: usize = 0;
    while k < 8
        invariant
            0 <= k <= 8,
            out@ == old(out)@ + CONSTANT_POOL_HEADER@.subrange(0, k as int),
        decreases 8 - k,
    {
        out.push(CONSTANT_POOL_HEADER[k]);
        k = k + 1;
        assert(out@ =~= old(out)@ + CONSTANT_POOL_HEADER@.subrange(0, k as int));
    }
    assert(CONSTANT_POOL_HEADER@.subrange(0, 8) =~= CONSTANT_POOL_HEADER@);
    out.push(0u8);
    out.push((constants.len() % 256) as u8);
    let ghost start = out@;
    let mut i: usize = 0;
    while i < constants.len()
        invariant
            0 <= i <= constants@.len(),
            out@ == start + constants_bytes(views(constants@).subrange(0, i as int)),
        decreases constants@.len() - i,
    {
        write_constant_bytes(out, &constants[i]);
        proof {
            lemma_constants_bytes_push(views(constants@).subrange(0, i as int), constants@[i as int]@);
            assert(views(constants@).subrange(0, i + 1) =~= views(constants@).subrange(0, i as int).push(constants@[i as int]@));
        }
        i = i + 1;
    }
    assert(views(constants@).subrange(0, i as int) =~= views(constants@));
    assert(out@ =~= old(out)@ + pool_bytes(views(constants@)));
}

/// The bytes of constants followed by one more constant.
pub proof fn lemma_constants_bytes_push(cs: Seq<ConstantView>, c: ConstantView)
    ensures
        constants_bytes(cs.push(c)) == constants_bytes(cs) + constant_bytes(c),
    decreases cs.len(),
{
    if cs.len() == 0 {
        assert(cs.push(c).drop_first() =~= Seq::<ConstantView>::empty());
        assert(cs.push(c)[0] == c);
        assert(constants_bytes(Seq::<ConstantView>::empty()) == Seq::<u8>::empty());
        assert(constants_bytes(cs.push(c)) =~= constant_bytes(c));
    } else {
        assert(cs.push(c).drop_first() =~= cs.drop_first().push(c));
        lemma_constants_bytes_push(cs.drop_first(), c);
        assert(constants_bytes(cs.push(c)) =~= constants_bytes(cs) + constant_bytes(c));
    }
}

/// Appends the bytes of one instruction.
pub fn write_op_bytes(out: &mut Vec<u8>, op: OpCode)
    ensures
        final(out)@ == old(out)@ + op_bytes(op),
{
    match op {
        OpCode::Return => out.push(0u8),
        OpCode::Constant { offset } => {
            out.push(1u8);
            out.push(offset as u8);
        },
        OpCode::Push { size } => {
            out.push(2u8);
            push_le_bytes(out, size as u64);
        },
        OpCode::Pop => out.push(3u8),
        OpCode::Add => out.push(4u8),
        OpCode::Subtract => out.push(5u8),
        OpCode::Multiply => out.push(6u8),
        OpCode::Divide => out.push(7u8),
        OpCode::Negate => out.push(8u8),
        OpCode::Equal => out.push(9u8),
        OpCode::GreaterThan => out.push(0xAu8),
        OpCode::LessThan => out.push(0xBu8),
        OpCode::DefineGlobal { offset } => {
            out.push(0xC0u8);
            out.push(offset as u8);
        },
        OpCode::GetGlobal { offset } => {
            out.push(0xC1u8);
            out.push(offset as u8);
        },
        OpCode::DefineLocal { offset } => {
            out.push(0xC2u8);
            out.push(offset as u8);
        },
        OpCode::GetLocal { offset } => {
            out.push(0xC3u8);
            out.push(offset as u8);
        },
        OpCode::JumpLocal { offset } => {
            out.push(0xD0u8);
            out.push(offset as u8);
        },
        OpCode::JumpLocalIfFalse { offset } => {
            out.push(0xD1u8);
            out.push(offset as u8);
        },
        OpCode::JumpFar { offset } => {
            out.push(0xD2u8);
            push_le_bytes(out, offset as u64);
        },
        OpCode::JumpFarIfFalse { offset } => {
            out.push(0xD3u8);
            push_le_bytes(out, offset as u64);
        },
        OpCode::DebugPrint => out.push(0xFFu8),
        OpCode::Noop => out.push(0xFDu8),
    }
    assert(out@ =~= old(out)@ + op_bytes(op));
}

/// Appends the bytes of a sequence of instructions.
pub fn write_code_bytes(out: &mut Vec<u8>, ops: &Vec<OpCode>)
    ensures
        final(out)@ == old(out)@ + code_bytes(ops@),
{
    let mut i: usize = 0;
    while i < ops.len()
        invariant
            0 <= i <= ops@.len(),
            out@ == old(out)@ + code_bytes(ops@.subrange(0, i as int)),
        decreases ops@.len() - i,
    {
        write_op_bytes(out, ops[i]);
        assert(ops@.subrange(0, i + 1).drop_last() =~= ops@.subrange(0, i as int));
        i = i + 1;
        assert(out@ =~= old(out)@ + code_bytes(ops@.subrange(0, i as int)));
    }
    assert(ops@.subrange(0, i as int) =~= ops@);
}

/// The bytes of chunks assembled one after the other.
pub open spec fn chunks_bytes(cs: Seq<ChunkView>) -> Seq<u8>
    decreases cs.len(),
{
    if cs.len() == 0 {
        seq![]
    } else {
        chunks_bytes(cs.drop_last()) + chunk_bytes(cs.last())
    }
}

/// The views of a list of chunks.
pub open spec fn chunk_views(cs: Seq<Chunk>) -> Seq<ChunkView> {
    cs.map_values(|c: Chunk| c@)
}

/// An assembler that writes chunks in the binary format read by the machine's
/// file reader. Its output accumulates in a byte buffer that the caller writes out.
pub struct BasicAssembler {
    output_file: Vec<u8>,
}

impl View for BasicAssembler {
    type V = Seq<u8>;

    closed spec fn view(&self) -> Seq<u8> {
        self.output_file@
    }
}

impl BasicAssembler {
    /// An assembler whose output starts with `file_out`.
    pub fn new(file_out: Vec<u8>) -> (r: BasicAssembler)
        ensures
            r@ == file_out@,
    {
        BasicAssembler { output_file: file_out }
    }

    /// The bytes written so far.
    pub fn output(&self) -> (r: &Vec<u8>)
        ensures
            r@ == self@,
    {
        &self.output_file
    }

    /// The bytes written so far, handing the buffer back.
    pub fn into_output(self) -> (r: Vec<u8>)
        ensures
            r@ == self@,
    {
        self.output_file
    }

    /// Writes a chunk: its header, its constant pool, then its instructions.
    pub fn assemble_chunk(&mut self, chunk: Chunk)
        ensures
            final(self)@ == old(self)@ + chunk_bytes(chunk@),
    {
        let mut k: usize = 0;
        while k < 8
            invariant
                0 <= k <= 8,
                self.output_file@ == old(self)@ + CHUNK_HEADER@.subrange(0, k as int),
            decreases 8 - k,
        {
            self.output_file.push(CHUNK_HEADER[k]);
            k = k + 1;
            assert(self.output_file@ =~= old(self)@ + CHUNK_HEADER@.subrange(0, k as int));
        }
        assert(CHUNK_HEADER@.subrange(0, 8) =~= CHUNK_HEADER@);
        write_pool_bytes(&mut self.output_file, chunk.constants());
        write_code_bytes(&mut self.output_file, chunk.instructions());
        assert(self.output_file@ =~= old(self)@ + chunk_bytes(chunk@));
    }

    /// Writes chunks one after the other.
    pub fn assemble(&mut self, chunks: Vec<Chunk>)
        ensures
            final(self)@ == old(self)@ + chunks_bytes(chunk_views(chunks@)),
    {
        let ghost all = chunk_views(chunks@);
        let mut rest = chunks;
        let mut k: usize = 0;
        let n = rest.len();
        assert(chunk_views(rest@) =~= all.subrange(0, n as int));
        assert(all.subrange(0, 0) =~= Seq::<ChunkView>::empty());
        while rest.len() > 0
            invariant
                k + rest@.len() == n,
                all.len() == n,
                chunk_views(rest@) == all.subrange(k as int, n as int),
                self@ == old(self)@ + chunks_bytes(all.subrange(0, k as int)),
            decreases rest@.len(),
        {
            let ghost old_rest = rest@;
            assert(chunk_views(old_rest)[0] == all[k as int]);
            let chunk = rest.remove(0);
            assert(chunk == old_rest[0]);
            assert(chunk@ == all[k as int]);
            self.assemble_chunk(chunk);
            let ghost pre = all.subrange(0, k as int + 1);
            assert(pre.drop_last() =~= all.subrange(0, k as int));
            k = k + 1;
            assert(rest@ =~= old_rest.subrange(1, old_rest.len() as int));
            assert forall|i: int| 0 <= i < rest@.len() implies chunk_views(rest@)[i] == all.subrange(k as int, n as int)[i] by {
                assert(chunk_views(old_rest)[i + 1] == all[k - 1 + i + 1]);
            }
            assert(chunk_views(rest@) =~= all.subrange(k as int, n as int));
        }
        assert(all.subrange(0, n as int) =~= all);
    }
}


} // verus!
