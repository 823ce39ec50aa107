mod encoding;
mod instruction;

pub use self::encoding::{le_bytes, from_le_bytes, lemma_le_bytes_roundtrip, lemma_i64_bits_roundtrip, push_le_bytes, read_le_bytes};
pub use self::instruction::{OpCode, op_size, op_hexcode, op_description, op_relocatable, op_relocated, lemma_relocation_laws};
mod value;
pub use self::value::{CONSTANT_POOL_HEADER, DOUBLE_MARKER, INT_MARKER, BOOL_MARKER, STRING_MARKER, ThetaConstant, ConstantView, ThetaString, ThetaUserType, ThetaHeapValue, ThetaValue, ValView};
pub(crate) use self::value::share;
mod chunk;
pub use self::chunk::{CHUNK_HEADER, code_size, ops_relocatable, ops_relocated, ChunkView, mergeable, merged, relocated, Chunk, lemma_code_size_concat, lemma_code_size_relocated, lemma_merge_laws};
mod assembler;
pub use self::assembler::{ExIoError, AssembleError, constant_bytes, constants_bytes, views, pool_bytes, op_bytes, code_bytes, chunk_bytes, write_constant_bytes, write_pool_bytes, write_op_bytes, write_code_bytes, lemma_constants_bytes_push, chunks_bytes, chunk_views, BasicAssembler};
mod symbol;
pub use self::symbol::{Symbol, symbol_from, lemma_symbol_from_view};
mod file;
pub(crate) use self::file::bytes_match;
pub use self::file::{ExFromUtf8Error, WalkError, FileVisitError, decode_constant, decode_constants, decode_pool, writable, lemma_constant_roundtrip, lemma_constants_roundtrip, lemma_pool_roundtrip, read_constant, walk_constant_pool, read_constant_pool, reported, pool_readable, bitstream_readable, FUNCTION_POOL_HEADER, FUNCTION_HEADER, CompiledFnView, compiled_view, compiled_views, type_tag, holds_at, decode_chunk_code, decode_args, decode_function, decode_functions, decode_fn_pool, decode_bitstream, walk_chunk, read_chunk, read_function, walk_function_pool, read_function_pool, walk_bitstream, read_bitstream, ThetaFileWalker};
mod bitstream;
pub use self::bitstream::{BITSTREAM_HEADER, ThetaFuncArg, ThetaFunction, ThetaBitstream, function_relocated, ThetaCompiledFunction, ThetaCompiledBitstream};
mod disassembler;
pub use self::disassembler::{ListingLine, LineView, line_views, DisassembleError, list_constant, list_constants, list_op, list_ops, listing, Disassembler, StringDisassembler};
mod plaintext;
pub use self::plaintext::{jump_part, op_line, chunk_listing, chunks_listing, PlainTextAssembler};
