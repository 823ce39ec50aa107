use std::collections::hash_map::DefaultHasher;
use std::hash::{Hash, Hasher};
use theta_lang::bytecode::{
    read_bitstream, read_chunk, read_constant_pool, read_function_pool, walk_bitstream, walk_chunk, walk_constant_pool, write_pool_bytes, BasicAssembler, Chunk, DisassembleError,
    Disassembler, FileVisitError, ListingLine, OpCode, PlainTextAssembler, StringDisassembler, ThetaBitstream,
    ThetaConstant, ThetaFileWalker, ThetaFuncArg, ThetaFunction, ThetaString, BITSTREAM_HEADER, CHUNK_HEADER,
    CONSTANT_POOL_HEADER, FUNCTION_HEADER, FUNCTION_POOL_HEADER,
};
use theta_lang::ast::transformers::typeck::TypeInformation;

fn text(l: &ListingLine) -> String {
    match l {
        ListingLine::Text(s) => s.clone(),
        _ => panic!("expected a line of text"),
    }
}

#[test]
fn chunk_size_counts_operand_bytes() {
    let mut c = Chunk::new();
    c.write_to_chunk(OpCode::Constant { offset: 0 });
    c.write_to_chunk(OpCode::Push { size: 2 });
    c.write_to_chunk(OpCode::Add);
    c.write_to_chunk(OpCode::JumpFar { offset: -3 });
    assert_eq!(c.instruction_size(), 2 + 9 + 1 + 9);
}

#[test]
fn merging_chunks_moves_constant_operands() {
    let a = Chunk::from_parts(vec![OpCode::Constant { offset: 0 }], vec![ThetaConstant::Int(1)]);
    let b = Chunk::from_parts(
        vec![OpCode::Constant { offset: 0 }, OpCode::DefineGlobal { offset: 1 }],
        vec![ThetaConstant::Int(2), ThetaConstant::Str(String::from("g"))],
    );
    let m = a.merge_chunk(b);
    assert_eq!(
        m.instructions().clone(),
        vec![OpCode::Constant { offset: 0 }, OpCode::Constant { offset: 1 }, OpCode::DefineGlobal { offset: 2 }]
    );
    assert_eq!(
        m.constants().clone(),
        vec![ThetaConstant::Int(1), ThetaConstant::Int(2), ThetaConstant::Str(String::from("g"))]
    );
}

#[test]
fn merging_with_an_empty_chunk_changes_nothing() {
    let a = Chunk::from_parts(vec![OpCode::Constant { offset: 0 }, OpCode::Pop], vec![ThetaConstant::Bool(true)]);
    let m = Chunk::new().merge_chunk(a);
    assert_eq!(m.instructions().clone(), vec![OpCode::Constant { offset: 0 }, OpCode::Pop]);
    assert_eq!(m.constants().clone(), vec![ThetaConstant::Bool(true)]);
}

#[test]
fn relocation_moves_only_constant_operands() {
    let c = Chunk::from_parts(
        vec![
            OpCode::Constant { offset: 1 },
            OpCode::GetGlobal { offset: 0 },
            OpCode::GetLocal { offset: 4 },
            OpCode::JumpLocal { offset: 2 },
        ],
        vec![],
    );
    let r = c.relocate(10);
    assert_eq!(
        r.instructions().clone(),
        vec![
            OpCode::Constant { offset: 11 },
            OpCode::GetGlobal { offset: 10 },
            OpCode::GetLocal { offset: 4 },
            OpCode::JumpLocal { offset: 2 },
        ]
    );
}

#[test]
fn opcode_descriptions_and_codes() {
    assert_eq!(OpCode::Add.human_readable(), "Add");
    assert_eq!(OpCode::Constant { offset: 10 }.human_readable(), "Constant with offset 0xA");
    assert_eq!(OpCode::DebugPrint.as_hexcode(), 0xFF);
    assert_eq!(OpCode::JumpFarIfFalse { offset: 1 }.as_hexcode(), 0xD3);
    assert_eq!(OpCode::Push { size: 1 }.size(), 9);
    assert_eq!(OpCode::Negate.size(), 1);
    assert_eq!(OpCode::DebugPrint.size(), 1);
    assert_eq!(OpCode::JumpFarIfFalse { offset: 5 }.size(), 9);
}

#[test]
fn assembled_chunk_bytes() {
    let c = Chunk::from_parts(
        vec![OpCode::Constant { offset: 0 }, OpCode::Return],
        vec![ThetaConstant::Int(5), ThetaConstant::Bool(true)],
    );
    let mut assembler = BasicAssembler::new(Vec::new());
    assembler.assemble_chunk(c);
    let mut want: Vec<u8> = Vec::new();
    want.extend_from_slice(&CHUNK_HEADER);
    want.extend_from_slice(&CONSTANT_POOL_HEADER);
    want.extend_from_slice(&[0, 2]);
    want.extend_from_slice(&[0xA, 0xA, 5, 0, 0, 0, 0, 0, 0, 0]);
    want.extend_from_slice(&[0xB, 0xB, 1]);
    want.extend_from_slice(&[1, 0, 0]);
    assert_eq!(assembler.into_output(), want);
}

#[test]
fn assembled_string_constant_and_jumps() {
    let c = Chunk::from_parts(
        vec![OpCode::JumpLocal { offset: -2 }, OpCode::JumpFar { offset: 300 }],
        vec![ThetaConstant::Str(String::from("hi"))],
    );
    let mut assembler = BasicAssembler::new(Vec::new());
    assembler.assemble(vec![c]);
    let out = assembler.output().clone();
    let pool = &out[16..];
    assert_eq!(&pool[..2], &[0, 1]);
    assert_eq!(&pool[2..14], &[0xC, 0xC, 2, 0, 0, 0, 0, 0, 0, 0, b'h', b'i']);
    assert_eq!(&pool[14..16], &[0xD0, 0xFE]);
    assert_eq!(&pool[16..], &[0xD2, 0x2C, 1, 0, 0, 0, 0, 0, 0]);
}

#[test]
fn string_disassembler_lists_a_chunk() {
    let c = Chunk::from_parts(
        vec![OpCode::Constant { offset: 0 }, OpCode::Return],
        vec![ThetaConstant::Int(5), ThetaConstant::Bool(true)],
    );
    let mut assembler = BasicAssembler::new(Vec::new());
    assembler.assemble_chunk(c);
    let bytes = assembler.into_output();
    let mut d = StringDisassembler::new();
    let lines = d.disassemble(&bytes).unwrap();
    let texts: Vec<String> = lines.iter().map(text).collect();
    assert_eq!(
        texts,
        vec![
            "=== BEGIN CHUNK ===\r\n",
            "-- BEGIN CONSTANT POOL --\r\n",
            "Constant: 5\r\n",
            "Constant: true\r\n",
            "Op: Constant (0x1) with offset: 0\r\n",
            "Op: Return (0x0)\r\n",
        ]
    );
}

#[test]
fn string_disassembler_lists_doubles_by_bits() {
    let c = Chunk::from_parts(vec![], vec![ThetaConstant::Double(2.5f64.to_bits())]);
    let mut assembler = BasicAssembler::new(Vec::new());
    assembler.assemble_chunk(c);
    let lines = StringDisassembler::new().disassemble_chunk(&assembler.into_output()).unwrap();
    assert_eq!(lines.len(), 3);
    assert!(matches!(lines[2], ListingLine::DoubleConstant(b) if b == 2.5f64.to_bits()));
}

#[test]
fn string_disassembler_refuses_a_bad_header() {
    let mut d = StringDisassembler::new();
    assert!(matches!(d.disassemble(&[0u8; 20]), Err(DisassembleError::InvalidHeader)));
    assert!(matches!(d.disassemble(&[1u8, 2, 3]), Err(DisassembleError::Truncated)));
}

#[test]
fn string_disassembler_reports_an_invalid_marker() {
    let mut bytes: Vec<u8> = Vec::new();
    bytes.extend_from_slice(&CHUNK_HEADER);
    bytes.extend_from_slice(&CONSTANT_POOL_HEADER);
    bytes.extend_from_slice(&[0, 1, 7, 9]);
    let r = StringDisassembler::new().disassemble(&bytes);
    match r {
        Err(e @ DisassembleError::InvalidMarkerInChunk(_)) => {
            assert_eq!(e.describe(), "invalid marker: [7, 9]");
        },
        _ => panic!("expected an invalid marker"),
    }
}

#[test]
fn plain_text_listing() {
    let c = Chunk::from_parts(vec![OpCode::Constant { offset: 0 }, OpCode::Add], vec![ThetaConstant::Int(1)]);
    let mut p = PlainTextAssembler::new();
    p.assemble(vec![c]);
    let lines = p.into_lines();
    assert_eq!(lines.len(), 7);
    assert_eq!(text(&lines[0]), "=== CHUNK BEGIN ===\n");
    assert_eq!(text(&lines[1]), "-- CONSTANT POOL --\n");
    assert!(matches!(&lines[2], ListingLine::ConstantDebug(ThetaConstant::Int(1))));
    assert_eq!(text(&lines[3]), "-- INSTRUCTIONS --\n");
    assert_eq!(text(&lines[4]), "0x0 | Op: Constant with offset 0x0 (0x1)\n");
    assert_eq!(text(&lines[5]), "0x2 | Op: Add (0x4)\n");
    assert_eq!(text(&lines[6]), "=== CHUNK END @ 0x3 ===\n");
}

#[test]
fn plain_text_listing_shows_jump_targets() {
    let c = Chunk::from_parts(vec![OpCode::Pop, OpCode::JumpLocal { offset: 4 }], vec![]);
    let mut p = PlainTextAssembler::new();
    p.assemble_chunk(&c);
    let lines = p.into_lines();
    assert_eq!(text(&lines[4]), "0x1 | Op: Jump (local) unconditional with offset 0x4 (0xD0) -> 0x5\n");
}

fn pool_of(constants: &Vec<ThetaConstant>) -> Vec<u8> {
    let mut out = Vec::new();
    write_pool_bytes(&mut out, constants);
    out
}

#[test]
fn constant_pool_round_trip() {
    let constants = vec![
        ThetaConstant::Int(-4),
        ThetaConstant::Double(0.5f64.to_bits()),
        ThetaConstant::Bool(false),
        ThetaConstant::Str(String::from("théta")),
    ];
    let bytes = pool_of(&constants);
    let (back, used) = walk_constant_pool(&bytes).unwrap();
    assert_eq!(back, constants);
    assert_eq!(used, bytes.len());
}

#[test]
fn constant_pool_errors() {
    assert!(matches!(read_constant_pool(&[1, 2, 3]), Err(FileVisitError::Truncated)));
    let mut wrong = CONSTANT_POOL_HEADER.to_vec();
    wrong[0] = b't';
    wrong.extend_from_slice(&[0, 0]);
    assert!(matches!(read_constant_pool(&wrong), Err(FileVisitError::InvalidHeader)));
    let mut bad = CONSTANT_POOL_HEADER.to_vec();
    bad.extend_from_slice(&[0, 1, 5, 5]);
    assert!(matches!(walk_constant_pool(&bad), Err(FileVisitError::InvalidMarkerInChunk(_))));
    let mut utf = CONSTANT_POOL_HEADER.to_vec();
    utf.extend_from_slice(&[0, 1, 0xC, 0xC, 1, 0, 0, 0, 0, 0, 0, 0, 0xFF]);
    match walk_constant_pool(&utf) {
        Err(e @ FileVisitError::Utf8Error(_)) => assert!(e.describe().starts_with("UTF-8 error: ")),
        _ => panic!("expected a UTF-8 error"),
    }
}

fn bitstream_bytes(constants: &Vec<ThetaConstant>, functions: &[u8], count: u8) -> Vec<u8> {
    let mut out = BITSTREAM_HEADER.to_vec();
    out.extend_from_slice(&pool_of(constants));
    out.extend_from_slice(&FUNCTION_POOL_HEADER);
    out.push(count);
    out.extend_from_slice(functions);
    out
}

#[test]
fn bitstream_with_constants_and_no_functions() {
    let constants = vec![ThetaConstant::Int(3), ThetaConstant::Str(String::from("x"))];
    let bytes = bitstream_bytes(&constants, &[], 0);
    let (cs, fs) = ThetaFileWalker::new().walk_theta_file(&bytes).unwrap();
    assert_eq!(cs, constants);
    assert!(fs.is_empty());
}

#[test]
fn bitstream_with_one_function() {
    let mut f = FUNCTION_HEADER.to_vec();
    f.extend_from_slice(&[1, 0, 0, 0, 0, 0, 0, 0]);
    f.push(b'f');
    f.extend_from_slice(&[1, 0, 0, 0, 0, 0, 0, 0]);
    f.push(2);
    f.push(1);
    f.extend_from_slice(&CHUNK_HEADER);
    f.extend_from_slice(&[3, 0, 0, 0, 0, 0, 0, 0]);
    f.extend_from_slice(&[0xAA, 0xBB, 0xCC]);
    let bytes = bitstream_bytes(&vec![], &f, 1);
    let (cs, fs) = walk_bitstream(&bytes).unwrap();
    assert!(cs.is_empty());
    assert_eq!(fs.len(), 1);
    assert_eq!(fs[0].name.as_string().as_str(), "f");
    assert_eq!(fs[0].args.len(), 1);
    assert!(matches!(fs[0].args[0].ty, TypeInformation::Int));
    assert!(matches!(fs[0].return_ty, TypeInformation::Boolean));
    assert_eq!(fs[0].chunk, vec![0, 0xAA, 0xBB]);
}

#[test]
fn bitstream_errors() {
    assert!(matches!(read_bitstream(&[0u8; 4]), Err(FileVisitError::Truncated)));
    assert!(matches!(read_bitstream(&[0u8; 12]), Err(FileVisitError::InvalidHeader)));
    let mut f = FUNCTION_HEADER.to_vec();
    f.extend_from_slice(&[0, 0, 0, 0, 0, 0, 0, 0]);
    f.extend_from_slice(&[0, 0, 0, 0, 0, 0, 0, 0]);
    f.push(9);
    let bytes = bitstream_bytes(&vec![], &f, 1);
    match read_bitstream(&bytes) {
        Err(e @ FileVisitError::UnknownTypeTag(9)) => assert_eq!(e.describe(), "unknown type tag: 9"),
        _ => panic!("expected an unknown type tag"),
    }
    let mut pool = FUNCTION_POOL_HEADER.to_vec();
    pool.push(1);
    pool.extend_from_slice(&f);
    assert!(matches!(read_function_pool(&pool), Err(FileVisitError::UnknownTypeTag(9))));
    let mut marker = BITSTREAM_HEADER.to_vec();
    marker.extend_from_slice(&CONSTANT_POOL_HEADER);
    marker.extend_from_slice(&[0, 1, 7, 7]);
    assert!(matches!(walk_bitstream(&marker), Err(FileVisitError::InvalidMarkerInChunk(_))));
}

#[test]
fn chunk_code_starts_at_fifteen() {
    let mut c = CHUNK_HEADER.to_vec();
    c.extend_from_slice(&[2, 0, 0, 0, 0, 0, 0, 0, 0x11, 0x22]);
    let (at, code) = walk_chunk(&c).unwrap();
    assert_eq!(at, 15);
    assert_eq!(code, vec![0, 0x11]);
    assert!(matches!(read_chunk(&[0u8; 9]), Err(FileVisitError::InvalidHeader)));
}

#[test]
fn bitstream_merge_moves_the_second_functions_constants() {
    let f = ThetaFunction {
        args: vec![ThetaFuncArg { ty: TypeInformation::Int }],
        chunk: Chunk::from_parts(vec![OpCode::Constant { offset: 0 }], vec![]),
        name: ThetaString::new(String::from("g")),
        return_ty: TypeInformation::Unit,
    };
    let a = ThetaBitstream::new_filled(vec![ThetaConstant::Int(1), ThetaConstant::Int(2)], vec![]);
    let b = ThetaBitstream::new_filled(vec![ThetaConstant::Bool(true)], vec![f]);
    let m = a.merge(b);
    assert_eq!(m.constants().len(), 3);
    assert_eq!(m.functions().len(), 1);
    assert_eq!(m.functions()[0].chunk.instructions().clone(), vec![OpCode::Constant { offset: 2 }]);
    assert_eq!(m.functions()[0].name.as_string().as_str(), "g");
}

#[test]
fn file_error_messages() {
    assert_eq!(FileVisitError::Truncated.describe(), "unexpected end of input");
    assert_eq!(FileVisitError::InvalidHeader.describe(), "invalid header");
    assert_eq!(FileVisitError::InvalidMarkerInChunk(vec![1, 2]).describe(), "invalid marker: [1, 2]");
    assert_eq!(
        DisassembleError::FileWalkError(FileVisitError::Truncated).describe(),
        "file walk error: unexpected end of input"
    );
}

#[test]
fn strings_are_equal_and_ordered_by_content() {
    let a = ThetaString::new(String::from("abc"));
    let b = ThetaString::new(String::from("abc"));
    let c = ThetaString::new(String::from("abd"));
    assert!(a == b);
    assert!(a != c);
    assert!(a < c);
    assert!(c > b);
    assert_eq!(a.partial_cmp(&b), Some(std::cmp::Ordering::Equal));
    let hash = |s: &ThetaString| {
        let mut h = DefaultHasher::new();
        s.hash(&mut h);
        h.finish()
    };
    assert_eq!(hash(&a), hash(&b));
}
