use vstd::prelude::*;
use vstd::utf8::{valid_utf8, decode_utf8, encode_utf8, encode_utf8_valid_utf8, encode_utf8_decode_utf8};
use super::assembler::{constant_bytes, constants_bytes, pool_bytes, views};
use super::encoding::{from_le_bytes, read_le_bytes, lemma_le_bytes_roundtrip, lemma_i64_bits_roundtrip};
use super::value::{ThetaConstant, ConstantView, ThetaString, CONSTANT_POOL_HEADER};
use super::chunk::CHUNK_HEADER;
use super::bitstream::{BITSTREAM_HEADER, ThetaFuncArg, ThetaCompiledFunction};
use crate::ast::transformers::typeck::TypeInformation;
use crate::text::{push_str, push_dec, dec_digits};

verus! {

/// `std::string::FromUtf8Error`, the error of decoding bytes that are not UTF-8.
#[verifier::external_type_specification]
#[verifier::external_body]
pub struct ExFromUtf8Error(std::string::FromUtf8Error);

/// `std::string::String::from_utf8`: the string whose UTF-8 encoding is `bytes`,
/// or an error when `bytes` is not valid UTF-8 (as its documentation states).
#[verifier::external_body]
fn string_from_utf8(bytes: Vec<u8>) -> (r: Result<String, std::string::FromUtf8Error>)
    ensures
        r is Ok <==> valid_utf8(bytes@),
        r matches Ok(s) ==> s@ == decode_utf8(bytes@),
{
    String::from_utf8(bytes)
}

/// Why bytes could not be read as a file of the machine.
pub enum WalkError {
    /// The bytes end before the item being read does.
    Truncated,
    /// A section does not start with its header.
    BadHeader,
    /// A constant starts with bytes that mark no kind of constant.
    InvalidMarker(u8, u8),
    /// A string constant is not valid UTF-8.
    BadUtf8,
    /// A type tag that stands for no type.
    UnknownType(u8),
}

/// An error found while reading a file of the machine.
#[derive(Debug)]
pub enum FileVisitError {
    Utf8Error(std::string::FromUtf8Error),
    InvalidMarkerInChunk(Vec<u8>),
    Truncated,
    InvalidHeader,
    UnknownTypeTag(u8),
}

/// `<std::string::FromUtf8Error as Display>::fmt`: the error's own message, which
/// tells where in the bytes decoding stopped. Nothing is stated of the text.
#[verifier::external_body]
fn utf8_error_text(e: &std::string::FromUtf8Error) -> String {
    format!("{}", e)
}

/// How an error of reading a file is written in messages; for a string that is
/// not UTF-8 this is the start of the message.
pub open spec fn walk_error_text(e: WalkError) -> Seq<char> {
    match e {
        WalkError::Truncated => "unexpected end of input"@,
        WalkError::BadHeader => "invalid header"@,
        WalkError::InvalidMarker(a, b) => "invalid marker: ["@ + dec_digits(a as nat) + ", "@ + dec_digits(b as nat)
            + "]"@,
        WalkError::BadUtf8 => "UTF-8 error: "@,
        WalkError::UnknownType(t) => "unknown type tag: "@ + dec_digits(t as nat),
    }
}

/// Appends how an error of kind `e` is written in messages to `out`, for every
/// kind but `BadUtf8`.
pub(crate) fn push_walk_error(out: &mut String, e: &FileVisitError)
    requires
        !(e.kind() is BadUtf8),
    ensures
        final(out)@ == old(out)@ + walk_error_text(e.kind()),
{
    match e {
        FileVisitError::Utf8Error(_) => {},
        FileVisitError::InvalidMarkerInChunk(m) => push_marker(out, m),
        FileVisitError::Truncated => push_str(out, "unexpected end of input"),
        FileVisitError::InvalidHeader => push_str(out, "invalid header"),
        FileVisitError::UnknownTypeTag(t) => {
            push_str(out, "unknown type tag: ");
            push_dec(out, *t as u64);
        },
    }
}

/// Appends the message of an invalid marker `m` (a missing byte counts as zero).
pub(crate) fn push_marker(out: &mut String, m: &Vec<u8>)
    ensures
        final(out)@ == old(out)@ + "invalid marker: ["@ + dec_digits((if m@.len() > 0 { m@[0] } else { 0 }) as nat)
            + ", "@ + dec_digits((if m@.len() > 1 { m@[1] } else { 0 }) as nat) + "]"@,
{
    let a: u8 = if m.len() > 0 { m[0] } else { 0 };
    let b: u8 = if m.len() > 1 { m[1] } else { 0 };
    push_str(out, "invalid marker: [");
    push_dec(out, a as u64);
    push_str(out, ", ");
    push_dec(out, b as u64);
    push_str(out, "]");
}

impl FileVisitError {
    /// The error as messages write it: as `walk_error_text` says, and for a
    /// string that is not UTF-8, that text followed by the decoder's own message.
    pub fn describe(&self) -> (r: String)
        ensures
            !(self.kind() is BadUtf8) ==> r@ == walk_error_text(self.kind()),
            self.kind() is BadUtf8 ==> r@.len() >= 13 && r@.subrange(0, 13) == walk_error_text(self.kind()),
    {
        let mut out = String::new();
        match self {
            FileVisitError::Utf8Error(e) => {
                push_str(&mut out, "UTF-8 error: ");
                let t = utf8_error_text(e);
                push_str(&mut out, t.as_str());
                proof {
                    reveal_strlit("UTF-8 error: ");
                }
                assert(out@.subrange(0, 13) =~= "UTF-8 error: "@);
            },
            _ => {
                push_walk_error(&mut out, self);
                assert(out@ =~= walk_error_text(self.kind()));
            },
        }
        out
    }
}

impl FileVisitError {
    /// What kind of error this is.
    pub open spec fn kind(&self) -> WalkError {
        match self {
            FileVisitError::Utf8Error(_) => WalkError::BadUtf8,
            FileVisitError::InvalidMarkerInChunk(m) => WalkError::InvalidMarker(
                if m@.len() > 0 { m@[0] } else { 0 },
                if m@.len() > 1 { m@[1] } else { 0 },
            ),
            FileVisitError::Truncated => WalkError::Truncated,
            FileVisitError::InvalidHeader => WalkError::BadHeader,
            FileVisitError::UnknownTypeTag(t) => WalkError::UnknownType(*t),
        }
    }
}

/// Reads the constant at the start of `b`: the constant and how many bytes it takes.
pub open spec fn decode_constant(b: Seq<u8>) -> Result<(ConstantView, nat), WalkError> {
    if b.len() < 2 {
        Err(WalkError::Truncated)
    } else if b[0] == 0xF && b[1] == 0xF {
        if b.len() < 10 {
            Err(WalkError::Truncated)
        } else {
            Ok((ConstantView::Double(from_le_bytes(b.subrange(2, 10))), 10))
        }
    } else if b[0] == 0xA && b[1] == 0xA {
        if b.len() < 10 {
            Err(WalkError::Truncated)
        } else {
            Ok((ConstantView::Int(from_le_bytes(b.subrange(2, 10)) as i64), 10))
        }
    } else if b[0] == 0xB && b[1] == 0xB {
        if b.len() < 3 {
            Err(WalkError::Truncated)
        } else {
            Ok((ConstantView::Bool(b[2] == 1), 3))
        }
    } else if b[0] == 0xC && b[1] == 0xC {
        if b.len() < 10 {
            Err(WalkError::Truncated)
        } else {
            let n = from_le_bytes(b.subrange(2, 10)) as nat;
            if b.len() < 10 + n {
                Err(WalkError::Truncated)
            } else if !valid_utf8(b.subrange(10, 10 + n as int)) {
                Err(WalkError::BadUtf8)
            } else {
                Ok((ConstantView::Str(decode_utf8(b.subrange(10, 10 + n as int))), 10 + n))
            }
        }
    } else {
        Err(WalkError::InvalidMarker(b[0], b[1]))
    }
}

/// Reads `count` constants from the start of `b`: the constants and how many bytes they take.
pub open spec fn decode_constants(b: Seq<u8>, count: nat) -> Result<(Seq<ConstantView>, nat), WalkError>
    decreases count,
{
    if count == 0 {
        Ok((seq![], 0))
    } else {
        match decode_constant(b) {
            Ok((c, n)) => match decode_constants(b.skip(n as int), (count - 1) as nat) {
                Ok((cs, m)) => Ok((seq![c] + cs, n + m)),
                Err(e) => Err(e),
            },
            Err(e) => Err(e),
        }
    }
}

/// Reads the constant pool at the start of `b`: after the header, the byte at
/// index 9 gives the number of constants, which start at index 10.
pub open spec fn decode_pool(b: Seq<u8>) -> Result<(Seq<ConstantView>, nat), WalkError> {
    if b.len() < 8 {
        Err(WalkError::Truncated)
    } else if b.subrange(0, 8) != CONSTANT_POOL_HEADER@ {
        Err(WalkError::BadHeader)
    } else if b.len() < 10 {
        Err(WalkError::Truncated)
    } else {
        match decode_constants(b.skip(10), b[9] as nat) {
            Ok((cs, n)) => Ok((cs, 10 + n)),
            Err(e) => Err(e),
        }
    }
}

/// Whether a constant can be written in the pool format: the UTF-8 length of a
/// string must fit the eight bytes it is written in.
pub open spec fn writable(c: ConstantView) -> bool {
    c matches ConstantView::Str(s) ==> encode_utf8(s).len() < 0x1_0000_0000_0000_0000
}

/// Reading a written constant gives it back, whatever follows it.
pub proof fn lemma_constant_roundtrip(c: ConstantView, rest: Seq<u8>)
    requires
        writable(c),
    ensures
        decode_constant(constant_bytes(c) + rest) == Ok::<(ConstantView, nat), WalkError>(
            (c, constant_bytes(c).len()),
        ),
{
    let b = constant_bytes(c) + rest;
    match c {
        ConstantView::Double(d) => {
            lemma_le_bytes_roundtrip(d);
            assert(b.subrange(2, 10) =~= super::encoding::le_bytes(d));
        },
        ConstantView::Int(i) => {
            lemma_le_bytes_roundtrip(i as u64);
            lemma_i64_bits_roundtrip(i);
            assert(b.subrange(2, 10) =~= super::encoding::le_bytes(i as u64));
        },
        ConstantView::Bool(x) => {},
        ConstantView::Str(s) => {
            let e = encode_utf8(s);
            lemma_le_bytes_roundtrip(e.len() as u64);
            assert(b.subrange(2, 10) =~= super::encoding::le_bytes(e.len() as u64));
            assert(b.subrange(10, 10 + e.len() as int) =~= e);
            encode_utf8_valid_utf8(s);
            encode_utf8_decode_utf8(s);
        },
    }
}

/// Reading written constants gives them back, whatever follows them.
pub proof fn lemma_constants_roundtrip(cs: Seq<ConstantView>, rest: Seq<u8>)
    requires
        forall|i: int| 0 <= i < cs.len() ==> writable(#[trigger] cs[i]),
    ensures
        decode_constants(constants_bytes(cs) + rest, cs.len()) == Ok::<(Seq<ConstantView>, nat), WalkError>(
            (cs, constants_bytes(cs).len()),
        ),
    decreases cs.len(),
{
    if cs.len() > 0 {
        let first = constant_bytes(cs[0]);
        let tail = constants_bytes(cs.drop_first());
        assert(constants_bytes(cs) + rest =~= first + (tail + rest));
        assert(writable(cs[0]));
        lemma_constant_roundtrip(cs[0], tail + rest);
        assert((constants_bytes(cs) + rest).skip(first.len() as int) =~= tail + rest);
        assert forall|i: int| 0 <= i < cs.drop_first().len() implies writable(#[trigger] cs.drop_first()[i]) by {
            assert(cs.drop_first()[i] == cs[i + 1]);
        }
        lemma_constants_roundtrip(cs.drop_first(), rest);
        assert(seq![cs[0]] + cs.drop_first() =~= cs);
        assert((cs.len() - 1) as nat == cs.drop_first().len());
        assert(constants_bytes(cs).len() == first.len() + tail.len());
        assert(decode_constant(constants_bytes(cs) + rest) == Ok::<(ConstantView, nat), WalkError>((cs[0], first.len())));
        assert(decode_constants((constants_bytes(cs) + rest).skip(first.len() as int), cs.drop_first().len()) == Ok::<(Seq<ConstantView>, nat), WalkError>((cs.drop_first(), tail.len())));
        let b = constants_bytes(cs) + rest;
        let r = decode_constants(b, cs.len());
        assert(r == Ok::<(Seq<ConstantView>, nat), WalkError>((seq![cs[0]] + cs.drop_first(), first.len() + tail.len())));
    } else {
        assert(cs =~= Seq::<ConstantView>::empty());
    }
}

/// Reading a written constant pool gives back its constants, whatever follows it,
/// when there are fewer than 256 of them.
pub proof fn lemma_pool_roundtrip(cs: Seq<ConstantView>, rest: Seq<u8>)
    requires
        cs.len() < 256,
        forall|i: int| 0 <= i < cs.len() ==> writable(#[trigger] cs[i]),
    ensures
        decode_pool(pool_bytes(cs) + rest) == Ok::<(Seq<ConstantView>, nat), WalkError>(
            (cs, pool_bytes(cs).len()),
        ),
{
    let b = pool_bytes(cs) + rest;
    assert(b.subrange(0, 8) =~= CONSTANT_POOL_HEADER@);
    assert(b[9] == (cs.len() % 256) as u8);
    assert(b.skip(10) =~= constants_bytes(cs) + rest);
    lemma_constants_roundtrip(cs, rest);
}

/// Reads the constant that starts at `at` in `b`.
pub fn read_constant(b: &[u8], at: usize) -> (r: Result<(ThetaConstant, usize), FileVisitError>)
    requires
        at <= b@.len(),
    ensures
        match r {
            Ok((c, n)) => decode_constant(b@.skip(at as int)) == Ok::<(ConstantView, nat), WalkError>((c@, n as nat)),
            Err(e) => decode_constant(b@.skip(at as int)) == Err::<(ConstantView, nat), WalkError>(e.kind()),
        },
{
    let ghost s = b@.skip(at as int);
    let avail = b.len() - at;
    if avail < 2 {
        return Err(FileVisitError::Truncated);
    }
    let m0 = b[at];
    let m1 = b[at + 1];
    assert(s[0] == m0 && s[1] == m1);
    if m0 == 0xF && m1 == 0xF {
        if avail < 10 {
            return Err(FileVisitError::Truncated);
        }
        let d = read_le_bytes(b, at + 2);
        assert(b@.subrange(at + 2, at + 10) =~= s.subrange(2, 10));
        Ok((ThetaConstant::Double(d), 10))
    } else if m0 == 0xA && m1 == 0xA {
        if avail < 10 {
            return Err(FileVisitError::Truncated);
        }
        let i = read_le_bytes(b, at + 2);
        assert(b@.subrange(at + 2, at + 10) =~= s.subrange(2, 10));
        Ok((ThetaConstant::Int(i as i64), 10))
    } else if m0 == 0xB && m1 == 0xB {
        if avail < 3 {
            return Err(FileVisitError::Truncated);
        }
        assert(s[2] == b[at + 2]);
        Ok((ThetaConstant::Bool(b[at + 2] == 1), 3))
    } else if m0 == 0xC && m1 == 0xC {
        if avail < 10 {
            return Err(FileVisitError::Truncated);
        }
        let n = read_le_bytes(b, at + 2);
        assert(b@.subrange(at + 2, at + 10) =~= s.subrange(2, 10));
        if n > (avail - 10) as u64 {
            return Err(FileVisitError::Truncated);
        }
        let len = n as usize;
        let base = at + 10;
        let mut bytes: Vec<u8> = Vec::new();
        let mut i: usize = 0;
        while i < len
            invariant
                0 <= i <= len,
                base == at + 10,
                base + len <= b@.len(),
                b@.len() <= usize::MAX,
                bytes@ == b@.subrange(at + 10, at + 10 + i),
            decreases len - i,
        {
            bytes.push(b[base + i]);
            i = i + 1;
            assert(bytes@ =~= b@.subrange(at + 10, at + 10 + i));
        }
        assert(bytes@ =~= s.subrange(10, 10 + len));
        match string_from_utf8(bytes) {
            Ok(st) => Ok((ThetaConstant::Str(st), 10 + len)),
            Err(e) => Err(FileVisitError::Utf8Error(e)),
        }
    } else {
        let mut marker: Vec<u8> = Vec::new();
        marker.push(m0);
        marker.push(m1);
        Err(FileVisitError::InvalidMarkerInChunk(marker))
    }
}

/// The errors that reading a constant pool reports: a constant whose marker
/// names no kind of constant, and a string constant that is not UTF-8. Any other
/// fault of the bytes (a wrong header, bytes that end early, a bad function
/// record) is one that reading does not admit.
pub open spec fn reported(e: WalkError) -> bool {
    e is InvalidMarker || e is BadUtf8
}

/// Whether `b` can be read as a constant pool, up to the errors that are reported.
pub open spec fn pool_readable(b: Seq<u8>) -> bool {
    match decode_pool(b) {
        Ok(_) => true,
        Err(e) => reported(e),
    }
}

/// Whether `b` can be read as a bitstream, up to the errors that its constant
/// pool reports: it starts with the bitstream header, and its function pool,
/// where it is reached, is read without error.
pub open spec fn bitstream_readable(b: Seq<u8>) -> bool {
    &&& b.len() >= 8
    &&& b.subrange(0, 8) == BITSTREAM_HEADER@
    &&& match decode_pool(b.skip(8)) {
        Err(e) => reported(e),
        Ok((_, n)) => decode_fn_pool(b.skip((8 + n) as int)) is Ok,
    }
}

/// Reads the constant pool at the start of `constant_pool`: its constants and
/// the offset of the first byte after it, or the error `reported` names.
pub fn walk_constant_pool(constant_pool: &[u8]) -> (r: Result<(Vec<ThetaConstant>, usize), FileVisitError>)
    requires
        pool_readable(constant_pool@),
    ensures
        match r {
            Ok((cs, n)) => decode_pool(constant_pool@) == Ok::<(Seq<ConstantView>, nat), WalkError>((views(cs@), n as nat))
                && n <= constant_pool@.len(),
            Err(e) => decode_pool(constant_pool@) == Err::<(Seq<ConstantView>, nat), WalkError>(e.kind())
                && reported(e.kind()),
        },
{
    read_constant_pool(constant_pool)
}

/// Checks and reads the constant pool at the start of `constant_pool`, as
/// `decode_pool` says: bytes that are no constant pool are answered with the
/// error that names the fault (`InvalidHeader`, `Truncated`, an unknown marker,
/// a string that is not UTF-8).
pub fn read_constant_pool(constant_pool: &[u8]) -> (r: Result<(Vec<ThetaConstant>, usize), FileVisitError>)
    ensures
        match r {
            Ok((cs, n)) => decode_pool(constant_pool@) == Ok::<(Seq<ConstantView>, nat), WalkError>((views(cs@), n as nat))
                && n <= constant_pool@.len(),
            Err(e) => decode_pool(constant_pool@) == Err::<(Seq<ConstantView>, nat), WalkError>(e.kind()),
        },
{
    if constant_pool.len() < 8 {
        return Err(FileVisitError::Truncated);
    }
    let mut k: usize = 0;
    while k < 8
        invariant
            0 <= k <= 8,
            8 <= constant_pool@.len(),
            constant_pool@.subrange(0, k as int) == CONSTANT_POOL_HEADER@.subrange(0, k as int),
        decreases 8 - k,
    {
        if constant_pool[k] != CONSTANT_POOL_HEADER[k] {
            assert(constant_pool@.subrange(0, 8)[k as int] == constant_pool@[k as int]);
            assert(constant_pool@.subrange(0, 8) != CONSTANT_POOL_HEADER@);
            assert(decode_pool(constant_pool@) == Err::<(Seq<ConstantView>, nat), WalkError>(WalkError::BadHeader));
            assert(FileVisitError::InvalidHeader.kind() == WalkError::BadHeader);
            return Err(FileVisitError::InvalidHeader);
        }
        k = k + 1;
        assert(constant_pool@.subrange(0, k as int) =~= CONSTANT_POOL_HEADER@.subrange(0, k as int));
    }
    assert(CONSTANT_POOL_HEADER@.subrange(0, 8) =~= CONSTANT_POOL_HEADER@);
    if constant_pool.len() < 10 {
        return Err(FileVisitError::Truncated);
    }
    let count = constant_pool[9] as usize;
    let mut constants: Vec<ThetaConstant> = Vec::new();
    let mut offset: usize = 10;
    let mut done: usize = 0;
    while done < count
        invariant
            0 <= done <= count,
            count == constant_pool@[9] as nat,
            10 <= offset <= constant_pool@.len(),
            constant_pool@.len() <= usize::MAX,
            constant_pool@.len() >= 10,
            constant_pool@.subrange(0, 8) == CONSTANT_POOL_HEADER@,
            decode_constants(constant_pool@.skip(10), count as nat) == (match decode_constants(constant_pool@.skip(offset as int), (count - done) as nat) {
                Ok((cs, m)) => Ok::<(Seq<ConstantView>, nat), WalkError>((views(constants@) + cs, ((offset - 10) + m) as nat)),
                Err(e) => Err(e),
            }),
        decreases count - done,
    {
        let ghost rem = (count - done) as nat;
        let ghost tail = constant_pool@.skip(offset as int);
        match read_constant(constant_pool, offset) {
            Ok((c, n)) => {
                proof {
                    assert(decode_constant(tail) == Ok::<(ConstantView, nat), WalkError>((c@, n as nat)));
                    assert(n <= tail.len());
                    assert(tail.skip(n as int) =~= constant_pool@.skip(offset + n));
                }
                let ghost old_views = views(constants@);
                constants.push(c);
                assert(views(constants@) =~= old_views.push(c@));
                proof {
                    match decode_constants(constant_pool@.skip(offset + n), (rem - 1) as nat) {
                        Ok((cs, m)) => {
                            assert(old_views + (seq![c@] + cs) =~= views(constants@) + cs);
                        },
                        Err(e) => {},
                    }
                }
                offset = offset + n;
                done = done + 1;
            },
            Err(e) => {
                assert(rem > 0);
                assert(decode_constants(tail, rem) == Err::<(Seq<ConstantView>, nat), WalkError>(e.kind()));
                assert(decode_constants(constant_pool@.skip(10), count as nat) == Err::<(Seq<ConstantView>, nat), WalkError>(e.kind()));
                assert(decode_pool(constant_pool@) == Err::<(Seq<ConstantView>, nat), WalkError>(e.kind()));
                return Err(e);
            },
        }
    }
    assert(views(constants@) + seq![] =~= views(constants@));
    Ok((constants, offset))
}


broadcast use vstd::array::axiom_spec_array_as_slice;

/// "TheFuncs": the header of a function pool.
pub const FUNCTION_POOL_HEADER: [u8; 8] = [84, 104, 101, 70, 117, 110, 99, 115];

/// "Func": the header of one function in a function pool.
pub const FUNCTION_HEADER: [u8; 4] = [70, 117, 110, 99];

/// A function read from a file, seen mathematically.
pub struct CompiledFnView {
    pub args: Seq<TypeInformation>,
    pub chunk: Seq<u8>,
    pub name: Seq<char>,
    pub return_ty: TypeInformation,
}

/// The view of a function read from a file.
pub open spec fn compiled_view(f: ThetaCompiledFunction) -> CompiledFnView {
    CompiledFnView {
        args: f.args@.map_values(|a: ThetaFuncArg| a.ty),
        chunk: f.chunk@,
        name: f.name@,
        return_ty: f.return_ty,
    }
}

/// The type a type tag stands for.
pub open spec fn type_tag(t: u8) -> Option<TypeInformation> {
    if t == 0 {
        Some(TypeInformation::Unit)
    } else if t == 1 {
        Some(TypeInformation::Boolean)
    } else if t == 2 {
        Some(TypeInformation::Int)
    } else if t == 3 {
        Some(TypeInformation::Float)
    } else if t == 4 {
        Some(TypeInformation::String)
    } else {
        None
    }
}

/// Whether `b` holds `h` from `at` on.
pub open spec fn holds_at(b: Seq<u8>, at: nat, h: Seq<u8>) -> bool {
    at + h.len() <= b.len() && b.subrange(at as int, (at + h.len()) as int) == h
}

/// Reads a chunk: after its header, eight bytes give the size of its code,
/// which is read from index 15 on; gives the index the code starts at, and the code.
pub open spec fn decode_chunk_code(b: Seq<u8>) -> Result<(nat, Seq<u8>), WalkError> {
    if b.len() < 8 {
        Err(WalkError::Truncated)
    } else if b.subrange(0, 8) != CHUNK_HEADER@ {
        Err(WalkError::BadHeader)
    } else if b.len() < 16 {
        Err(WalkError::Truncated)
    } else {
        let size = from_le_bytes(b.subrange(8, 16)) as nat;
        if b.len() < 15 + size {
            Err(WalkError::Truncated)
        } else {
            Ok((15, b.subrange(15, (15 + size) as int)))
        }
    }
}

/// Reads `count` type tags from index `at` of `b`: the types and the index after them.
pub open spec fn decode_args(b: Seq<u8>, at: nat, count: nat) -> Result<(Seq<TypeInformation>, nat), WalkError>
    decreases count,
{
    if count == 0 {
        Ok((seq![], at))
    } else if at >= b.len() {
        Err(WalkError::Truncated)
    } else {
        match type_tag(b[at as int]) {
            None => Err(WalkError::UnknownType(b[at as int])),
            Some(t) => match decode_args(b, at + 1, (count - 1) as nat) {
                Err(e) => Err(e),
                Ok((ts, end)) => Ok((seq![t] + ts, end)),
            },
        }
    }
}

/// Reads the function at index `at` of a function pool `b`: its header, the
/// length and bytes of its name, its arity and argument types, its return
/// type and its chunk; gives the function and the index the chunk's code
/// starts at within the chunk, from which the next function is read.
pub open spec fn decode_function(b: Seq<u8>, at: nat) -> Result<(CompiledFnView, nat), WalkError> {
    if b.len() < at + 4 {
        Err(WalkError::Truncated)
    } else if !holds_at(b, at, FUNCTION_HEADER@) {
        Err(WalkError::BadHeader)
    } else if b.len() < at + 12 {
        Err(WalkError::Truncated)
    } else {
        let size = from_le_bytes(b.subrange((at + 4) as int, (at + 12) as int)) as nat;
        let o = at + 12;
        if b.len() < o + size {
            Err(WalkError::Truncated)
        } else if !valid_utf8(b.subrange(o as int, (o + size) as int)) {
            Err(WalkError::BadUtf8)
        } else {
            let name = decode_utf8(b.subrange(o as int, (o + size) as int));
            let o2 = o + size;
            if b.len() < o2 + 8 {
                Err(WalkError::Truncated)
            } else {
                let arity = from_le_bytes(b.subrange(o2 as int, (o2 + 8) as int)) as nat;
                match decode_args(b, o2 + 8, arity) {
                    Err(e) => Err(e),
                    Ok((args, o3)) => if o3 >= b.len() {
                        Err(WalkError::Truncated)
                    } else {
                        match type_tag(b[o3 as int]) {
                            None => Err(WalkError::UnknownType(b[o3 as int])),
                            Some(ret) => match decode_chunk_code(b.skip((o3 + 1) as int)) {
                                Err(e) => Err(e),
                                Ok((next, code)) => Ok(
                                    (CompiledFnView { args, chunk: code, name, return_ty: ret }, next),
                                ),
                            },
                        }
                    },
                }
            }
        }
    }
}

/// Reads `count` functions from index `at` of a function pool `b`.
pub open spec fn decode_functions(b: Seq<u8>, at: nat, count: nat) -> Result<(Seq<CompiledFnView>, nat), WalkError>
    decreases count,
{
    if count == 0 {
        Ok((seq![], at))
    } else {
        match decode_function(b, at) {
            Err(e) => Err(e),
            Ok((f, next)) => match decode_functions(b, next, (count - 1) as nat) {
                Err(e) => Err(e),
                Ok((fs, end)) => Ok((seq![f] + fs, end)),
            },
        }
    }
}

/// Reads a function pool: after its header, the byte at index 8 gives the
/// number of functions, which start at index 9.
pub open spec fn decode_fn_pool(b: Seq<u8>) -> Result<(Seq<CompiledFnView>, nat), WalkError> {
    if b.len() < 8 {
        Err(WalkError::Truncated)
    } else if b.subrange(0, 8) != FUNCTION_POOL_HEADER@ {
        Err(WalkError::BadHeader)
    } else if b.len() < 9 {
        Err(WalkError::Truncated)
    } else {
        decode_functions(b, 9, b[8] as nat)
    }
}

/// Whether `b` holds `h` from `at` on.
pub(crate) fn bytes_match(b: &[u8], at: usize, h: &[u8]) -> (r: bool)
    ensures
        r == holds_at(b@, at as nat, h@),
{
    if at > b.len() || h.len() > b.len() - at {
        return false;
    }
    let mut k: usize = 0;
    while k < h.len()
        invariant
            k <= h@.len(),
            at + h@.len() <= b@.len(),
            b@.len() <= usize::MAX,
            b@.subrange(at as int, at + k) == h@.subrange(0, k as int),
        decreases h@.len() - k,
    {
        if b[at + k] != h[k] {
            assert(b@.subrange(at as int, at + h@.len())[k as int] != h@[k as int]);
            return false;
        }
        k = k + 1;
        assert(b@.subrange(at as int, at + k) =~= h@.subrange(0, k as int));
    }
    assert(h@.subrange(0, h@.len() as int) =~= h@);
    true
}

/// The error of a kind, for the walker's results.
fn walk_err<A>(e: FileVisitError) -> (r: Result<A, FileVisitError>)
    ensures
        r == Err::<A, FileVisitError>(e),
{
    Err(e)
}

/// The type a type tag stands for.
fn read_type_tag(t: u8) -> (r: Result<TypeInformation, FileVisitError>)
    ensures
        match r {
            Ok(ty) => type_tag(t) == Some(ty),
            Err(e) => type_tag(t) is None && e.kind() == WalkError::UnknownType(t),
        },
{
    if t == 0 {
        Ok(TypeInformation::Unit)
    } else if t == 1 {
        Ok(TypeInformation::Boolean)
    } else if t == 2 {
        Ok(TypeInformation::Int)
    } else if t == 3 {
        Ok(TypeInformation::Float)
    } else if t == 4 {
        Ok(TypeInformation::String)
    } else {
        Err(FileVisitError::UnknownTypeTag(t))
    }
}

/// Reads a chunk that `decode_chunk_code` reads without error: the index its
/// code starts at, and its code.
pub fn walk_chunk(chunk: &[u8]) -> (r: Result<(usize, Vec<u8>), FileVisitError>)
    requires
        decode_chunk_code(chunk@) is Ok,
    ensures
        r matches Ok((off, code)) && decode_chunk_code(chunk@) == Ok::<(nat, Seq<u8>), WalkError>((off as nat, code@)),
{
    read_chunk(chunk)
}

/// Checks and reads a chunk, as `decode_chunk_code` says: bytes that are no
/// chunk (a missing header, bytes that end early) are answered with the error
/// that names the fault.
pub fn read_chunk(chunk: &[u8]) -> (r: Result<(usize, Vec<u8>), FileVisitError>)
    ensures
        match r {
            Ok((off, code)) => decode_chunk_code(chunk@) == Ok::<(nat, Seq<u8>), WalkError>((off as nat, code@)),
            Err(e) => decode_chunk_code(chunk@) == Err::<(nat, Seq<u8>), WalkError>(e.kind()),
        },
{
    if chunk.len() < 8 {
        return walk_err(FileVisitError::Truncated);
    }
    if !bytes_match(chunk, 0, CHUNK_HEADER.as_slice()) {
        return walk_err(FileVisitError::InvalidHeader);
    }
    if chunk.len() < 16 {
        return walk_err(FileVisitError::Truncated);
    }
    let mut offset: usize = 8;
    let chunk_size = read_le_bytes(chunk, offset);
    offset = offset + 7;
    if chunk_size > (chunk.len() - 15) as u64 {
        return walk_err(FileVisitError::Truncated);
    }
    let size = chunk_size as usize;
    let mut code: Vec<u8> = Vec::new();
    let mut i: usize = 0;
    while i < size
        invariant
            i <= size,
            offset == 15,
            15 + size <= chunk@.len(),
            chunk@.len() <= usize::MAX,
            code@ == chunk@.subrange(15, 15 + i),
        decreases size - i,
    {
        code.push(chunk[offset + i]);
        i = i + 1;
        assert(code@ =~= chunk@.subrange(15, 15 + i));
    }
    Ok((offset, code))
}

/// Reads `count` type tags from index `at` of `b`.
fn read_args(b: &[u8], at: usize, count: u64) -> (r: Result<(Vec<ThetaFuncArg>, usize), FileVisitError>)
    requires
        at <= b@.len(),
    ensures
        match r {
            Ok((args, end)) => decode_args(b@, at as nat, count as nat) == Ok::<(Seq<TypeInformation>, nat), WalkError>(
                (args@.map_values(|a: ThetaFuncArg| a.ty), end as nat),
            ) && end <= b@.len(),
            Err(e) => decode_args(b@, at as nat, count as nat) == Err::<(Seq<TypeInformation>, nat), WalkError>(e.kind()),
        },
{
    let mut args: Vec<ThetaFuncArg> = Vec::new();
    let mut offset = at;
    let mut done: u64 = 0;
    while done < count
        invariant
            done <= count,
            at <= offset <= b@.len(),
            offset == at + done,
            decode_args(b@, at as nat, count as nat) == (match decode_args(b@, offset as nat, (count - done) as nat) {
                Ok((ts, end)) => Ok::<(Seq<TypeInformation>, nat), WalkError>((args@.map_values(|a: ThetaFuncArg| a.ty) + ts, end)),
                Err(e) => Err(e),
            }),
        decreases count - done,
    {
        if offset >= b.len() {
            return walk_err(FileVisitError::Truncated);
        }
        let ty = match read_type_tag(b[offset]) {
            Ok(t) => t,
            Err(e) => {
                return Err(e);
            },
        };
        let ghost before = args@.map_values(|a: ThetaFuncArg| a.ty);
        args.push(ThetaFuncArg { ty });
        proof {
            assert(args@.map_values(|a: ThetaFuncArg| a.ty) =~= before.push(ty));
            match decode_args(b@, (offset + 1) as nat, (count - done - 1) as nat) {
                Ok((ts, end)) => {
                    assert(before + (seq![ty] + ts) =~= before.push(ty) + ts);
                },
                Err(e) => {},
            }
        }
        offset = offset + 1;
        done = done + 1;
    }
    assert(args@.map_values(|a: ThetaFuncArg| a.ty) + seq![] =~= args@.map_values(|a: ThetaFuncArg| a.ty));
    Ok((args, offset))
}


/// Reads the function at index `at` of a function pool.
pub fn read_function(b: &[u8], at: usize) -> (r: Result<(ThetaCompiledFunction, usize), FileVisitError>)
    requires
        at <= b@.len(),
    ensures
        match r {
            Ok((f, next)) => decode_function(b@, at as nat) == Ok::<(CompiledFnView, nat), WalkError>(
                (compiled_view(f), next as nat),
            ),
            Err(e) => decode_function(b@, at as nat) == Err::<(CompiledFnView, nat), WalkError>(e.kind()),
        },
{
    let avail = b.len() - at;
    if avail < 4 {
        return walk_err(FileVisitError::Truncated);
    }
    if !bytes_match(b, at, FUNCTION_HEADER.as_slice()) {
        return walk_err(FileVisitError::InvalidHeader);
    }
    if avail < 12 {
        return walk_err(FileVisitError::Truncated);
    }
    let size = read_le_bytes(b, at + 4);
    let o = at + 12;
    if size > (b.len() - o) as u64 {
        return walk_err(FileVisitError::Truncated);
    }
    let len = size as usize;
    let mut bytes: Vec<u8> = Vec::new();
    let mut i: usize = 0;
    while i < len
        invariant
            i <= len,
            o + len <= b@.len(),
            b@.len() <= usize::MAX,
            bytes@ == b@.subrange(o as int, o + i),
        decreases len - i,
    {
        bytes.push(b[o + i]);
        i = i + 1;
        assert(bytes@ =~= b@.subrange(o as int, o + i));
    }
    let name = match string_from_utf8(bytes) {
        Ok(st) => st,
        Err(e) => {
            return walk_err(FileVisitError::Utf8Error(e));
        },
    };
    let o2 = o + len;
    if b.len() - o2 < 8 {
        return walk_err(FileVisitError::Truncated);
    }
    let arity = read_le_bytes(b, o2);
    let (args, o3) = match read_args(b, o2 + 8, arity) {
        Ok(x) => x,
        Err(e) => {
            return Err(e);
        },
    };
    if o3 >= b.len() {
        return walk_err(FileVisitError::Truncated);
    }
    let ret = match read_type_tag(b[o3]) {
        Ok(t) => t,
        Err(e) => {
            return Err(e);
        },
    };
    let (_, rest) = b.split_at(o3 + 1);
    assert(rest@ =~= b@.skip(o3 + 1));
    let (next, code) = match read_chunk(rest) {
        Ok(x) => x,
        Err(e) => {
            return Err(e);
        },
    };
    let f = ThetaCompiledFunction { args, chunk: code, name: ThetaString::new(name), return_ty: ret };
    Ok((f, next))
}

/// The views of functions read from a file.
pub open spec fn compiled_views(fs: Seq<ThetaCompiledFunction>) -> Seq<CompiledFnView> {
    fs.map_values(|f: ThetaCompiledFunction| compiled_view(f))
}

/// Reads a function pool that `decode_fn_pool` reads without error: its
/// functions, and the index at which reading stopped.
pub fn walk_function_pool(function_pool: &[u8]) -> (r: Result<(Vec<ThetaCompiledFunction>, usize), FileVisitError>)
    requires
        decode_fn_pool(function_pool@) is Ok,
    ensures
        r matches Ok((fs, n)) && decode_fn_pool(function_pool@) == Ok::<(Seq<CompiledFnView>, nat), WalkError>(
            (compiled_views(fs@), n as nat),
        ),
{
    read_function_pool(function_pool)
}

/// Checks and reads a function pool, as `decode_fn_pool` says: bytes that are
/// no function pool are answered with the error that names the fault (a missing
/// pool or function header, a type byte above 4, input that ends early, a name
/// that is not UTF-8).
pub fn read_function_pool(function_pool: &[u8]) -> (r: Result<(Vec<ThetaCompiledFunction>, usize), FileVisitError>)
    ensures
        match r {
            Ok((fs, n)) => decode_fn_pool(function_pool@) == Ok::<(Seq<CompiledFnView>, nat), WalkError>(
                (compiled_views(fs@), n as nat),
            ),
            Err(e) => decode_fn_pool(function_pool@) == Err::<(Seq<CompiledFnView>, nat), WalkError>(e.kind()),
        },
{
    let b = function_pool;
    if b.len() < 8 {
        return walk_err(FileVisitError::Truncated);
    }
    if !bytes_match(b, 0, FUNCTION_POOL_HEADER.as_slice()) {
        assert(b@.subrange(0, 8) != FUNCTION_POOL_HEADER@);
        return walk_err(FileVisitError::InvalidHeader);
    }
    if b.len() < 9 {
        return walk_err(FileVisitError::Truncated);
    }
    let count = b[8] as u64;
    let mut functions: Vec<ThetaCompiledFunction> = Vec::new();
    let mut offset: usize = 9;
    let mut done: u64 = 0;
    assert(compiled_views(functions@) =~= Seq::<CompiledFnView>::empty());
    while done < count
        invariant
            done <= count,
            count == b@[8] as nat,
            b@ == function_pool@,
            b@.len() >= 9,
            b@.subrange(0, 8) == FUNCTION_POOL_HEADER@,
            decode_functions(b@, 9, count as nat) == (match decode_functions(b@, offset as nat, (count - done) as nat) {
                Ok((fs, end)) => Ok::<(Seq<CompiledFnView>, nat), WalkError>((compiled_views(functions@) + fs, end)),
                Err(e) => Err(e),
            }),
        decreases count - done,
    {
        if offset > b.len() {
            assert(decode_function(b@, offset as nat) == Err::<(CompiledFnView, nat), WalkError>(WalkError::Truncated));
            assert(decode_functions(b@, offset as nat, (count - done) as nat) == Err::<(Seq<CompiledFnView>, nat), WalkError>(WalkError::Truncated));
            return walk_err(FileVisitError::Truncated);
        }
        match read_function(b, offset) {
            Ok((f, next)) => {
                let ghost before = compiled_views(functions@);
                functions.push(f);
                proof {
                    assert(compiled_views(functions@) =~= before.push(compiled_view(f)));
                    match decode_functions(b@, next as nat, (count - done - 1) as nat) {
                        Ok((fs, end)) => {
                            assert(before + (seq![compiled_view(f)] + fs) =~= before.push(compiled_view(f)) + fs);
                        },
                        Err(e) => {},
                    }
                }
                offset = next;
                done = done + 1;
            },
            Err(e) => {
                assert(decode_functions(b@, offset as nat, (count - done) as nat) == Err::<(Seq<CompiledFnView>, nat), WalkError>(e.kind()));
                return Err(e);
            },
        }
    }
    assert(compiled_views(functions@) + seq![] =~= compiled_views(functions@));
    Ok((functions, offset))
}

/// Reads a bitstream: its header, its constant pool, and the function pool
/// after it; gives the constants and the functions.
pub open spec fn decode_bitstream(b: Seq<u8>) -> Result<(Seq<ConstantView>, Seq<CompiledFnView>), WalkError> {
    if b.len() < 8 {
        Err(WalkError::Truncated)
    } else if b.subrange(0, 8) != BITSTREAM_HEADER@ {
        Err(WalkError::BadHeader)
    } else {
        match decode_pool(b.skip(8)) {
            Err(e) => Err(e),
            Ok((cs, n)) => match decode_fn_pool(b.skip((8 + n) as int)) {
                Err(e) => Err(e),
                Ok((fs, _)) => Ok((cs, fs)),
            },
        }
    }
}

/// Reads a bitstream that `bitstream_readable` admits: its constants and its
/// functions, or the error that its constant pool reports.
pub fn walk_bitstream(bitstream: &[u8]) -> (r: Result<(Vec<ThetaConstant>, Vec<ThetaCompiledFunction>), FileVisitError>)
    requires
        bitstream_readable(bitstream@),
    ensures
        match r {
            Ok((cs, fs)) => decode_bitstream(bitstream@) == Ok::<(Seq<ConstantView>, Seq<CompiledFnView>), WalkError>(
                (views(cs@), compiled_views(fs@)),
            ),
            Err(e) => decode_bitstream(bitstream@) == Err::<(Seq<ConstantView>, Seq<CompiledFnView>), WalkError>(
                e.kind(),
            ) && reported(e.kind()),
        },
{
    read_bitstream(bitstream)
}

/// Checks and reads a bitstream, as `decode_bitstream` says: bytes that are no
/// bitstream are answered with the error that names the fault.
pub fn read_bitstream(bitstream: &[u8]) -> (r: Result<(Vec<ThetaConstant>, Vec<ThetaCompiledFunction>), FileVisitError>)
    ensures
        match r {
            Ok((cs, fs)) => decode_bitstream(bitstream@) == Ok::<(Seq<ConstantView>, Seq<CompiledFnView>), WalkError>(
                (views(cs@), compiled_views(fs@)),
            ),
            Err(e) => decode_bitstream(bitstream@) == Err::<(Seq<ConstantView>, Seq<CompiledFnView>), WalkError>(
                e.kind(),
            ),
        },
{
    if bitstream.len() < 8 {
        return walk_err(FileVisitError::Truncated);
    }
    if !bytes_match(bitstream, 0, BITSTREAM_HEADER.as_slice()) {
        assert(bitstream@.subrange(0, 8) != BITSTREAM_HEADER@);
        return walk_err(FileVisitError::InvalidHeader);
    }
    let (_, pool) = bitstream.split_at(8);
    assert(pool@ =~= bitstream@.skip(8));
    let (constants, fn_offset) = match read_constant_pool(pool) {
        Ok(x) => x,
        Err(e) => {
            return Err(e);
        },
    };
    proof {
        assert(decode_pool(pool@) is Ok);
    }
    if fn_offset > pool.len() {
        return walk_err(FileVisitError::Truncated);
    }
    let (_, fpool) = pool.split_at(fn_offset);
    assert(fpool@ =~= bitstream@.skip(8 + fn_offset));
    let (functions, _after_offset) = match read_function_pool(fpool) {
        Ok(x) => x,
        Err(e) => {
            return Err(e);
        },
    };
    Ok((constants, functions))
}

/// Reads files of the machine.
pub struct ThetaFileWalker {}

impl ThetaFileWalker {
    pub fn new() -> (r: ThetaFileWalker) {
        ThetaFileWalker {}
    }

    /// Reads a file: the bitstream it holds, as `walk_bitstream` does.
    pub fn walk_theta_file(&mut self, input: &[u8]) -> (r: Result<(Vec<ThetaConstant>, Vec<ThetaCompiledFunction>), FileVisitError>)
        requires
            bitstream_readable(input@),
        ensures
            match r {
                Ok((cs, fs)) => decode_bitstream(input@) == Ok::<(Seq<ConstantView>, Seq<CompiledFnView>), WalkError>(
                    (views(cs@), compiled_views(fs@)),
                ),
                Err(e) => decode_bitstream(input@) == Err::<(Seq<ConstantView>, Seq<CompiledFnView>), WalkError>(
                    e.kind(),
                ) && reported(e.kind()),
            },
    {
        walk_bitstream(input)
    }
}

} // verus!
