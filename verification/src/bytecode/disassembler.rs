//! Readable listings of assembled chunks.

use vstd::prelude::*;
use crate::text::{
    string_from_str, push_str, push_dec, push_signed, push_alt_hex_lower, dec_digits, dec_signed, alt_hex_lower,
};
use super::encoding::{from_le_bytes, read_le_bytes};
use super::file::{FileVisitError, WalkError, holds_at, walk_error_text, push_marker};
use super::chunk::CHUNK_HEADER;
use super::value::{ThetaConstant, ConstantView, CONSTANT_POOL_HEADER};

verus! {

broadcast use vstd::array::axiom_spec_array_as_slice;

/// A line of a listing. Doubles and constants are written where floating
/// point and debug formatting are available.
#[derive(Debug)]
pub enum ListingLine {
    /// A line of text, as it is.
    Text(String),
    /// "Constant: ", a double (by its bit pattern) in decimal, and "\r\n".
    DoubleConstant(u64),
    /// "Constant: ", the constant in debug form, and a newline.
    ConstantDebug(ThetaConstant),
}

/// A line of a listing seen mathematically.
pub enum LineView {
    Text(Seq<char>),
    DoubleConstant(u64),
    ConstantDebug(ConstantView),
}

impl View for ListingLine {
    type V = LineView;

    open spec fn view(&self) -> LineView {
        match self {
            ListingLine::Text(s) => LineView::Text(s@),
            ListingLine::DoubleConstant(b) => LineView::DoubleConstant(*b),
            ListingLine::ConstantDebug(c) => LineView::ConstantDebug(c@),
        }
    }
}

/// The views of the lines of a listing.
pub open spec fn line_views(v: Seq<ListingLine>) -> Seq<LineView> {
    v.map_values(|l: ListingLine| l@)
}

/// Why a chunk could not be listed.
#[derive(Debug)]
pub enum DisassembleError {
    InvalidMarkerInChunk(Vec<u8>),
    FileWalkError(FileVisitError),
    Truncated,
    InvalidHeader,
}

impl DisassembleError {
    /// What kind of error this is.
    pub open spec fn kind(&self) -> WalkError {
        match self {
            DisassembleError::InvalidMarkerInChunk(m) => WalkError::InvalidMarker(
                if m@.len() > 0 { m@[0] } else { 0 },
                if m@.len() > 1 { m@[1] } else { 0 },
            ),
            DisassembleError::FileWalkError(e) => e.kind(),
            DisassembleError::Truncated => WalkError::Truncated,
            DisassembleError::InvalidHeader => WalkError::BadHeader,
        }
    }
}

/// How an error of listing is written in messages; for a string that is not
/// UTF-8 this is the start of the message.
pub open spec fn disassemble_error_text(e: DisassembleError) -> Seq<char> {
    match e {
        DisassembleError::FileWalkError(fw) => "file walk error: "@ + walk_error_text(fw.kind()),
        _ => walk_error_text(e.kind()),
    }
}

impl DisassembleError {
    /// The error as messages write it: as `disassemble_error_text` says, and for
    /// a string that is not UTF-8, that text followed by the decoder's own message.
    pub fn describe(&self) -> (r: String)
        ensures
            !(self.kind() is BadUtf8) ==> r@ == disassemble_error_text(*self),
            self.kind() is BadUtf8 ==> r@.len() >= disassemble_error_text(*self).len() && r@.subrange(
                0,
                disassemble_error_text(*self).len() as int,
            ) == disassemble_error_text(*self),
    {
        let mut out = String::new();
        match self {
            DisassembleError::InvalidMarkerInChunk(m) => push_marker(&mut out, m),
            DisassembleError::FileWalkError(fw) => {
                push_str(&mut out, "file walk error: ");
                let t = fw.describe();
                push_str(&mut out, t.as_str());
                proof {
                    reveal_strlit("file walk error: ");
                    reveal_strlit("UTF-8 error: ");
                    assert(out@.subrange(0, 17) =~= "file walk error: "@);
                    if fw.kind() is BadUtf8 {
                        assert(out@.subrange(0, 30) =~= "file walk error: "@ + t@.subrange(0, 13));
                    }
                }
            },
            DisassembleError::Truncated => push_str(&mut out, "unexpected end of input"),
            DisassembleError::InvalidHeader => push_str(&mut out, "invalid header"),
        }
        assert(!(self.kind() is BadUtf8) ==> out@ =~= disassemble_error_text(*self));
        out
    }
}

/// The line listing the constant at index `o` of `b`, and the bytes it takes.
pub open spec fn list_constant(b: Seq<u8>, o: int) -> Result<(LineView, int), WalkError> {
    if b.len() < o + 2 {
        Err(WalkError::Truncated)
    } else if b[o] == 0xF && b[o + 1] == 0xF {
        if b.len() < o + 10 {
            Err(WalkError::Truncated)
        } else {
            Ok((LineView::DoubleConstant(from_le_bytes(b.subrange(o + 2, o + 10))), 10))
        }
    } else if b[o] == 0xA && b[o + 1] == 0xA {
        if b.len() < o + 10 {
            Err(WalkError::Truncated)
        } else {
            Ok(
                (
                    LineView::Text(
                        "Constant: "@ + dec_signed(from_le_bytes(b.subrange(o + 2, o + 10)) as i64 as int) + "\r\n"@,
                    ),
                    10,
                ),
            )
        }
    } else if b[o] == 0xB && b[o + 1] == 0xB {
        if b.len() < o + 3 {
            Err(WalkError::Truncated)
        } else {
            Ok(
                (
                    LineView::Text(
                        "Constant: "@ + (if b[o + 2] == 1 {
                            "true"@
                        } else {
                            "false"@
                        }) + "\r\n"@,
                    ),
                    3,
                ),
            )
        }
    } else {
        Err(WalkError::InvalidMarker(b[o], b[o + 1]))
    }
}

/// The lines listing `count` constants from index `o` of `b`, and the index after them.
pub open spec fn list_constants(b: Seq<u8>, o: int, count: nat) -> Result<(Seq<LineView>, int), WalkError>
    decreases count,
{
    if count == 0 {
        Ok((seq![], o))
    } else {
        match list_constant(b, o) {
            Err(e) => Err(e),
            Ok((l, n)) => match list_constants(b, o + n, (count - 1) as nat) {
                Err(e) => Err(e),
                Ok((ls, end)) => Ok((seq![l] + ls, end)),
            },
        }
    }
}

/// The line listing the instruction at index `o` of `b`, and the bytes it takes.
pub open spec fn list_op(b: Seq<u8>, o: int) -> Result<(LineView, int), WalkError> {
    let code = b[o];
    if code == 0 {
        Ok((LineView::Text("Op: Return (0x0)\r\n"@), 1))
    } else if code == 1 {
        if b.len() < o + 2 {
            Err(WalkError::Truncated)
        } else {
            Ok((LineView::Text("Op: Constant (0x1) with offset: "@ + dec_digits(b[o + 1] as nat) + "\r\n"@), 2))
        }
    } else if code == 2 {
        Ok((LineView::Text("Op: Add (0x2)\r\n"@), 1))
    } else if code == 3 {
        Ok((LineView::Text("Op: Sub (0x3)\r\n"@), 1))
    } else if code == 4 {
        Ok((LineView::Text("Op: Mul (0x4)\r\n"@), 1))
    } else if code == 5 {
        Ok((LineView::Text("Op: Div (0x5)\r\n"@), 1))
    } else if code == 6 {
        Ok((LineView::Text("Op: Neg (0x6)\r\n"@), 1))
    } else {
        Ok((LineView::Text("Op: Unknown ("@ + alt_hex_lower(code as nat) + ")\r\n"@), 1))
    }
}

/// The lines listing the instructions from index `o` of `b` to its end.
pub open spec fn list_ops(b: Seq<u8>, o: int) -> Result<Seq<LineView>, WalkError>
    decreases b.len() - o,
{
    if o >= b.len() {
        Ok(seq![])
    } else {
        match list_op(b, o) {
            Err(e) => Err(e),
            Ok((l, n)) => if n > 0 {
                match list_ops(b, o + n) {
                    Err(e) => Err(e),
                    Ok(ls) => Ok(seq![l] + ls),
                }
            } else {
                Ok(seq![l])
            },
        }
    }
}

/// The listing of an assembled chunk: its headers, its constant pool (the
/// byte at index 17 gives the number of constants, which start at index 18),
/// and its instructions.
pub open spec fn listing(b: Seq<u8>) -> Result<Seq<LineView>, WalkError> {
    if b.len() < 8 {
        Err(WalkError::Truncated)
    } else if !holds_at(b, 0, CHUNK_HEADER@) {
        Err(WalkError::BadHeader)
    } else if b.len() < 16 {
        Err(WalkError::Truncated)
    } else if !holds_at(b, 8, CONSTANT_POOL_HEADER@) {
        Err(WalkError::BadHeader)
    } else if b.len() < 18 {
        Err(WalkError::Truncated)
    } else {
        let head = seq![
            LineView::Text("=== BEGIN CHUNK ===\r\n"@),
            LineView::Text("-- BEGIN CONSTANT POOL --\r\n"@),
        ];
        match list_constants(b, 18, b[17] as nat) {
            Err(e) => Err(e),
            Ok((cs, o)) => match list_ops(b, o) {
                Err(e) => Err(e),
                Ok(ops) => Ok(head + cs + ops),
            },
        }
    }
}

/// Something that turns bytes into a readable form.
pub trait Disassembler {
    type Out;

    fn disassemble(&mut self, code: &[u8]) -> Result<Self::Out, DisassembleError>;
}

/// Lists an assembled chunk as lines of text.
pub struct StringDisassembler {}

impl StringDisassembler {
    pub fn new() -> (r: StringDisassembler) {
        StringDisassembler {}
    }
}

impl Default for StringDisassembler {
    fn default() -> (r: StringDisassembler) {
        StringDisassembler::new()
    }
}

fn dis_err<A>(e: DisassembleError) -> (r: Result<A, DisassembleError>)
    ensures
        r == Err::<A, DisassembleError>(e),
{
    Err(e)
}

/// A line of text made of a literal.
fn text(s: &str) -> (r: ListingLine)
    ensures
        r@ == LineView::Text(s@),
{
    ListingLine::Text(string_from_str(s))
}

/// The line listing the constant at index `o` of `b`, and the bytes it takes.
fn read_constant_line(b: &[u8], o: usize) -> (r: Result<(ListingLine, usize), DisassembleError>)
    requires
        o <= b@.len(),
    ensures
        match r {
            Ok((l, n)) => list_constant(b@, o as int) == Ok::<(LineView, int), WalkError>((l@, n as int)) && o + n
                <= b@.len(),
            Err(e) => list_constant(b@, o as int) == Err::<(LineView, int), WalkError>(e.kind()),
        },
{
    if b.len() - o < 2 {
        return dis_err(DisassembleError::Truncated);
    }
    let m0 = b[o];
    let m1 = b[o + 1];
    if m0 == 0xF && m1 == 0xF {
        if b.len() - o < 10 {
            return dis_err(DisassembleError::Truncated);
        }
        Ok((ListingLine::DoubleConstant(read_le_bytes(b, o + 2)), 10))
    } else if m0 == 0xA && m1 == 0xA {
        if b.len() - o < 10 {
            return dis_err(DisassembleError::Truncated);
        }
        let value: i64 = read_le_bytes(b, o + 2) as i64;
        let mut s = string_from_str("Constant: ");
        push_signed(&mut s, value);
        push_str(&mut s, "\r\n");
        Ok((ListingLine::Text(s), 10))
    } else if m0 == 0xB && m1 == 0xB {
        if b.len() - o < 3 {
            return dis_err(DisassembleError::Truncated);
        }
        let mut s = string_from_str("Constant: ");
        if b[o + 2] == 1 {
            push_str(&mut s, "true");
        } else {
            push_str(&mut s, "false");
        }
        push_str(&mut s, "\r\n");
        Ok((ListingLine::Text(s), 3))
    } else {
        let mut marker: Vec<u8> = Vec::new();
        marker.push(m0);
        marker.push(m1);
        dis_err(DisassembleError::InvalidMarkerInChunk(marker))
    }
}

/// The line listing the instruction at index `o` of `b`, and the bytes it takes.
fn read_op_line(b: &[u8], o: usize) -> (r: Result<(ListingLine, usize), DisassembleError>)
    requires
        o < b@.len(),
    ensures
        match r {
            Ok((l, n)) => list_op(b@, o as int) == Ok::<(LineView, int), WalkError>((l@, n as int)) && 1 <= n && o + n
                <= b@.len(),
            Err(e) => list_op(b@, o as int) == Err::<(LineView, int), WalkError>(e.kind()),
        },
{
    let code = b[o];
    if code == 0 {
        Ok((text("Op: Return (0x0)\r\n"), 1))
    } else if code == 1 {
        if b.len() - o < 2 {
            return dis_err(DisassembleError::Truncated);
        }
        let mut s = string_from_str("Op: Constant (0x1) with offset: ");
        push_dec(&mut s, b[o + 1] as u64);
        push_str(&mut s, "\r\n");
        Ok((ListingLine::Text(s), 2))
    } else if code == 2 {
        Ok((text("Op: Add (0x2)\r\n"), 1))
    } else if code == 3 {
        Ok((text("Op: Sub (0x3)\r\n"), 1))
    } else if code == 4 {
        Ok((text("Op: Mul (0x4)\r\n"), 1))
    } else if code == 5 {
        Ok((text("Op: Div (0x5)\r\n"), 1))
    } else if code == 6 {
        Ok((text("Op: Neg (0x6)\r\n"), 1))
    } else {
        let mut s = string_from_str("Op: Unknown (");
        push_alt_hex_lower(&mut s, code as u64);
        push_str(&mut s, ")\r\n");
        Ok((ListingLine::Text(s), 1))
    }
}

impl StringDisassembler {
    /// Lists an assembled chunk that `listing` reads without error: its
    /// headers, its constants and its instructions, one line each.
    pub fn disassemble_chunk(&mut self, chunk: &[u8]) -> (r: Result<Vec<ListingLine>, DisassembleError>)
        requires
            listing(chunk@) is Ok,
        ensures
            r matches Ok(lines) && listing(chunk@) == Ok::<Seq<LineView>, WalkError>(line_views(lines@)),
    {
        self.try_disassemble_chunk(chunk)
    }

    /// Checks and lists an assembled chunk, as `listing` says: bytes that are
    /// no chunk (a missing header, bytes that end early, a constant marker that
    /// names no kind of constant) are answered with the error that names the fault.
    pub fn try_disassemble_chunk(&mut self, chunk: &[u8]) -> (r: Result<Vec<ListingLine>, DisassembleError>)
        ensures
            match r {
                Ok(lines) => listing(chunk@) == Ok::<Seq<LineView>, WalkError>(line_views(lines@)),
                Err(e) => listing(chunk@) == Err::<Seq<LineView>, WalkError>(e.kind()),
            },
    {
        if chunk.len() < 8 {
            return dis_err(DisassembleError::Truncated);
        }
        if !super::file::bytes_match(chunk, 0, CHUNK_HEADER.as_slice()) {
            return dis_err(DisassembleError::InvalidHeader);
        }
        let mut readout: Vec<ListingLine> = Vec::new();
        readout.push(text("=== BEGIN CHUNK ===\r\n"));
        if chunk.len() < 16 {
            return dis_err(DisassembleError::Truncated);
        }
        if !super::file::bytes_match(chunk, 8, CONSTANT_POOL_HEADER.as_slice()) {
            return dis_err(DisassembleError::InvalidHeader);
        }
        readout.push(text("-- BEGIN CONSTANT POOL --\r\n"));
        if chunk.len() < 18 {
            return dis_err(DisassembleError::Truncated);
        }
        let ghost head = line_views(readout@);
        assert(head =~= seq![
            LineView::Text("=== BEGIN CHUNK ===\r\n"@),
            LineView::Text("-- BEGIN CONSTANT POOL --\r\n"@),
        ]);
        let const_pool_size = chunk[17] as u64;
        let ghost whole = match list_constants(chunk@, 18, const_pool_size as nat) {
            Err(e) => Err(e),
            Ok((cs, o)) => match list_ops(chunk@, o) {
                Err(e) => Err(e),
                Ok(ops) => Ok(head + cs + ops),
            },
        };
        assert(listing(chunk@) == whole);
        let mut offset: usize = 18;
        let mut done: u64 = 0;
        while done < const_pool_size
            invariant
                done <= const_pool_size,
                const_pool_size == chunk@[17] as nat,
                18 <= offset <= chunk@.len(),
                chunk@.len() <= usize::MAX,
                readout@.len() >= 2,
                listing(chunk@) == whole,
                whole == (match list_constants(chunk@, 18, const_pool_size as nat) {
                    Err(e) => Err(e),
                    Ok((cs, o)) => match list_ops(chunk@, o) {
                        Err(e) => Err(e),
                        Ok(ops) => Ok(head + cs + ops),
                    },
                }),
                line_views(readout@).subrange(0, 2) == head,
                list_constants(chunk@, 18, const_pool_size as nat) == (match list_constants(
                    chunk@,
                    offset as int,
                    (const_pool_size - done) as nat,
                ) {
                    Ok((ls, end)) => Ok::<(Seq<LineView>, int), WalkError>(
                        (line_views(readout@).subrange(2, readout@.len() as int) + ls, end),
                    ),
                    Err(e) => Err(e),
                }),
            decreases const_pool_size - done,
        {
            match read_constant_line(chunk, offset) {
                Ok((l, n)) => {
                    let ghost before = line_views(readout@);
                    readout.push(l);
                    proof {
                        assert(line_views(readout@) =~= before.push(l@));
                        assert(line_views(readout@).subrange(0, 2) =~= before.subrange(0, 2));
                        match list_constants(chunk@, (offset + n) as int, (const_pool_size - done - 1) as nat) {
                            Ok((ls, end)) => {
                                assert(before.subrange(2, before.len() as int) + (seq![l@] + ls)
                                    =~= line_views(readout@).subrange(2, readout@.len() as int) + ls);
                            },
                            Err(e) => {},
                        }
                    }
                    offset = offset + n;
                    done = done + 1;
                },
                Err(e) => {
                    assert(list_constants(chunk@, offset as int, (const_pool_size - done) as nat) == Err::<(Seq<LineView>, int), WalkError>(e.kind()));
                    return Err(e);
                },
            }
        }
        let ghost after_consts = line_views(readout@);
        assert(list_constants(chunk@, 18, const_pool_size as nat) == Ok::<(Seq<LineView>, int), WalkError>(
            (after_consts.subrange(2, after_consts.len() as int), offset as int),
        )) by {
            assert(after_consts.subrange(2, after_consts.len() as int) + seq![] =~= after_consts.subrange(
                2,
                after_consts.len() as int,
            ));
        }
        while offset < chunk.len()
            invariant
                offset <= chunk@.len(),
                chunk@.len() <= usize::MAX,
                after_consts.len() >= 2,
                listing(chunk@) == whole,
                whole == (match list_constants(chunk@, 18, const_pool_size as nat) {
                    Err(e) => Err(e),
                    Ok((cs, o)) => match list_ops(chunk@, o) {
                        Err(e) => Err(e),
                        Ok(ops) => Ok(head + cs + ops),
                    },
                }),
                line_views(readout@).subrange(0, 2) == head,
                after_consts.subrange(0, 2) == head,
                after_consts.len() <= readout@.len(),
                line_views(readout@).subrange(0, after_consts.len() as int) == after_consts,
                list_constants(chunk@, 18, const_pool_size as nat) == Ok::<(Seq<LineView>, int), WalkError>(
                    (after_consts.subrange(2, after_consts.len() as int), (list_constants(chunk@, 18, const_pool_size as nat)->Ok_0).1),
                ),
                list_ops(chunk@, (list_constants(chunk@, 18, const_pool_size as nat)->Ok_0).1) == (match list_ops(
                    chunk@,
                    offset as int,
                ) {
                    Ok(ls) => Ok::<Seq<LineView>, WalkError>(
                        line_views(readout@).subrange(after_consts.len() as int, readout@.len() as int) + ls,
                    ),
                    Err(e) => Err(e),
                }),
            decreases chunk@.len() - offset,
        {
            match read_op_line(chunk, offset) {
                Ok((l, n)) => {
                    let ghost before = line_views(readout@);
                    readout.push(l);
                    proof {
                        assert(line_views(readout@) =~= before.push(l@));
                        assert(line_views(readout@).subrange(0, after_consts.len() as int) =~= before.subrange(
                            0,
                            after_consts.len() as int,
                        ));
                        match list_ops(chunk@, (offset + n) as int) {
                            Ok(ls) => {
                                assert(before.subrange(after_consts.len() as int, before.len() as int) + (seq![l@]
                                    + ls) =~= line_views(readout@).subrange(
                                    after_consts.len() as int,
                                    readout@.len() as int,
                                ) + ls);
                            },
                            Err(e) => {},
                        }
                    }
                    offset = offset + n;
                },
                Err(e) => {
                    assert(list_ops(chunk@, offset as int) == Err::<Seq<LineView>, WalkError>(e.kind()));
                    return Err(e);
                },
            }
        }
        proof {
            let v = line_views(readout@);
            assert(v =~= head + after_consts.subrange(2, after_consts.len() as int) + v.subrange(
                after_consts.len() as int,
                v.len() as int,
            ));
        }
        Ok(readout)
    }
}

impl Disassembler for StringDisassembler {
    type Out = Vec<ListingLine>;

    /// Checks and lists an assembled chunk, as `try_disassemble_chunk` does.
    fn disassemble(&mut self, input: &[u8]) -> (r: Result<Vec<ListingLine>, DisassembleError>)
        ensures
            match r {
                Ok(lines) => listing(input@) == Ok::<Seq<LineView>, WalkError>(line_views(lines@)),
                Err(e) => listing(input@) == Err::<Seq<LineView>, WalkError>(e.kind()),
            },
    {
        self.try_disassemble_chunk(input)
    }
}

} // verus!
