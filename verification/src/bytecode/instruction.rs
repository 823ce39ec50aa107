use vstd::prelude::*;
use crate::text::{alt_hex, alt_hex_string, push_str, string_from_str};

verus! {

/// One instruction of the stack machine, before it is assembled into bytes.
#[derive(Debug, Clone, Copy, PartialEq, Eq, Structural)]
pub enum OpCode {
    Return,
    Constant { offset: usize },
    Push { size: usize },
    Pop,
    Add,
    Subtract,
    Multiply,
    Divide,
    Negate,
    Equal,
    GreaterThan,
    LessThan,
    JumpLocal { offset: i8 },
    JumpLocalIfFalse { offset: i8 },
    JumpFar { offset: isize },
    JumpFarIfFalse { offset: isize },
    DefineGlobal { offset: usize },
    GetGlobal { offset: usize },
    DefineLocal { offset: usize },
    GetLocal { offset: usize },
    Noop,
    DebugPrint,
}

/// The size, in bytes, that an instruction is counted as taking when assembled
/// (a machine word is eight bytes).
pub open spec fn op_size(op: OpCode) -> nat {
    match op {
        OpCode::Return => 1,
        OpCode::Constant { .. } => 2,
        OpCode::Push { .. } => 9,
        OpCode::Pop => 1,
        OpCode::Add => 1,
        OpCode::Subtract => 1,
        OpCode::Multiply => 1,
        OpCode::Divide => 1,
        OpCode::Negate => 1,
        OpCode::Equal => 1,
        OpCode::GreaterThan => 1,
        OpCode::LessThan => 1,
        OpCode::JumpLocal { .. } => 2,
        OpCode::JumpLocalIfFalse { .. } => 2,
        OpCode::DefineGlobal { .. } => 2,
        OpCode::GetGlobal { .. } => 2,
        OpCode::DefineLocal { .. } => 2,
        OpCode::GetLocal { .. } => 2,
        OpCode::DebugPrint => 1,
        OpCode::JumpFar { .. } => 9,
        OpCode::JumpFarIfFalse { .. } => 9,
        OpCode::Noop => 1,
    }
}

/// The byte that identifies an instruction in assembled code.
pub open spec fn op_hexcode(op: OpCode) -> u8 {
    match op {
        OpCode::Return => 0x0,
        OpCode::Constant { .. } => 0x1,
        OpCode::Push { .. } => 0x2,
        OpCode::Pop => 0x3,
        OpCode::Add => 0x4,
        OpCode::Subtract => 0x5,
        OpCode::Multiply => 0x6,
        OpCode::Divide => 0x7,
        OpCode::Negate => 0x8,
        OpCode::Equal => 0x9,
        OpCode::GreaterThan => 0xA,
        OpCode::LessThan => 0xB,
        OpCode::JumpLocal { .. } => 0xD0,
        OpCode::JumpLocalIfFalse { .. } => 0xD1,
        OpCode::JumpFar { .. } => 0xD2,
        OpCode::JumpFarIfFalse { .. } => 0xD3,
        OpCode::DefineGlobal { .. } => 0xC0,
        OpCode::GetGlobal { .. } => 0xC1,
        OpCode::DefineLocal { .. } => 0xC2,
        OpCode::GetLocal { .. } => 0xC3,
        OpCode::DebugPrint => 0xFF,
        OpCode::Noop => 0xFD,
    }
}

/// The description of an instruction, with its operand in `{:#X}` form.
pub open spec fn op_description(op: OpCode) -> Seq<char> {
    match op {
        OpCode::Return => "Return"@,
        OpCode::Constant { offset } => "Constant with offset "@ + alt_hex(offset as nat),
        OpCode::Push { size } => "Push with size "@ + alt_hex(size as nat),
        OpCode::Pop => "Pop"@,
        OpCode::Add => "Add"@,
        OpCode::Subtract => "Subtract"@,
        OpCode::Multiply => "Multiply"@,
        OpCode::Divide => "Divide"@,
        OpCode::Negate => "Negate"@,
        OpCode::Equal => "Equal"@,
        OpCode::GreaterThan => "Greater Than"@,
        OpCode::LessThan => "Less Than"@,
        OpCode::JumpLocal { offset } => "Jump (local) unconditional with offset "@ + alt_hex(
            (offset as u8) as nat,
        ),
        OpCode::JumpLocalIfFalse { offset } => "Jump (local) if false with offset "@ + alt_hex(
            (offset as u8) as nat,
        ),
        OpCode::JumpFar { offset } => "Jump (far) unconditional with offset "@ + alt_hex(
            (offset as u64) as nat,
        ),
        OpCode::JumpFarIfFalse { offset } => "Jump (far) if false with offset "@ + alt_hex(
            (offset as u64) as nat,
        ),
        OpCode::DefineGlobal { offset } => "Define global variable with offset "@ + alt_hex(
            offset as nat,
        ),
        OpCode::GetGlobal { offset } => "Retrieve global variable with offset "@ + alt_hex(
            offset as nat,
        ),
        OpCode::DefineLocal { offset } => "Define local variable with offset "@ + alt_hex(
            offset as nat,
        ),
        OpCode::GetLocal { offset } => "Get local variable with offset "@ + alt_hex(offset as nat),
        OpCode::DebugPrint => "Debug print"@,
        OpCode::Noop => "Noop"@,
    }
}

/// Whether moving the constant-pool operand of `op` up by `base` stays within a machine word.
pub open spec fn op_relocatable(op: OpCode, base: nat) -> bool {
    match op {
        OpCode::Constant { offset } => offset + base <= usize::MAX,
        OpCode::DefineGlobal { offset } => offset + base <= usize::MAX,
        OpCode::GetGlobal { offset } => offset + base <= usize::MAX,
        _ => true,
    }
}

/// `op` with its constant-pool operand (if it has one) moved up by `base`.
pub open spec fn op_relocated(op: OpCode, base: nat) -> OpCode {
    match op {
        OpCode::Constant { offset } => OpCode::Constant { offset: (offset + base) as usize },
        OpCode::DefineGlobal { offset } => OpCode::DefineGlobal { offset: (offset + base) as usize },
        OpCode::GetGlobal { offset } => OpCode::GetGlobal { offset: (offset + base) as usize },
        _ => op,
    }
}

/// Relocating never changes the size of an instruction, relocating by nothing
/// changes nothing, and two relocations add up.
pub proof fn lemma_relocation_laws(op: OpCode, a: nat, b: nat)
    ensures
        op_size(op_relocated(op, a)) == op_size(op),
        op_hexcode(op_relocated(op, a)) == op_hexcode(op),
        op_relocated(op, 0) == op,
        op_relocatable(op, a + b) ==> op_relocatable(op, a) && op_relocatable(op_relocated(op, a), b)
            && op_relocated(op_relocated(op, a), b) == op_relocated(op, a + b),
{
}

fn described(prefix: &str, n: u64) -> (r: String)
    ensures
        r@ == prefix@ + alt_hex(n as nat),
{
    let mut s = string_from_str(prefix);
    let h = alt_hex_string(n);
    push_str(&mut s, h.as_str());
    s
}

impl OpCode {
    /// The size of the OpCode in bytes when assembled to disk.
    pub fn size(&self) -> (r: usize)
        ensures
            r == op_size(*self),
    {
        match self {
            OpCode::Return => 1,
            OpCode::Constant { offset: _ } => 2,
            OpCode::Push { size: _ } => 9,
            OpCode::Pop => 1,
            OpCode::Add => 1,
            OpCode::Subtract => 1,
            OpCode::Multiply => 1,
            OpCode::Divide => 1,
            OpCode::Negate => 1,
            OpCode::Equal => 1,
            OpCode::GreaterThan => 1,
            OpCode::LessThan => 1,
            OpCode::JumpLocal { offset: _ } => 2,
            OpCode::JumpLocalIfFalse { offset: _ } => 2,
            OpCode::DefineGlobal { offset: _ } => 2,
            OpCode::GetGlobal { offset: _ } => 2,
            OpCode::DefineLocal { offset: _ } => 2,
            OpCode::GetLocal { offset: _ } => 2,
            OpCode::DebugPrint => 1,
            OpCode::JumpFar { offset: _ } => 9,
            OpCode::JumpFarIfFalse { offset: _ } => 9,
            OpCode::Noop => 1,
        }
    }

    /// A description of the instruction for listings.
    pub fn human_readable(&self) -> (r: String)
        ensures
            r@ == op_description(*self),
    {
        match self {
            OpCode::Return => string_from_str("Return"),
            OpCode::Constant { offset } => described("Constant with offset ", *offset as u64),
            OpCode::Push { size } => described("Push with size ", *size as u64),
            OpCode::Pop => string_from_str("Pop"),
            OpCode::Add => string_from_str("Add"),
            OpCode::Subtract => string_from_str("Subtract"),
            OpCode::Multiply => string_from_str("Multiply"),
            OpCode::Divide => string_from_str("Divide"),
            OpCode::Negate => string_from_str("Negate"),
            OpCode::Equal => string_from_str("Equal"),
            OpCode::GreaterThan => string_from_str("Greater Than"),
            OpCode::LessThan => string_from_str("Less Than"),
            OpCode::JumpLocal { offset } => described(
                "Jump (local) unconditional with offset ",
                (*offset as u8) as u64,
            ),
            OpCode::JumpLocalIfFalse { offset } => described(
                "Jump (local) if false with offset ",
                (*offset as u8) as u64,
            ),
            OpCode::JumpFar { offset } => described(
                "Jump (far) unconditional with offset ",
                *offset as u64,
            ),
            OpCode::JumpFarIfFalse { offset } => described(
                "Jump (far) if false with offset ",
                *offset as u64,
            ),
            OpCode::DefineGlobal { offset } => described(
                "Define global variable with offset ",
                *offset as u64,
            ),
            OpCode::GetGlobal { offset } => described(
                "Retrieve global variable with offset ",
                *offset as u64,
            ),
            OpCode::DefineLocal { offset } => described(
                "Define local variable with offset ",
                *offset as u64,
            ),
            OpCode::GetLocal { offset } => described(
                "Get local variable with offset ",
                *offset as u64,
            ),
            OpCode::DebugPrint => string_from_str("Debug print"),
            OpCode::Noop => string_from_str("Noop"),
        }
    }

    /// The byte that identifies this instruction in assembled code.
    pub fn as_hexcode(&self) -> (r: usize)
        ensures
            r == op_hexcode(*self),
    {
        match self {
            OpCode::Return => 0x0,
            OpCode::Constant { offset: _ } => 0x1,
            OpCode::Push { size: _ } => 0x2,
            OpCode::Pop => 0x3,
            OpCode::Add => 0x4,
            OpCode::Subtract => 0x5,
            OpCode::Multiply => 0x6,
            OpCode::Divide => 0x7,
            OpCode::Negate => 0x8,
            OpCode::Equal => 0x9,
            OpCode::GreaterThan => 0xA,
            OpCode::LessThan => 0xB,
            OpCode::JumpLocal { offset: _ } => 0xD0,
            OpCode::JumpLocalIfFalse { offset: _ } => 0xD1,
            OpCode::JumpFar { offset: _ } => 0xD2,
            OpCode::JumpFarIfFalse { offset: _ } => 0xD3,
            OpCode::DefineGlobal { offset: _ } => 0xC0,
            OpCode::GetGlobal { offset: _ } => 0xC1,
            OpCode::DefineLocal { offset: _ } => 0xC2,
            OpCode::GetLocal { offset: _ } => 0xC3,
            OpCode::DebugPrint => 0xFF,
            OpCode::Noop => 0xFD,
        }
    }

    /// Moves the constant-pool operand of the instruction (of `Constant`,
    /// `DefineGlobal` and `GetGlobal`) up by `new_base`; other instructions are unchanged.
    pub fn relocate_constants(self, new_base: usize) -> (r: OpCode)
        requires
            op_relocatable(self, new_base as nat),
        ensures
            r == op_relocated(self, new_base as nat),
    {
        match self {
            OpCode::Constant { offset } => OpCode::Constant { offset: offset + new_base },
            OpCode::DefineGlobal { offset } => OpCode::DefineGlobal { offset: offset + new_base },
            OpCode::GetGlobal { offset } => OpCode::GetGlobal { offset: offset + new_base },
            _ => self,
        }
    }
}

} // verus!
