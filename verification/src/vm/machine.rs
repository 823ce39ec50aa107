//! The machine: its state, and one step of running an assembled chunk.
//!
//! Running a chunk alternates decisions, made here, with work that is done
//! outside: printing a value, and arithmetic and comparisons on doubles. A
//! caller starts with `begin`, then calls `step` until it says `Finished`; where
//! a step asks for a double to be combined, the caller computes the result and
//! hands it back with `push_value` before the next step.

use std::rc::Rc;
use vstd::prelude::*;
use crate::bytecode::{
    CHUNK_HEADER, ThetaValue, ValView, ThetaHeapValue, ThetaString, ThetaCompiledFunction, ThetaCompiledBitstream, share,
    from_le_bytes, read_le_bytes, holds_at, bytes_match,
};
use crate::text::{lex_order, text_order, lemma_lex_order_laws};
use super::names::NameTable;
use super::stack::{ThetaStack, StackView, initial_stack, values_view, ref_view, slot_view, lemma_push_then_pop};

verus! {

broadcast use vstd::array::axiom_spec_array_as_slice;

/// Why the machine cannot go on.
#[derive(Debug, Clone, Copy, PartialEq, Eq, Structural)]
pub enum VmError {
    /// The chunk does not start with the chunk header and its size.
    InvalidHeader,
    /// An instruction's operand bytes run past the end of the chunk.
    Truncated,
    /// An instruction needs a value that is not on the stack.
    StackEmpty,
    /// The operands do not fit the instruction.
    InvalidOperands,
    /// The result of integer arithmetic does not fit in 64 bits.
    IntegerOverflow,
    /// An integer was divided by zero.
    DivideByZero,
    /// The instruction is not implemented for these operands (negating an integer).
    Unsupported,
    /// A constant index past the end of the constants.
    ConstantOutOfRange,
    /// The constant that names a global is not a string.
    NotAName,
    /// A global is read that was never defined.
    UndefinedGlobal,
    /// A local is written past the end of the frame.
    LocalOutOfRange,
    /// A local is read that does not hold a value.
    NoLocal,
    /// A conditional jump finds no boolean on top of the stack.
    NotABool,
    /// A jump leaves the range of addresses.
    JumpOutOfRange,
    /// More frame space is asked for than can be addressed.
    FrameSpaceOverflow,
    /// A byte that names no instruction.
    UnknownOpcode(u8),
}

/// An operation on two doubles, which the caller of `step` carries out.
#[derive(Debug, Clone, Copy, PartialEq, Eq, Structural)]
pub enum FloatOp {
    Add,
    Subtract,
    Multiply,
    Divide,
    Equal,
    GreaterThan,
    LessThan,
}

/// What a step leaves the caller to do, and where the next step starts.
#[derive(Debug)]
pub enum Step {
    /// Nothing; the next step starts at the given offset.
    Continue(usize),
    /// Print the value taken off the stack (or its absence).
    Print(Option<ThetaValue>, usize),
    /// Combine two doubles, given by their bits, and push the result
    /// (`Double` for arithmetic, `Bool` for a comparison).
    Float { op: FloatOp, left: u64, right: u64, next: usize },
    /// The chunk has run to its end.
    Finished,
}

/// A step's outcome seen mathematically.
pub enum StepView {
    Continue(nat),
    Print(Option<ValView>, nat),
    Float { op: FloatOp, left: u64, right: u64, next: nat },
    Finished,
}

pub open spec fn step_view(s: Step) -> StepView {
    match s {
        Step::Continue(n) => StepView::Continue(n as nat),
        Step::Print(v, n) => StepView::Print(slot_view(v), n as nat),
        Step::Float { op, left, right, next } => StepView::Float { op, left, right, next: next as nat },
        Step::Finished => StepView::Finished,
    }
}

/// The machine seen mathematically: its call stack, the strings it has interned,
/// its heap, the constants of the code it runs, the bitstreams it has loaded and
/// where each function name leads (the bitstream, and the function in it).
pub struct VmView {
    pub stack: StackView,
    pub strings: Set<Seq<char>>,
    pub heap: Seq<Seq<char>>,
    pub constants: Seq<ValView>,
    pub loaded: Seq<ThetaCompiledBitstream>,
    pub functions: Map<Seq<char>, (usize, usize)>,
}

impl VmView {
    pub open spec fn with_stack(self, s: StackView) -> VmView {
        VmView { stack: s, ..self }
    }

    /// The machine after `v` is pushed.
    pub open spec fn push(self, v: ValView) -> VmView {
        self.with_stack(self.stack.pushed(v))
    }

    /// The machine after the string `s` is interned: a string not seen before is
    /// recorded and put on the heap.
    pub open spec fn interned(self, s: Seq<char>) -> VmView {
        if self.strings.contains(s) {
            self
        } else {
            VmView { strings: self.strings.insert(s), heap: self.heap.push(s), ..self }
        }
    }

    /// The two values on top of the innermost frame, the upper one second.
    pub open spec fn operands(self) -> Option<(ValView, ValView)> {
        self.stack.top_pair()
    }

    /// The machine with the two top slots of the innermost frame taken off.
    pub open spec fn without_operands(self) -> VmView {
        self.with_stack(self.stack.without_top_pair())
    }

    /// The machine with its top slot taken off.
    pub open spec fn popped(self) -> VmView {
        self.with_stack(self.stack.popped())
    }
}

/// The machine before anything is loaded.
pub open spec fn initial_machine() -> VmView {
    VmView {
        stack: initial_stack(),
        strings: Set::empty(),
        heap: seq![],
        constants: seq![],
        loaded: seq![],
        functions: Map::empty(),
    }
}

/// The instructions that take two operands: add, subtract, multiply, divide,
/// equal, greater than, less than.
pub open spec fn is_binary(code: u8) -> bool {
    code == 0x4 || code == 0x5 || code == 0x6 || code == 0x7 || code == 0x9 || code == 0xA || code == 0xB
}

/// The operation on doubles of a two-operand instruction.
pub open spec fn float_op(code: u8) -> FloatOp {
    if code == 0x4 {
        FloatOp::Add
    } else if code == 0x5 {
        FloatOp::Subtract
    } else if code == 0x6 {
        FloatOp::Multiply
    } else if code == 0x7 {
        FloatOp::Divide
    } else if code == 0x9 {
        FloatOp::Equal
    } else if code == 0xA {
        FloatOp::GreaterThan
    } else {
        FloatOp::LessThan
    }
}

pub open spec fn abs(a: int) -> int {
    if a < 0 { -a } else { a }
}

/// Integer division rounded toward zero.
pub open spec fn trunc_div(a: int, b: int) -> int {
    if (a < 0) == (b < 0) { abs(a) / abs(b) } else { -(abs(a) / abs(b)) }
}

/// What a two-operand instruction makes of two integers.
pub open spec fn int_result(code: u8, a: i64, b: i64) -> Result<ValView, VmError> {
    if code == 0x9 {
        Ok(ValView::Bool(a == b))
    } else if code == 0xA {
        Ok(ValView::Bool(a > b))
    } else if code == 0xB {
        Ok(ValView::Bool(a < b))
    } else if code == 0x7 && b == 0 {
        Err(VmError::DivideByZero)
    } else {
        let v: int = if code == 0x4 {
            a + b
        } else if code == 0x5 {
            a - b
        } else if code == 0x6 {
            a * b
        } else {
            trunc_div(a as int, b as int)
        };
        if i64::MIN <= v <= i64::MAX {
            Ok(ValView::Int(v as i64))
        } else {
            Err(VmError::IntegerOverflow)
        }
    }
}

/// What a two-operand instruction makes of its operands: a value, a new string to
/// be interned, or an operation on doubles for the caller.
pub enum Combined {
    Value(ValView),
    Text(Seq<char>),
    Float(FloatOp, u64, u64),
}

pub open spec fn combined(code: u8, l: ValView, r: ValView) -> Result<Combined, VmError> {
    match (l, r) {
        (ValView::Double(a), ValView::Double(b)) => Ok(Combined::Float(float_op(code), a, b)),
        (ValView::Int(a), ValView::Int(b)) => match int_result(code, a, b) {
            Ok(v) => Ok(Combined::Value(v)),
            Err(e) => Err(e),
        },
        (ValView::Bool(a), ValView::Bool(b)) => if code == 0x9 {
            Ok(Combined::Value(ValView::Bool(a == b)))
        } else {
            Err(VmError::InvalidOperands)
        },
        (ValView::Str(a), ValView::Str(b)) => if code == 0x4 {
            Ok(Combined::Text(a + b))
        } else if code == 0x9 {
            Ok(Combined::Value(ValView::Bool(a == b)))
        } else if code == 0xA {
            Ok(Combined::Value(ValView::Bool(lex_order(a, b) == 1)))
        } else if code == 0xB {
            Ok(Combined::Value(ValView::Bool(lex_order(a, b) == -1)))
        } else {
            Err(VmError::InvalidOperands)
        },
        _ => Err(VmError::InvalidOperands),
    }
}

/// A two-operand instruction: the operands are taken off, and the result pushed.
pub open spec fn binary_step(m: VmView, code: u8, next: nat) -> Result<(VmView, StepView), VmError> {
    match m.operands() {
        None => Err(VmError::StackEmpty),
        Some((l, r)) => match combined(code, l, r) {
            Err(e) => Err(e),
            Ok(c) => {
                let d = m.without_operands();
                match c {
                    Combined::Value(v) => Ok((d.push(v), StepView::Continue(next))),
                    Combined::Text(s) => Ok((d.interned(s).push(ValView::Str(s)), StepView::Continue(next))),
                    Combined::Float(op, a, b) => Ok((d, StepView::Float { op, left: a, right: b, next })),
                }
            },
        },
    }
}

/// The bit that holds the sign of a double.
pub const SIGN_BIT: u64 = 0x8000_0000_0000_0000;

/// Negation: a double's sign is flipped.
pub open spec fn negate_step(m: VmView, next: nat) -> Result<(VmView, StepView), VmError> {
    match m.stack.peeked() {
        None => Err(VmError::StackEmpty),
        Some(ValView::Double(d)) => Ok((m.popped().push(ValView::Double(d ^ SIGN_BIT)), StepView::Continue(next))),
        Some(ValView::Int(_)) => Err(VmError::Unsupported),
        Some(_) => Err(VmError::InvalidOperands),
    }
}

/// Where a jump of `delta` from `at` lands.
pub open spec fn jump_target(at: nat, delta: int) -> Result<nat, VmError> {
    if 0 <= at + delta <= usize::MAX {
        Ok((at + delta) as nat)
    } else {
        Err(VmError::JumpOutOfRange)
    }
}

/// The name that constant `i` gives a global.
pub open spec fn global_name(m: VmView, i: nat) -> Result<Seq<char>, VmError> {
    if i >= m.constants.len() {
        Err(VmError::ConstantOutOfRange)
    } else {
        match m.constants[i as int] {
            ValView::Str(n) => Ok(n),
            _ => Err(VmError::NotAName),
        }
    }
}

/// Continuing at the target of a jump.
pub open spec fn jumped(m: VmView, t: Result<nat, VmError>) -> Result<(VmView, StepView), VmError> {
    match t {
        Ok(n) => Ok((m, StepView::Continue(n))),
        Err(e) => Err(e),
    }
}

/// A conditional jump of `len` bytes: taken where the top of the stack is
/// `false`; where it is `true`, the step goes on past the jump.
pub open spec fn branch_step(m: VmView, at: nat, delta: int, len: nat) -> Result<(VmView, StepView), VmError> {
    match m.stack.peeked() {
        Some(ValView::Bool(false)) => jumped(m, jump_target(at, delta)),
        Some(ValView::Bool(true)) => Ok((m, StepView::Continue(at + len))),
        _ => Err(VmError::NotABool),
    }
}

/// An instruction with a one-byte operand `b`, at `at`.
pub open spec fn byte_step(m: VmView, code: u8, b: u8, at: nat) -> Result<(VmView, StepView), VmError> {
    let next = at + 2;
    if code == 0x1 {
        if b >= m.constants.len() {
            Err(VmError::ConstantOutOfRange)
        } else {
            Ok((m.push(m.constants[b as int]), StepView::Continue(next)))
        }
    } else if code == 0xC0 {
        match global_name(m, b as nat) {
            Err(e) => Err(e),
            Ok(n) => match m.stack.peeked() {
                None => Err(VmError::StackEmpty),
                Some(v) => Ok((
                    m.with_stack(StackView { globals: m.stack.globals.insert(n, v), ..m.stack }.popped()),
                    StepView::Continue(next),
                )),
            },
        }
    } else if code == 0xC1 {
        match global_name(m, b as nat) {
            Err(e) => Err(e),
            Ok(n) => if m.stack.globals.contains_key(n) {
                Ok((m.push(m.stack.globals[n]), StepView::Continue(next)))
            } else {
                Err(VmError::UndefinedGlobal)
            },
        }
    } else if code == 0xC2 {
        match m.stack.peeked() {
            None => Err(VmError::StackEmpty),
            Some(v) => if b < m.stack.top().locals.len() {
                Ok((
                    m.with_stack(m.stack.with_locals(m.stack.top().locals.update(b as int, Some(v)))),
                    StepView::Continue(next),
                ))
            } else {
                Err(VmError::LocalOutOfRange)
            },
        }
    } else if code == 0xC3 {
        match m.stack.local(b as int) {
            Some(v) => Ok((m.push(v), StepView::Continue(next))),
            None => Err(VmError::NoLocal),
        }
    } else if code == 0xD0 {
        jumped(m, jump_target(at, (b as i8) as int))
    } else {
        branch_step(m, at, (b as i8) as int, 2)
    }
}

/// An instruction with an eight-byte operand `w`, at `at`.
pub open spec fn word_step(m: VmView, code: u8, w: u64, at: nat) -> Result<(VmView, StepView), VmError> {
    if code == 0x2 {
        if m.stack.top().locals.len() + w > usize::MAX {
            Err(VmError::FrameSpaceOverflow)
        } else {
            Ok((
                m.with_stack(m.stack.with_locals(m.stack.top().locals + Seq::new(w as nat, |i: int| None::<ValView>))),
                StepView::Continue(at + 9),
            ))
        }
    } else if code == 0xD2 {
        jumped(m, jump_target(at, (w as i64) as int))
    } else {
        branch_step(m, at, (w as i64) as int, 9)
    }
}

/// One step of running `code` from `at`: what the machine becomes and what is
/// left to the caller, or why it cannot go on.
///
/// Every state in which an instruction cannot be carried out is an error here:
/// fewer than two values for a two-operand instruction or operands of kinds it
/// does not take, a conditional jump with no boolean on top, reading a global
/// that was never defined, a global's name constant that is not a string,
/// defining a global from an empty stack, and the others that `VmError` lists.
/// `VM::step` runs only where there is none; `VM::try_step` reports it.
pub open spec fn step_spec(m: VmView, code: Seq<u8>, at: nat) -> Result<(VmView, StepView), VmError> {
    if at >= code.len() {
        Ok((m, StepView::Finished))
    } else {
        let op = code[at as int];
        if op == 0x0 || op == 0xFF {
            Ok((m.popped(), StepView::Print(m.stack.peeked(), at + 1)))
        } else if op == 0x3 {
            Ok((m.popped(), StepView::Continue(at + 1)))
        } else if op == 0xFD {
            Ok((m, StepView::Continue(at + 1)))
        } else if is_binary(op) {
            binary_step(m, op, at + 1)
        } else if op == 0x8 {
            negate_step(m, at + 1)
        } else if op == 0x1 || op == 0xC0 || op == 0xC1 || op == 0xC2 || op == 0xC3 || op == 0xD0 || op == 0xD1 {
            if at + 2 > code.len() {
                Err(VmError::Truncated)
            } else {
                byte_step(m, op, code[at + 1int], at)
            }
        } else if op == 0x2 || op == 0xD2 || op == 0xD3 {
            if at + 9 > code.len() {
                Err(VmError::Truncated)
            } else {
                word_step(m, op, from_le_bytes(code.subrange(at + 1int, at + 9int)), at)
            }
        } else {
            Err(VmError::UnknownOpcode(op))
        }
    }
}

/// Where the instructions of a chunk start: past the header and the size, once
/// both are there.
pub open spec fn begin_spec(code: Seq<u8>) -> Result<nat, VmError> {
    if !holds_at(code, 0, CHUNK_HEADER@) {
        Err(VmError::InvalidHeader)
    } else if code.len() < 16 {
        Err(VmError::Truncated)
    } else {
        Ok(16)
    }
}

} // verus!

verus! {

/// Which bitstream, and which function in it, each function name leads to
/// after the functions `fs` of bitstream `b` are registered in order.
pub open spec fn registered(
    table: Map<Seq<char>, (usize, usize)>,
    fs: Seq<ThetaCompiledFunction>,
    b: usize,
) -> Map<Seq<char>, (usize, usize)>
    decreases fs.len(),
{
    if fs.len() == 0 {
        table
    } else {
        registered(table, fs.drop_last(), b).insert(fs.last().name@, (b, (fs.len() - 1) as usize))
    }
}

/// What a two-operand instruction makes of its operands, before the machine changes.
enum Outcome {
    Value(ThetaValue),
    Text(ThetaString),
    Float(FloatOp, u64, u64),
}

spec fn outcome_view(o: Outcome) -> Combined {
    match o {
        Outcome::Value(v) => Combined::Value(v@),
        Outcome::Text(s) => Combined::Text(s@),
        Outcome::Float(op, a, b) => Combined::Float(op, a, b),
    }
}

fn float_op_of(code: u8) -> (r: FloatOp)
    ensures
        r == float_op(code),
{
    if code == 0x4 {
        FloatOp::Add
    } else if code == 0x5 {
        FloatOp::Subtract
    } else if code == 0x6 {
        FloatOp::Multiply
    } else if code == 0x7 {
        FloatOp::Divide
    } else if code == 0x9 {
        FloatOp::Equal
    } else if code == 0xA {
        FloatOp::GreaterThan
    } else {
        FloatOp::LessThan
    }
}

proof fn lemma_quotient_bounds(x: u128, y: u128)
    requires
        y >= 1,
    ensures
        x / y <= x,
        y >= 2 ==> x / y <= x / 2,
{
    assert(x / y <= x) by (nonlinear_arith)
        requires
            y >= 1,
    ;
    assert(y >= 2 ==> x / y <= x / 2) by (nonlinear_arith);
}

/// Integer division rounded toward zero.
fn div_trunc(a: i64, b: i64) -> (q: i64)
    requires
        b != 0,
        !(a == i64::MIN && b == -1),
    ensures
        q == trunc_div(a as int, b as int),
{
    let x: u128 = if a < 0 { (0i128 - a as i128) as u128 } else { a as u128 };
    let y: u128 = if b < 0 { (0i128 - b as i128) as u128 } else { b as u128 };
    assert(x == abs(a as int) && y == abs(b as int));
    let q: u128 = x / y;
    proof {
        lemma_quotient_bounds(x, y);
    }
    if (a < 0) == (b < 0) {
        q as i64
    } else {
        (0i128 - q as i128) as i64
    }
}

/// What a two-operand instruction makes of two integers, as `int_result` says.
fn int_op(code: u8, a: i64, b: i64) -> (r: Result<ThetaValue, VmError>)
    requires
        is_binary(code),
    ensures
        match int_result(code, a, b) {
            Ok(v) => r is Ok && r->Ok_0@ == v,
            Err(e) => r == Err::<ThetaValue, VmError>(e),
        },
{
    if code == 0x9 {
        Ok(ThetaValue::Bool(a == b))
    } else if code == 0xA {
        Ok(ThetaValue::Bool(a > b))
    } else if code == 0xB {
        Ok(ThetaValue::Bool(a < b))
    } else if code == 0x7 && b == 0 {
        Err(VmError::DivideByZero)
    } else if code == 0x4 {
        match a.checked_add(b) {
            Some(v) => Ok(ThetaValue::Int(v)),
            None => Err(VmError::IntegerOverflow),
        }
    } else if code == 0x5 {
        match a.checked_sub(b) {
            Some(v) => Ok(ThetaValue::Int(v)),
            None => Err(VmError::IntegerOverflow),
        }
    } else if code == 0x6 {
        match a.checked_mul(b) {
            Some(v) => Ok(ThetaValue::Int(v)),
            None => Err(VmError::IntegerOverflow),
        }
    } else if a == i64::MIN && b == -1 {
        assert(trunc_div(a as int, b as int) == 0x8000_0000_0000_0000int) by {
            assert(abs(a as int) / abs(b as int) == 0x8000_0000_0000_0000int / 1int);
        }
        Err(VmError::IntegerOverflow)
    } else {
        Ok(ThetaValue::Int(div_trunc(a, b)))
    }
}

/// What a two-operand instruction makes of its operands, as `combined` says.
fn combine_values(code: u8, l: &ThetaValue, r: &ThetaValue) -> (res: Result<Outcome, VmError>)
    requires
        is_binary(code),
    ensures
        match combined(code, l@, r@) {
            Ok(c) => res is Ok && outcome_view(res->Ok_0) == c,
            Err(e) => res == Err::<Outcome, VmError>(e),
        },
{
    match (l, r) {
        (ThetaValue::Double(a), ThetaValue::Double(b)) => Ok(Outcome::Float(float_op_of(code), *a, *b)),
        (ThetaValue::Int(a), ThetaValue::Int(b)) => match int_op(code, *a, *b) {
            Ok(v) => Ok(Outcome::Value(v)),
            Err(e) => Err(e),
        },
        (ThetaValue::Bool(a), ThetaValue::Bool(b)) => {
            if code == 0x9 {
                Ok(Outcome::Value(ThetaValue::Bool(*a == *b)))
            } else {
                Err(VmError::InvalidOperands)
            }
        },
        (ThetaValue::HeapValue(lh), ThetaValue::HeapValue(rh)) => {
            match (&**lh, &**rh) {
                (ThetaHeapValue::Str(ls), ThetaHeapValue::Str(rs)) => {
                    if code == 0x4 {
                        Ok(Outcome::Text(ThetaString::new(ls.as_string().clone()).add(rs)))
                    } else if code == 0x9 {
                        Ok(Outcome::Value(ThetaValue::Bool(ls.equals(rs))))
                    } else if code == 0xA {
                        let o = text_order(ls.as_string().as_str(), rs.as_string().as_str());
                        Ok(Outcome::Value(ThetaValue::Bool(o == 1)))
                    } else if code == 0xB {
                        let o = text_order(ls.as_string().as_str(), rs.as_string().as_str());
                        Ok(Outcome::Value(ThetaValue::Bool(o == -1)))
                    } else {
                        Err(VmError::InvalidOperands)
                    }
                },
            }
        },
        _ => Err(VmError::InvalidOperands),
    }
}

/// Where a jump of `delta` from `at` lands, as `jump_target` says.
fn jump(at: usize, delta: i64) -> (r: Result<usize, VmError>)
    ensures
        match jump_target(at as nat, delta as int) {
            Ok(t) => r == Ok::<usize, VmError>(t as usize),
            Err(e) => r == Err::<usize, VmError>(e),
        },
{
    let t: i128 = at as i128 + delta as i128;
    if t < 0 || t > usize::MAX as i128 {
        Err(VmError::JumpOutOfRange)
    } else {
        Ok(t as usize)
    }
}

/// The stack machine.
#[derive(Debug)]
pub struct VM {
    stack: ThetaStack,
    strings: NameTable<Rc<ThetaHeapValue>>,
    heap: Vec<Rc<ThetaHeapValue>>,
    current: Rc<ThetaCompiledBitstream>,
    loaded_bitstreams: Vec<Rc<ThetaCompiledBitstream>>,
    function_table: NameTable<(usize, usize)>,
}

impl View for VM {
    type V = VmView;

    closed spec fn view(&self) -> VmView {
        VmView {
            stack: self.stack@,
            strings: self.strings@.dom(),
            heap: self.heap@.map_values(|h: Rc<ThetaHeapValue>| h@),
            constants: values_view(self.current.constants@),
            loaded: self.loaded_bitstreams@.map_values(|b: Rc<ThetaCompiledBitstream>| *b),
            functions: self.function_table@,
        }
    }
}

impl VM {
    /// The machine always has a frame, its tables keep each name once, and each
    /// interned string is recorded under its own characters.
    pub closed spec fn wf(&self) -> bool {
        &&& self.stack.wf()
        &&& self.stack@.frames.len() > 0
        &&& self.strings.wf()
        &&& self.function_table.wf()
        &&& forall|k: Seq<char>| #[trigger] self.strings@.contains_key(k) ==> self.strings@[k]@ == k
    }

    pub fn new() -> (r: VM)
        ensures
            r.wf(),
            r@ == initial_machine(),
    {
        let r = VM {
            stack: ThetaStack::new(),
            strings: NameTable::new(),
            heap: Vec::new(),
            current: Rc::new(ThetaCompiledBitstream::new()),
            loaded_bitstreams: Vec::new(),
            function_table: NameTable::new(),
        };
        assert(r@.heap =~= seq![]);
        assert(r@.constants =~= seq![]);
        assert(r@.loaded =~= seq![]);
        assert(r@.strings =~= Set::empty());
        r
    }

    /// The interned strings, by their characters.
    pub fn strings(&self) -> (r: &NameTable<Rc<ThetaHeapValue>>)
        ensures
            r@.dom() == self@.strings,
    {
        &self.strings
    }

    pub fn stack(&self) -> (r: &ThetaStack)
        ensures
            r@ == self@.stack,
    {
        &self.stack
    }

    pub fn heap(&self) -> (r: &Vec<Rc<ThetaHeapValue>>)
        ensures
            r@.map_values(|h: Rc<ThetaHeapValue>| h@) == self@.heap,
    {
        &self.heap
    }

    pub fn globals(&self) -> (r: &NameTable<ThetaValue>)
        ensures
            r@.map_values(|v: ThetaValue| v@) == self@.stack.globals,
    {
        self.stack.globals()
    }

    /// The constants of the code being run: those of the bitstream loaded last.
    pub fn constants(&self) -> (r: &Vec<ThetaValue>)
        ensures
            values_view(r@) == self@.constants,
    {
        &self.current.constants
    }

    /// Where each function name leads: the bitstream, and the function in it.
    pub fn functions(&self) -> (r: &NameTable<(usize, usize)>)
        ensures
            r@ == self@.functions,
    {
        &self.function_table
    }

    /// The bitstreams loaded so far, in order.
    pub fn loaded_bitstreams(&self) -> (r: &Vec<Rc<ThetaCompiledBitstream>>)
        ensures
            r@.map_values(|b: Rc<ThetaCompiledBitstream>| *b) == self@.loaded,
    {
        &self.loaded_bitstreams
    }

    /// The one heap value that holds the characters of `s_val`: it is made and
    /// recorded the first time they are seen, and shared after that.
    pub fn intern_string(&mut self, s_val: ThetaString) -> (r: ThetaValue)
        requires
            old(self).wf(),
        ensures
            final(self).wf(),
            final(self)@ == old(self)@.interned(s_val@),
            r@ == ValView::Str(s_val@),
    {
        let key: String = s_val.as_string().clone();
        let found: Option<ThetaValue> = match self.strings.get(&key) {
            Some(rc) => Some(ThetaValue::HeapValue(share(rc))),
            None => None,
        };
        match found {
            Some(v) => v,
            None => {
                let rc = Rc::new(ThetaHeapValue::Str(s_val));
                self.strings.insert(key, share(&rc));
                self.heap.push(share(&rc));
                assert(self@.heap =~= old(self)@.heap.push(s_val@));
                assert(self@.strings =~= old(self)@.strings.insert(s_val@));
                ThetaValue::HeapValue(rc)
            },
        }
    }

    /// Loads a bitstream: its constants become those of the code being run, and
    /// each of its functions is registered under its name, a later one replacing
    /// an earlier one.
    pub fn load_bitstream(&mut self, bs: ThetaCompiledBitstream) -> (r: Rc<ThetaCompiledBitstream>)
        requires
            old(self).wf(),
        ensures
            final(self).wf(),
            *r == bs,
            final(self)@ == (VmView {
                constants: values_view(bs.constants@),
                loaded: old(self)@.loaded.push(bs),
                functions: registered(old(self)@.functions, bs.functions@, old(self)@.loaded.len() as usize),
                ..old(self)@
            }),
    {
        let b = self.loaded_bitstreams.len();
        let rc = Rc::new(bs);
        self.loaded_bitstreams.push(share(&rc));
        let mut i: usize = 0;
        while i < rc.functions.len()
            invariant
                i <= rc.functions@.len(),
                *rc == bs,
                b == old(self).loaded_bitstreams@.len(),
                self.function_table.wf(),
                self.function_table@ == registered(old(self).function_table@, bs.functions@.subrange(0, i as int), b),
                self.stack == old(self).stack,
                self.strings == old(self).strings,
                self.heap == old(self).heap,
                self.current == old(self).current,
                self.loaded_bitstreams@ == old(self).loaded_bitstreams@.push(rc),
            decreases rc.functions@.len() - i,
        {
            let name: String = rc.functions[i].name.as_string().clone();
            self.function_table.insert(name, (b, i));
            i = i + 1;
            assert(bs.functions@.subrange(0, i as int).drop_last() =~= bs.functions@.subrange(0, i - 1));
        }
        assert(bs.functions@.subrange(0, i as int) =~= bs.functions@);
        self.current = share(&rc);
        assert(self@.loaded =~= old(self)@.loaded.push(bs));
        rc
    }

    /// Where the instructions of `chunk` start, for a chunk that starts with
    /// the chunk header and its size.
    pub fn begin(chunk: &[u8]) -> (r: usize)
        requires
            begin_spec(chunk@) is Ok,
        ensures
            r == begin_spec(chunk@)->Ok_0,
    {
        match VM::try_begin(chunk) {
            Ok(n) => n,
            Err(_) => 16,
        }
    }

    /// Checks where the instructions of `chunk` start, as `begin_spec` says: a
    /// chunk without its header or its size is answered with the error that
    /// names the fault.
    pub fn try_begin(chunk: &[u8]) -> (r: Result<usize, VmError>)
        ensures
            match begin_spec(chunk@) {
                Ok(n) => r == Ok::<usize, VmError>(n as usize),
                Err(e) => r == Err::<usize, VmError>(e),
            },
    {
        if !bytes_match(chunk, 0, CHUNK_HEADER.as_slice()) {
            Err(VmError::InvalidHeader)
        } else if chunk.len() < 16 {
            Err(VmError::Truncated)
        } else {
            Ok(16)
        }
    }

    /// Pushes a value, such as the result of an operation on doubles.
    pub fn push_value(&mut self, v: ThetaValue)
        requires
            old(self).wf(),
        ensures
            final(self).wf(),
            final(self)@ == old(self)@.push(v@),
    {
        self.stack.push(v);
    }

    fn constant(&self, i: usize) -> (r: Option<&ThetaValue>)
        ensures
            ref_view(r) == (if i < self@.constants.len() { Some(self@.constants[i as int]) } else { None::<ValView> }),
    {
        if i < self.current.constants.len() {
            Some(&self.current.constants[i])
        } else {
            None
        }
    }

    fn global_name_of(&self, i: u8) -> (r: Result<String, VmError>)
        ensures
            match global_name(self@, i as nat) {
                Ok(n) => r is Ok && r->Ok_0@ == n,
                Err(e) => r == Err::<String, VmError>(e),
            },
    {
        match self.constant(i as usize) {
            None => Err(VmError::ConstantOutOfRange),
            Some(ThetaValue::HeapValue(h)) => match &**h {
                ThetaHeapValue::Str(s) => Ok(s.as_string().clone()),
            },
            Some(_) => Err(VmError::NotAName),
        }
    }
}


impl VM {
    fn binary(&mut self, code: u8, next: usize) -> (r: Result<Step, VmError>)
        requires
            old(self).wf(),
            is_binary(code),
        ensures
            final(self).wf(),
            match binary_step(old(self)@, code, next as nat) {
                Ok((m, s)) => r is Ok && final(self)@ == m && step_view(r->Ok_0) == s,
                Err(e) => r == Err::<Step, VmError>(e) && final(self)@ == old(self)@,
            },
    {
        let c = match self.stack.top_two() {
            None => {
                return Err(VmError::StackEmpty);
            },
            Some((l, r)) => combine_values(code, l, r),
        };
        match c {
            Err(e) => Err(e),
            Ok(Outcome::Value(v)) => {
                self.stack.drop_two();
                self.stack.push(v);
                Ok(Step::Continue(next))
            },
            Ok(Outcome::Text(t)) => {
                self.stack.drop_two();
                let v = self.intern_string(t);
                self.stack.push(v);
                Ok(Step::Continue(next))
            },
            Ok(Outcome::Float(op, a, b)) => {
                self.stack.drop_two();
                Ok(Step::Float { op, left: a, right: b, next })
            },
        }
    }

    fn negate(&mut self, next: usize) -> (r: Result<Step, VmError>)
        requires
            old(self).wf(),
        ensures
            final(self).wf(),
            match negate_step(old(self)@, next as nat) {
                Ok((m, s)) => r is Ok && final(self)@ == m && step_view(r->Ok_0) == s,
                Err(e) => r == Err::<Step, VmError>(e) && final(self)@ == old(self)@,
            },
    {
        let d = match self.stack.peek() {
            None => {
                return Err(VmError::StackEmpty);
            },
            Some(ThetaValue::Double(d)) => *d,
            Some(ThetaValue::Int(_)) => {
                return Err(VmError::Unsupported);
            },
            Some(_) => {
                return Err(VmError::InvalidOperands);
            },
        };
        self.stack.pop();
        self.stack.push(ThetaValue::Double(d ^ SIGN_BIT));
        Ok(Step::Continue(next))
    }

    fn branch(&self, at: usize, delta: i64, len: usize) -> (r: Result<Step, VmError>)
        requires
            self.wf(),
            at + len <= usize::MAX,
        ensures
            match branch_step(self@, at as nat, delta as int, len as nat) {
                Ok((m, s)) => r is Ok && m == self@ && step_view(r->Ok_0) == s,
                Err(e) => r == Err::<Step, VmError>(e),
            },
    {
        match self.stack.peek() {
            Some(ThetaValue::Bool(false)) => match jump(at, delta) {
                Ok(t) => Ok(Step::Continue(t)),
                Err(e) => Err(e),
            },
            Some(ThetaValue::Bool(true)) => Ok(Step::Continue(at + len)),
            _ => Err(VmError::NotABool),
        }
    }

    fn byte_op(&mut self, code: u8, b: u8, at: usize) -> (r: Result<Step, VmError>)
        requires
            old(self).wf(),
            at + 2 <= usize::MAX,
        ensures
            final(self).wf(),
            match byte_step(old(self)@, code, b, at as nat) {
                Ok((m, s)) => r is Ok && final(self)@ == m && step_view(r->Ok_0) == s,
                Err(e) => r == Err::<Step, VmError>(e) && final(self)@ == old(self)@,
            },
    {
        let next = at + 2;
        if code == 0x1 {
            let v = match self.constant(b as usize) {
                None => {
                    return Err(VmError::ConstantOutOfRange);
                },
                Some(v) => v.duplicate(),
            };
            self.stack.push(v);
            Ok(Step::Continue(next))
        } else if code == 0xC0 {
            let name = match self.global_name_of(b) {
                Err(e) => {
                    return Err(e);
                },
                Ok(n) => n,
            };
            let v = match self.stack.peek() {
                None => {
                    return Err(VmError::StackEmpty);
                },
                Some(v) => v.duplicate(),
            };
            self.stack.define_global(name, v);
            self.stack.pop();
            Ok(Step::Continue(next))
        } else if code == 0xC1 {
            let name = match self.global_name_of(b) {
                Err(e) => {
                    return Err(e);
                },
                Ok(n) => n,
            };
            let v = match self.stack.get_global(&name) {
                None => {
                    return Err(VmError::UndefinedGlobal);
                },
                Some(v) => v.duplicate(),
            };
            self.stack.push(v);
            Ok(Step::Continue(next))
        } else if code == 0xC2 {
            if self.stack.peek().is_none() {
                return Err(VmError::StackEmpty);
            }
            if (b as usize) < self.stack.frame_len() {
                self.stack.set_local(b as usize);
                Ok(Step::Continue(next))
            } else {
                Err(VmError::LocalOutOfRange)
            }
        } else if code == 0xC3 {
            let v = match self.stack.get_local(b as usize) {
                None => {
                    return Err(VmError::NoLocal);
                },
                Some(v) => v.duplicate(),
            };
            self.stack.push(v);
            Ok(Step::Continue(next))
        } else if code == 0xD0 {
            match jump(at, (b as i8) as i64) {
                Ok(t) => Ok(Step::Continue(t)),
                Err(e) => Err(e),
            }
        } else {
            self.branch(at, (b as i8) as i64, 2)
        }
    }

    fn word_op(&mut self, code: u8, w: u64, at: usize) -> (r: Result<Step, VmError>)
        requires
            old(self).wf(),
            at + 9 <= usize::MAX,
        ensures
            final(self).wf(),
            match word_step(old(self)@, code, w, at as nat) {
                Ok((m, s)) => r is Ok && final(self)@ == m && step_view(r->Ok_0) == s,
                Err(e) => r == Err::<Step, VmError>(e) && final(self)@ == old(self)@,
            },
    {
        if code == 0x2 {
            let len = self.stack.frame_len();
            if (len as u128) + (w as u128) > (usize::MAX as u128) {
                Err(VmError::FrameSpaceOverflow)
            } else {
                self.stack.alloc_framespace(w as usize);
                Ok(Step::Continue(at + 9))
            }
        } else if code == 0xD2 {
            match jump(at, w as i64) {
                Ok(t) => Ok(Step::Continue(t)),
                Err(e) => Err(e),
            }
        } else {
            self.branch(at, w as i64, 9)
        }
    }

    /// Runs the instruction at `offset` of `chunk`, where `step_spec` says it can
    /// be carried out: what the machine becomes and what is left to the caller.
    /// A state in which it cannot (`try_step` names it) is not admitted.
    pub fn step(&mut self, chunk: &[u8], offset: usize) -> (r: Step)
        requires
            old(self).wf(),
            step_spec(old(self)@, chunk@, offset as nat) is Ok,
        ensures
            final(self).wf(),
            final(self)@ == step_spec(old(self)@, chunk@, offset as nat)->Ok_0.0,
            step_view(r) == step_spec(old(self)@, chunk@, offset as nat)->Ok_0.1,
    {
        match self.try_step(chunk, offset) {
            Ok(s) => s,
            Err(_) => Step::Finished,
        }
    }

    /// Checks and runs the instruction at `offset` of `chunk`, as `step_spec`
    /// says; a state in which the instruction cannot be carried out is answered
    /// with the error that names it, and the machine is left as it was.
    pub fn try_step(&mut self, chunk: &[u8], offset: usize) -> (r: Result<Step, VmError>)
        requires
            old(self).wf(),
        ensures
            final(self).wf(),
            match step_spec(old(self)@, chunk@, offset as nat) {
                Ok((m, s)) => r is Ok && final(self)@ == m && step_view(r->Ok_0) == s,
                Err(e) => r == Err::<Step, VmError>(e) && final(self)@ == old(self)@,
            },
    {
        if offset >= chunk.len() {
            return Ok(Step::Finished);
        }
        let op = chunk[offset];
        if op == 0x0 || op == 0xFF {
            let v = self.stack.pop();
            Ok(Step::Print(v, offset + 1))
        } else if op == 0x3 {
            self.stack.pop();
            Ok(Step::Continue(offset + 1))
        } else if op == 0xFD {
            Ok(Step::Continue(offset + 1))
        } else if op == 0x4 || op == 0x5 || op == 0x6 || op == 0x7 || op == 0x9 || op == 0xA || op == 0xB {
            self.binary(op, offset + 1)
        } else if op == 0x8 {
            self.negate(offset + 1)
        } else if op == 0x1 || op == 0xC0 || op == 0xC1 || op == 0xC2 || op == 0xC3 || op == 0xD0 || op == 0xD1 {
            if chunk.len() - offset < 2 {
                Err(VmError::Truncated)
            } else {
                self.byte_op(op, chunk[offset + 1], offset)
            }
        } else if op == 0x2 || op == 0xD2 || op == 0xD3 {
            if chunk.len() - offset < 9 {
                Err(VmError::Truncated)
            } else {
                let w = read_le_bytes(chunk, offset + 1);
                self.word_op(op, w, offset)
            }
        } else {
            Err(VmError::UnknownOpcode(op))
        }
    }
}

impl Default for VM {
    fn default() -> (r: VM)
        ensures
            r.wf(),
            r@ == initial_machine(),
    {
        VM::new()
    }
}

/// The machine and the offset after `n` steps from `at`, where each of them
/// only goes on to a next instruction.
pub open spec fn run_steps(m: VmView, code: Seq<u8>, at: nat, n: nat) -> Option<(VmView, nat)>
    decreases n,
{
    if n == 0 {
        Some((m, at))
    } else {
        match step_spec(m, code, at) {
            Ok((m1, StepView::Continue(k))) => run_steps(m1, code, k, (n - 1) as nat),
            _ => None,
        }
    }
}

/// Interning a string a second time changes nothing.
pub proof fn lemma_intern_idempotent(m: VmView, s: Seq<char>)
    ensures
        m.interned(s).interned(s) == m.interned(s),
        m.interned(s).strings.contains(s),
{
}

/// A global that is defined and then read by the same name gives back the value
/// it was defined with: the value on top of the stack before the definition.
pub proof fn lemma_define_then_read_global(m: VmView, code: Seq<u8>, at: nat, i: u8)
    requires
        m.stack.frames.len() > 0,
        at + 4 <= code.len(),
        code[at as int] == 0xC0,
        code[at + 1int] == i,
        code[at + 2int] == 0xC1,
        code[at + 3int] == i,
        global_name(m, i as nat) is Ok,
        m.stack.peeked() is Some,
    ensures
        run_steps(m, code, at, 2) is Some,
        run_steps(m, code, at, 2).unwrap().1 == at + 4,
        run_steps(m, code, at, 2).unwrap().0.stack.peeked() == m.stack.peeked(),
{
    reveal_with_fuel(run_steps, 3);
    let name = global_name(m, i as nat)->Ok_0;
    let v = m.stack.peeked()->0;
    let g = StackView { globals: m.stack.globals.insert(name, v), ..m.stack };
    let m1 = m.with_stack(g.popped());
    assert(step_spec(m, code, at) == Ok::<(VmView, StepView), VmError>((m1, StepView::Continue(at + 2))));
    assert(m1.constants == m.constants);
    assert(m1.stack.globals == g.globals);
    assert(g.popped().frames.len() == m.stack.frames.len());
    let m2 = m1.push(v);
    assert(step_spec(m1, code, at + 2) == Ok::<(VmView, StepView), VmError>((m2, StepView::Continue(at + 4))));
    lemma_push_then_pop(m1.stack, v);
}

/// A local that is stored and then loaded from the same slot gives back the
/// value that was on top of the stack when it was stored.
pub proof fn lemma_store_then_load_local(m: VmView, code: Seq<u8>, at: nat, li: u8)
    requires
        m.stack.frames.len() > 0,
        at + 4 <= code.len(),
        code[at as int] == 0xC2,
        code[at + 1int] == li,
        code[at + 2int] == 0xC3,
        code[at + 3int] == li,
        m.stack.peeked() is Some,
        li < m.stack.top().locals.len(),
    ensures
        run_steps(m, code, at, 2) is Some,
        run_steps(m, code, at, 2).unwrap().1 == at + 4,
        run_steps(m, code, at, 2).unwrap().0.stack.peeked() == m.stack.peeked(),
{
    reveal_with_fuel(run_steps, 3);
    let v = m.stack.peeked()->0;
    let m1 = m.with_stack(m.stack.with_locals(m.stack.top().locals.update(li as int, Some(v))));
    assert(step_spec(m, code, at) == Ok::<(VmView, StepView), VmError>((m1, StepView::Continue(at + 2))));
    assert(m1.stack.top().locals =~= m.stack.top().locals.update(li as int, Some(v)));
    assert(m1.stack.local(li as int) == Some(v));
    let m2 = m1.push(v);
    assert(step_spec(m1, code, at + 2) == Ok::<(VmView, StepView), VmError>((m2, StepView::Continue(at + 4))));
    lemma_push_then_pop(m1.stack, v);
}

/// The machine `m` with `a` and then `b` pushed.
pub open spec fn with_pair(m: VmView, a: ValView, b: ValView) -> VmView {
    m.push(a).push(b)
}

/// Two values pushed are the operands of the next two-operand instruction, and
/// taking them off gives back the machine before.
proof fn lemma_pair_taken(m: VmView, a: ValView, b: ValView)
    requires
        m.stack.frames.len() > 0,
    ensures
        with_pair(m, a, b).operands() == Some((a, b)),
        with_pair(m, a, b).without_operands() == m,
{
    let mm = with_pair(m, a, b);
    let l = m.stack.top().locals;
    assert(mm.stack.frames.len() == m.stack.frames.len());
    assert(mm.stack.top().locals =~= l.push(Some(a)).push(Some(b)));
    assert(mm.stack.top().locals.subrange(0, l.len() as int) =~= l);
    assert(mm.without_operands().stack.top() == m.stack.top());
    assert(mm.without_operands().stack.frames =~= m.stack.frames);
}

/// On two integers, `x` pushed first and `y` on top, each two-operand
/// instruction replaces them with its result and goes on to the next byte:
/// equality (0x9), greater (0xA) and less (0xB) push the truth of `x == y`,
/// `x > y` and `x < y`; addition, subtraction and multiplication (0x4, 0x5, 0x6)
/// push `x + y`, `x - y` and `x * y` where it fits in 64 bits, and division
/// (0x7) the quotient rounded toward zero where `y` is not zero.
pub proof fn lemma_integer_instructions(m: VmView, x: i64, y: i64)
    requires
        m.stack.frames.len() > 0,
    ensures
        ({
            let mm = with_pair(m, ValView::Int(x), ValView::Int(y));
            let gives = |v: ValView| Ok::<(VmView, StepView), VmError>((m.push(v), StepView::Continue(1)));
            &&& step_spec(mm, seq![0x9u8], 0) == gives(ValView::Bool(x == y))
            &&& step_spec(mm, seq![0xAu8], 0) == gives(ValView::Bool(x > y))
            &&& step_spec(mm, seq![0xBu8], 0) == gives(ValView::Bool(x < y))
            &&& i64::MIN <= x + y <= i64::MAX ==> step_spec(mm, seq![0x4u8], 0) == gives(ValView::Int((x + y) as i64))
            &&& i64::MIN <= x - y <= i64::MAX ==> step_spec(mm, seq![0x5u8], 0) == gives(ValView::Int((x - y) as i64))
            &&& i64::MIN <= x * y <= i64::MAX ==> step_spec(mm, seq![0x6u8], 0) == gives(ValView::Int((x * y) as i64))
            &&& y != 0 && i64::MIN <= trunc_div(x as int, y as int) <= i64::MAX ==> step_spec(mm, seq![0x7u8], 0)
                == gives(ValView::Int(trunc_div(x as int, y as int) as i64))
        }),
{
    lemma_pair_taken(m, ValView::Int(x), ValView::Int(y));
}

/// Strings are compared by their characters: exactly one of less (0xB),
/// equality (0x9) and greater (0xA) pushes `true` on two strings, equality
/// exactly when they are the same, and greater on `a`, `b` gives what less
/// gives on `b`, `a`. Each replaces the two strings by its answer.
pub proof fn lemma_string_comparisons(m: VmView, a: Seq<char>, b: Seq<char>)
    requires
        m.stack.frames.len() > 0,
    ensures
        ({
            let ab = with_pair(m, ValView::Str(a), ValView::Str(b));
            let ba = with_pair(m, ValView::Str(b), ValView::Str(a));
            let gt = step_spec(ab, seq![0xAu8], 0);
            let lt = step_spec(ab, seq![0xBu8], 0);
            let eq = step_spec(ab, seq![0x9u8], 0);
            let yes = |r: Result<(VmView, StepView), VmError>| r == Ok::<(VmView, StepView), VmError>(
                (m.push(ValView::Bool(true)), StepView::Continue(1)),
            );
            let no = |r: Result<(VmView, StepView), VmError>| r == Ok::<(VmView, StepView), VmError>(
                (m.push(ValView::Bool(false)), StepView::Continue(1)),
            );
            &&& gt == step_spec(ba, seq![0xBu8], 0)
            &&& (yes(eq) <==> a == b) && (no(eq) <==> a != b)
            &&& (yes(lt) && no(eq) && no(gt)) || (no(lt) && yes(eq) && no(gt)) || (no(lt) && no(eq) && yes(gt))
        }),
{
    lemma_pair_taken(m, ValView::Str(a), ValView::Str(b));
    lemma_pair_taken(m, ValView::Str(b), ValView::Str(a));
    lemma_lex_order_laws(a, b);
    let ab = with_pair(m, ValView::Str(a), ValView::Str(b));
    let ba = with_pair(m, ValView::Str(b), ValView::Str(a));
    let gives = |v: bool| Ok::<(VmView, StepView), VmError>((m.push(ValView::Bool(v)), StepView::Continue(1)));
    assert(step_spec(ab, seq![0xAu8], 0) == gives(lex_order(a, b) == 1));
    assert(step_spec(ab, seq![0xBu8], 0) == gives(lex_order(a, b) == -1));
    assert(step_spec(ab, seq![0x9u8], 0) == gives(a == b));
    assert(step_spec(ba, seq![0xBu8], 0) == gives(lex_order(b, a) == -1));
    assert(m.push(ValView::Bool(true)).stack.top().locals.last() == Some(ValView::Bool(true)));
    assert(m.push(ValView::Bool(false)).stack.top().locals.last() == Some(ValView::Bool(false)));
    assert(gives(true) != gives(false));
}

/// Adding two strings pushes their concatenation, left operand first, and
/// interns it; equality on two booleans pushes whether they are the same.
pub proof fn lemma_string_and_bool_operations(m: VmView, a: Seq<char>, b: Seq<char>, x: bool, y: bool)
    requires
        m.stack.frames.len() > 0,
    ensures
        step_spec(with_pair(m, ValView::Str(a), ValView::Str(b)), seq![0x4u8], 0) == Ok::<(VmView, StepView), VmError>(
            (m.interned(a + b).push(ValView::Str(a + b)), StepView::Continue(1)),
        ),
        m.interned(a + b).strings.contains(a + b),
        m.interned(a + b).stack == m.stack,
        step_spec(with_pair(m, ValView::Bool(x), ValView::Bool(y)), seq![0x9u8], 0) == Ok::<(VmView, StepView), VmError>(
            (m.push(ValView::Bool(x == y)), StepView::Continue(1)),
        ),
{
    lemma_pair_taken(m, ValView::Str(a), ValView::Str(b));
    lemma_pair_taken(m, ValView::Bool(x), ValView::Bool(y));
}

/// On two doubles, `a` pushed first and `b` on top, each two-operand
/// instruction takes them off and hands the caller the operation of its own
/// name on `a` and `b`, in that order: 0x4 addition, 0x5 subtraction, 0x6
/// multiplication, 0x7 division, 0x9 equality, 0xA greater, 0xB less.
pub proof fn lemma_double_operations(m: VmView, a: u64, b: u64)
    requires
        m.stack.frames.len() > 0,
    ensures
        ({
            let mm = with_pair(m, ValView::Double(a), ValView::Double(b));
            let hands = |op: FloatOp| Ok::<(VmView, StepView), VmError>(
                (m, StepView::Float { op, left: a, right: b, next: 1 }),
            );
            &&& step_spec(mm, seq![0x4u8], 0) == hands(FloatOp::Add)
            &&& step_spec(mm, seq![0x5u8], 0) == hands(FloatOp::Subtract)
            &&& step_spec(mm, seq![0x6u8], 0) == hands(FloatOp::Multiply)
            &&& step_spec(mm, seq![0x7u8], 0) == hands(FloatOp::Divide)
            &&& step_spec(mm, seq![0x9u8], 0) == hands(FloatOp::Equal)
            &&& step_spec(mm, seq![0xAu8], 0) == hands(FloatOp::GreaterThan)
            &&& step_spec(mm, seq![0xBu8], 0) == hands(FloatOp::LessThan)
        }),
{
    lemma_pair_taken(m, ValView::Double(a), ValView::Double(b));
}

/// Negating a double flips its sign bit and nothing else, so negating twice
/// gives back the value; negation replaces the value on top of the stack.
pub proof fn lemma_negate_twice(m: VmView, d: u64)
    requires
        m.stack.frames.len() > 0,
    ensures
        ({
            let once = step_spec(m.push(ValView::Double(d)), seq![0x8u8], 0);
            &&& once is Ok
            &&& once->Ok_0.1 == StepView::Continue(1)
            &&& once->Ok_0.0.stack.peeked() matches Some(ValView::Double(n)) && n != d && n ^ d == SIGN_BIT
            &&& step_spec(once->Ok_0.0, seq![0x8u8], 0) == Ok::<(VmView, StepView), VmError>(
                (m.push(ValView::Double(d)), StepView::Continue(1)),
            )
        }),
{
    let n = d ^ SIGN_BIT;
    assert(n ^ SIGN_BIT == d && n != d && n ^ d == SIGN_BIT) by (bit_vector)
        requires
            n == d ^ 0x8000_0000_0000_0000u64,
    ;
    let m1 = m.push(ValView::Double(d));
    assert(m1.stack.top().locals.last() == Some(ValView::Double(d)));
    assert(m1.popped() == m) by {
        assert(m1.popped().stack.top().locals =~= m.stack.top().locals);
        assert(m1.popped().stack.frames =~= m.stack.frames);
    }
    let m2 = m.push(ValView::Double(n));
    assert(m2.stack.top().locals.last() == Some(ValView::Double(n)));
    assert(m2.popped() == m) by {
        assert(m2.popped().stack.top().locals =~= m.stack.top().locals);
        assert(m2.popped().stack.frames =~= m.stack.frames);
    }
}

} // verus!
