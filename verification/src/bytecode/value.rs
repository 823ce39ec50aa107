use std::cmp::Ordering;
use std::rc::Rc;
use vstd::prelude::*;
use vstd::std_specs::cmp::{PartialEqSpecImpl, PartialOrdSpecImpl};
use crate::text::{lex_order, text_order};

verus! {

/// "TheConst": the header of a constant pool.
pub const CONSTANT_POOL_HEADER: [u8; 8] = [84, 104, 101, 67, 111, 110, 115, 116];

/// The marker bytes that precede each kind of constant in a constant pool.
pub const DOUBLE_MARKER: [u8; 2] = [0xF, 0xF];
pub const INT_MARKER: [u8; 2] = [0xA, 0xA];
pub const BOOL_MARKER: [u8; 2] = [0xB, 0xB];
pub const STRING_MARKER: [u8; 2] = [0xC, 0xC];

/// A constant of a compiled program. A double is held by the bit pattern of
/// its IEEE-754 binary64 value, which is also how it is written to disk.
#[derive(Debug, Clone, PartialEq)]
pub enum ThetaConstant {
    Double(u64),
    Int(i64),
    Bool(bool),
    Str(String),
}

/// The mathematical form of a constant: a string constant by its characters.
pub enum ConstantView {
    Double(u64),
    Int(i64),
    Bool(bool),
    Str(Seq<char>),
}

impl View for ThetaConstant {
    type V = ConstantView;

    open spec fn view(&self) -> ConstantView {
        match self {
            ThetaConstant::Double(d) => ConstantView::Double(*d),
            ThetaConstant::Int(i) => ConstantView::Int(*i),
            ThetaConstant::Bool(b) => ConstantView::Bool(*b),
            ThetaConstant::Str(s) => ConstantView::Str(s@),
        }
    }
}

impl ThetaConstant {
    /// A copy of the constant.
    pub fn duplicate(&self) -> (r: ThetaConstant)
        ensures
            r == *self,
    {
        match self {
            ThetaConstant::Double(d) => ThetaConstant::Double(*d),
            ThetaConstant::Int(i) => ThetaConstant::Int(*i),
            ThetaConstant::Bool(b) => ThetaConstant::Bool(*b),
            ThetaConstant::Str(s) => ThetaConstant::Str(s.clone()),
        }
    }
}

/// A string value of the machine, shared by reference; two are equal, and
/// ordered, by their characters.
#[derive(Debug, Clone, Eq, Hash)]
pub struct ThetaString {
    internal: Rc<String>,
}

impl PartialEq for ThetaString {
    fn eq(&self, other: &ThetaString) -> (r: bool) {
        *self.internal == *other.internal
    }
}

impl PartialEqSpecImpl for ThetaString {
    open spec fn obeys_eq_spec() -> bool {
        true
    }

    open spec fn eq_spec(&self, other: &ThetaString) -> bool {
        self@ == other@
    }
}

impl PartialOrd for ThetaString {
    fn partial_cmp(&self, other: &ThetaString) -> (r: Option<Ordering>) {
        let o = text_order(self.internal.as_str(), other.internal.as_str());
        if o < 0 {
            Some(Ordering::Less)
        } else if o == 0 {
            Some(Ordering::Equal)
        } else {
            Some(Ordering::Greater)
        }
    }
}

impl PartialOrdSpecImpl for ThetaString {
    open spec fn obeys_partial_cmp_spec() -> bool {
        true
    }

    open spec fn partial_cmp_spec(&self, other: &ThetaString) -> Option<Ordering> {
        if lex_order(self@, other@) < 0 {
            Some(Ordering::Less)
        } else if lex_order(self@, other@) == 0 {
            Some(Ordering::Equal)
        } else {
            Some(Ordering::Greater)
        }
    }
}

impl View for ThetaString {
    type V = Seq<char>;

    closed spec fn view(&self) -> Seq<char> {
        self.internal@
    }
}

impl ThetaString {
    pub fn new(st: String) -> (r: ThetaString)
        ensures
            r@ == st@,
    {
        ThetaString { internal: Rc::new(st) }
    }

    pub fn internal(&self) -> (r: &Rc<String>)
        ensures
            r@ == self@,
    {
        &self.internal
    }

    /// The characters of the string.
    pub fn as_string(&self) -> (r: &String)
        ensures
            r@ == self@,
    {
        &*self.internal
    }

    /// The concatenation of the two strings.
    pub fn add(self, rhs: &ThetaString) -> (r: ThetaString)
        ensures
            r@ == self@ + rhs@,
    {
        let mut s: String = (*self.internal).clone();
        crate::text::push_str(&mut s, rhs.as_string().as_str());
        ThetaString::new(s)
    }

    /// Whether the two strings hold the same characters.
    pub fn equals(&self, other: &ThetaString) -> (r: bool)
        ensures
            r == (self@ == other@),
    {
        *self.internal == *other.internal
    }
}

/// Another pointer to the value that `rc` points to, the way `Rc::clone` makes it:
/// the value is shared, not copied.
#[verifier::external_body]
pub(crate) fn share<T>(rc: &Rc<T>) -> (r: Rc<T>)
    ensures
        *r == **rc,
{
    Rc::clone(rc)
}

/// A user-defined type of the machine; none are defined yet.
pub struct ThetaUserType {}

/// A value that lives on the machine's heap.
#[derive(Debug, Clone)]
pub enum ThetaHeapValue {
    Str(ThetaString),
}

/// A value of the machine. A double is held by the bit pattern of its
/// IEEE-754 binary64 value.
#[derive(Debug, Clone)]
pub enum ThetaValue {
    Double(u64),
    Int(i64),
    Bool(bool),
    HeapValue(Rc<ThetaHeapValue>),
}

impl View for ThetaHeapValue {
    type V = Seq<char>;

    open spec fn view(&self) -> Seq<char> {
        match self {
            ThetaHeapValue::Str(s) => s@,
        }
    }
}

/// A value of the machine seen mathematically: a string by its characters.
pub enum ValView {
    Double(u64),
    Int(i64),
    Bool(bool),
    Str(Seq<char>),
}

impl View for ThetaValue {
    type V = ValView;

    open spec fn view(&self) -> ValView {
        match self {
            ThetaValue::Double(d) => ValView::Double(*d),
            ThetaValue::Int(i) => ValView::Int(*i),
            ThetaValue::Bool(b) => ValView::Bool(*b),
            ThetaValue::HeapValue(h) => ValView::Str(h@),
        }
    }
}

impl ThetaValue {
    /// A copy of the value; a heap value is shared, not copied.
    pub fn duplicate(&self) -> (r: ThetaValue)
        ensures
            r@ == self@,
    {
        match self {
            ThetaValue::Double(d) => ThetaValue::Double(*d),
            ThetaValue::Int(i) => ThetaValue::Int(*i),
            ThetaValue::Bool(b) => ThetaValue::Bool(*b),
            ThetaValue::HeapValue(h) => ThetaValue::HeapValue(share(h)),
        }
    }
}

} // verus!
