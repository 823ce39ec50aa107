//! Reading an assembled file into values the machine can run with.

use vstd::prelude::*;
use crate::bytecode::{
    ThetaConstant, ConstantView, ThetaValue, ValView, ThetaString, ThetaCompiledBitstream, ThetaFileWalker,
    DisassembleError, WalkError, CompiledFnView, decode_bitstream, compiled_views, views, bitstream_readable,
};
use super::machine::{VM, VmView};
use super::stack::values_view;

verus! {

/// The value of a constant.
pub open spec fn constant_value(c: ConstantView) -> ValView {
    match c {
        ConstantView::Double(d) => ValView::Double(d),
        ConstantView::Int(i) => ValView::Int(i),
        ConstantView::Bool(b) => ValView::Bool(b),
        ConstantView::Str(s) => ValView::Str(s),
    }
}

/// The machine after the strings among the constants `cs` are interned, in order.
pub open spec fn interned_all(m: VmView, cs: Seq<ConstantView>) -> VmView
    decreases cs.len(),
{
    if cs.len() == 0 {
        m
    } else {
        let m1 = interned_all(m, cs.drop_last());
        match cs.last() {
            ConstantView::Str(s) => m1.interned(s),
            _ => m1,
        }
    }
}

/// Reads assembled files into bitstreams for a machine, interning their strings
/// in that machine.
pub struct BasicDisassembler {}

impl BasicDisassembler {
    pub fn new() -> (r: BasicDisassembler) {
        BasicDisassembler {}
    }

    /// The value of constant `c`; a string is interned in `machine`.
    pub fn visit_theta_constant(&mut self, machine: &mut VM, c: ThetaConstant) -> (r: ThetaValue)
        requires
            old(machine).wf(),
        ensures
            final(machine).wf(),
            r@ == constant_value(c@),
            final(machine)@ == interned_all(old(machine)@, seq![c@]),
    {
        assert(seq![c@].drop_last() =~= Seq::<ConstantView>::empty());
        assert(interned_all(old(machine)@, seq![c@].drop_last()) == old(machine)@);
        assert(seq![c@].last() == c@);
        match c {
            ThetaConstant::Double(d) => ThetaValue::Double(d),
            ThetaConstant::Int(i) => ThetaValue::Int(i),
            ThetaConstant::Bool(b) => ThetaValue::Bool(b),
            ThetaConstant::Str(s) => machine.intern_string(ThetaString::new(s)),
        }
    }

    /// Reads the file `input`, which `bitstream_readable` admits: its constants,
    /// as values with their strings interned in `machine`, and its functions;
    /// or the error that its constant pool reports.
    pub fn disassemble(&mut self, machine: &mut VM, input: &[u8]) -> (r: Result<ThetaCompiledBitstream, DisassembleError>)
        requires
            old(machine).wf(),
            bitstream_readable(input@),
        ensures
            final(machine).wf(),
            match decode_bitstream(input@) {
                Ok((cs, fs)) => r is Ok && values_view(r->Ok_0.constants@) == cs.map_values(
                    |c: ConstantView| constant_value(c),
                ) && compiled_views(r->Ok_0.functions@) == fs && final(machine)@ == interned_all(old(machine)@, cs),
                Err(e) => r is Err && r->Err_0.kind() == e && final(machine)@ == old(machine)@,
            },
    {
        let mut walker = ThetaFileWalker::new();
        let (constants, functions) = match walker.walk_theta_file(input) {
            Ok(x) => x,
            Err(e) => {
                return Err(DisassembleError::FileWalkError(e));
            },
        };
        let ghost cs = views(constants@);
        let mut values: Vec<ThetaValue> = Vec::new();
        let mut i: usize = 0;
        while i < constants.len()
            invariant
                i <= constants@.len(),
                cs == views(constants@),
                machine.wf(),
                values_view(values@) == cs.subrange(0, i as int).map_values(|c: ConstantView| constant_value(c)),
                machine@ == interned_all(old(machine)@, cs.subrange(0, i as int)),
            decreases constants@.len() - i,
        {
            let ghost vals_before = values@;
            let v = match &constants[i] {
                ThetaConstant::Double(d) => ThetaValue::Double(*d),
                ThetaConstant::Int(n) => ThetaValue::Int(*n),
                ThetaConstant::Bool(b) => ThetaValue::Bool(*b),
                ThetaConstant::Str(s) => machine.intern_string(ThetaString::new(s.clone())),
            };
            assert(v@ == constant_value(constants@[i as int]@));
            values.push(v);
            i = i + 1;
            proof {
                let t = cs.subrange(0, i as int);
                assert(t.drop_last() =~= cs.subrange(0, i - 1));
                assert(t.last() == constants@[i - 1]@);
                assert(values_view(values@) =~= values_view(vals_before).push(v@));
                assert(t.map_values(|c: ConstantView| constant_value(c)) =~= cs.subrange(0, i - 1).map_values(
                    |c: ConstantView| constant_value(c),
                ).push(constant_value(t.last())));
            }
        }
        assert(cs.subrange(0, i as int) =~= cs);
        Ok(ThetaCompiledBitstream { constants: values, functions })
    }
}

} // verus!
