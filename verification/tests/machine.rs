use theta_lang::bytecode::{
    write_pool_bytes, ThetaCompiledBitstream, ThetaConstant, ThetaString, ThetaValue, BITSTREAM_HEADER, CHUNK_HEADER,
    FUNCTION_POOL_HEADER,
};
use theta_lang::repl::ReplStatus;
use theta_lang::vm::{BasicDisassembler, FloatOp, NameTable, Step, ThetaStack, VmError, VM};

fn chunk(code: &[u8]) -> Vec<u8> {
    let mut c = CHUNK_HEADER.to_vec();
    c.extend_from_slice(&(code.len() as u64).to_le_bytes());
    c.extend_from_slice(code);
    c
}

fn machine_with(constants: Vec<ThetaValue>) -> VM {
    let mut vm = VM::new();
    vm.load_bitstream(ThetaCompiledBitstream { constants, functions: vec![] });
    vm
}

/// Runs `code` to its end, doing the work steps leave to the caller; gives what was printed.
fn run(vm: &mut VM, code: &[u8]) -> Result<Vec<Option<ThetaValue>>, VmError> {
    let c = chunk(code);
    let mut at = VM::try_begin(&c)?;
    let mut printed = Vec::new();
    loop {
        match vm.try_step(&c, at)? {
            Step::Continue(n) => at = n,
            Step::Print(v, n) => {
                printed.push(v);
                at = n;
            },
            Step::Float { op, left, right, next } => {
                let (l, r) = (f64::from_bits(left), f64::from_bits(right));
                let v = match op {
                    FloatOp::Add => ThetaValue::Double((l + r).to_bits()),
                    FloatOp::Subtract => ThetaValue::Double((l - r).to_bits()),
                    FloatOp::Multiply => ThetaValue::Double((l * r).to_bits()),
                    FloatOp::Divide => ThetaValue::Double((l / r).to_bits()),
                    FloatOp::Equal => ThetaValue::Bool(l == r),
                    FloatOp::GreaterThan => ThetaValue::Bool(l > r),
                    FloatOp::LessThan => ThetaValue::Bool(l < r),
                };
                vm.push_value(v);
                at = next;
            },
            Step::Finished => return Ok(printed),
        }
    }
}

fn int_of(v: &Option<ThetaValue>) -> i64 {
    match v {
        Some(ThetaValue::Int(i)) => *i,
        _ => panic!("expected an integer"),
    }
}

fn bool_of(v: &Option<ThetaValue>) -> bool {
    match v {
        Some(ThetaValue::Bool(b)) => *b,
        _ => panic!("expected a boolean"),
    }
}

fn str_of(v: &Option<ThetaValue>) -> String {
    match v {
        Some(ThetaValue::HeapValue(h)) => match &**h {
            theta_lang::bytecode::ThetaHeapValue::Str(s) => s.as_string().clone(),
        },
        _ => panic!("expected a string"),
    }
}

#[test]
fn begin_checks_the_header() {
    assert_eq!(VM::try_begin(&chunk(&[])), Ok(16));
    assert_eq!(VM::try_begin(&[0u8; 20]), Err(VmError::InvalidHeader));
    assert_eq!(VM::try_begin(&CHUNK_HEADER), Err(VmError::Truncated));
    assert_eq!(VM::begin(&chunk(&[0x3])), 16);
}

#[test]
fn adds_two_integers_and_prints() {
    let mut vm = machine_with(vec![ThetaValue::Int(2), ThetaValue::Int(3)]);
    let out = run(&mut vm, &[0x1, 0, 0x1, 1, 0x4, 0xFF]).unwrap();
    assert_eq!(out.len(), 1);
    assert_eq!(int_of(&out[0]), 5);
}

#[test]
fn step_by_step_offsets() {
    let mut vm = machine_with(vec![ThetaValue::Int(2), ThetaValue::Int(3)]);
    let c = chunk(&[0x1, 0, 0x1, 1, 0x6, 0x0]);
    assert!(matches!(vm.try_step(&c, 16), Ok(Step::Continue(18))));
    assert!(matches!(vm.try_step(&c, 18), Ok(Step::Continue(20))));
    assert!(matches!(vm.try_step(&c, 20), Ok(Step::Continue(21))));
    match vm.try_step(&c, 21) {
        Ok(Step::Print(Some(ThetaValue::Int(6)), 22)) => {},
        _ => panic!("expected the product to be printed"),
    }
    assert!(matches!(vm.try_step(&c, 22), Ok(Step::Finished)));
}

#[test]
fn print_of_an_empty_stack_prints_nothing() {
    let mut vm = VM::new();
    let out = run(&mut vm, &[0xFF]).unwrap();
    assert!(out[0].is_none());
}

#[test]
fn integer_arithmetic_and_comparisons() {
    let mut vm = machine_with(vec![ThetaValue::Int(7), ThetaValue::Int(-2)]);
    let out = run(
        &mut vm,
        &[0x1, 0, 0x1, 1, 0x5, 0xFF, 0x1, 0, 0x1, 1, 0x7, 0xFF, 0x1, 0, 0x1, 1, 0xA, 0xFF, 0x1, 0, 0x1, 1, 0xB, 0xFF, 0x1, 0, 0x1, 0, 0x9, 0xFF],
    )
    .unwrap();
    assert_eq!(int_of(&out[0]), 9);
    assert_eq!(int_of(&out[1]), -3);
    assert!(bool_of(&out[2]));
    assert!(!bool_of(&out[3]));
    assert!(bool_of(&out[4]));
}

#[test]
fn integer_errors_leave_the_machine_as_it_was() {
    let mut vm = machine_with(vec![ThetaValue::Int(i64::MAX), ThetaValue::Int(1), ThetaValue::Int(0)]);
    let c = chunk(&[0x1, 0, 0x1, 1, 0x4]);
    vm.try_step(&c, 16).unwrap();
    vm.try_step(&c, 18).unwrap();
    assert_eq!(vm.try_step(&c, 20).err(), Some(VmError::IntegerOverflow));
    assert_eq!(vm.try_step(&c, 20).err(), Some(VmError::IntegerOverflow));
    let d = chunk(&[0x1, 1, 0x1, 2, 0x7]);
    let mut vm2 = machine_with(vec![ThetaValue::Int(i64::MAX), ThetaValue::Int(1), ThetaValue::Int(0)]);
    vm2.try_step(&d, 16).unwrap();
    vm2.try_step(&d, 18).unwrap();
    assert_eq!(vm2.try_step(&d, 20).err(), Some(VmError::DivideByZero));
}

#[test]
fn division_rounds_toward_zero() {
    let mut vm = machine_with(vec![ThetaValue::Int(-7), ThetaValue::Int(2)]);
    let out = run(&mut vm, &[0x1, 0, 0x1, 1, 0x7, 0xFF]).unwrap();
    assert_eq!(int_of(&out[0]), -3);
}

#[test]
fn doubles_are_left_to_the_caller() {
    let mut vm = machine_with(vec![ThetaValue::Double(1.5f64.to_bits()), ThetaValue::Double(2.25f64.to_bits())]);
    let c = chunk(&[0x1, 0, 0x1, 1, 0x4]);
    vm.try_step(&c, 16).unwrap();
    vm.try_step(&c, 18).unwrap();
    match vm.try_step(&c, 20) {
        Ok(Step::Float { op: FloatOp::Add, left, right, next: 21 }) => {
            assert_eq!(f64::from_bits(left), 1.5);
            assert_eq!(f64::from_bits(right), 2.25);
        },
        _ => panic!("expected an addition of doubles"),
    }
    let mut vm2 = machine_with(vec![ThetaValue::Double(1.5f64.to_bits()), ThetaValue::Double(2.25f64.to_bits())]);
    let out = run(&mut vm2, &[0x1, 0, 0x1, 1, 0x6, 0xFF]).unwrap();
    assert!(matches!(out[0], Some(ThetaValue::Double(b)) if f64::from_bits(b) == 3.375));
}

#[test]
fn negating_a_double_flips_its_sign() {
    let mut vm = machine_with(vec![ThetaValue::Double(2.5f64.to_bits()), ThetaValue::Int(1)]);
    let out = run(&mut vm, &[0x1, 0, 0x8, 0xFF]).unwrap();
    assert!(matches!(out[0], Some(ThetaValue::Double(b)) if f64::from_bits(b) == -2.5));
    let mut vm2 = machine_with(vec![ThetaValue::Int(1)]);
    assert_eq!(run(&mut vm2, &[0x1, 0, 0x8]).err(), Some(VmError::Unsupported));
}

#[test]
fn strings_are_concatenated_interned_and_compared() {
    let mut vm = VM::new();
    let a = vm.intern_string(ThetaString::new(String::from("ab")));
    let b = vm.intern_string(ThetaString::new(String::from("cd")));
    assert_eq!(vm.strings().len(), 2);
    assert_eq!(vm.heap().len(), 2);
    vm.load_bitstream(ThetaCompiledBitstream { constants: vec![a, b], functions: vec![] });
    let out = run(&mut vm, &[0x1, 0, 0x1, 1, 0x4, 0xFF, 0x1, 0, 0x1, 1, 0xB, 0xFF, 0x1, 0, 0x1, 0, 0x9, 0xFF]).unwrap();
    assert_eq!(str_of(&out[0]), "abcd");
    assert!(bool_of(&out[1]));
    assert!(bool_of(&out[2]));
    assert_eq!(vm.strings().len(), 3);
    assert_eq!(vm.heap().len(), 3);
}

#[test]
fn interning_twice_shares_one_value() {
    let mut vm = VM::new();
    vm.intern_string(ThetaString::new(String::from("same")));
    vm.intern_string(ThetaString::new(String::from("same")));
    assert_eq!(vm.strings().len(), 1);
    assert_eq!(vm.heap().len(), 1);
}

#[test]
fn mixed_operands_are_refused() {
    let mut vm = machine_with(vec![ThetaValue::Int(1), ThetaValue::Bool(true)]);
    assert_eq!(run(&mut vm, &[0x1, 0, 0x1, 1, 0x4]).err(), Some(VmError::InvalidOperands));
    let mut vm2 = machine_with(vec![ThetaValue::Bool(true)]);
    assert_eq!(run(&mut vm2, &[0x1, 0, 0x1, 0, 0xA]).err(), Some(VmError::InvalidOperands));
}

#[test]
fn a_global_reads_back_what_was_defined() {
    let mut vm = VM::new();
    let name = vm.intern_string(ThetaString::new(String::from("x")));
    vm.load_bitstream(ThetaCompiledBitstream { constants: vec![name, ThetaValue::Int(7)], functions: vec![] });
    let out = run(&mut vm, &[0x1, 1, 0xC0, 0, 0xC1, 0, 0xFF]).unwrap();
    assert_eq!(int_of(&out[0]), 7);
    assert_eq!(vm.globals().len(), 1);
    assert!(vm.globals().get(&String::from("x")).is_some());
}

#[test]
fn reading_an_undefined_global_is_an_error() {
    let mut vm = VM::new();
    let name = vm.intern_string(ThetaString::new(String::from("nope")));
    vm.load_bitstream(ThetaCompiledBitstream { constants: vec![name, ThetaValue::Int(1)], functions: vec![] });
    assert_eq!(run(&mut vm, &[0xC1, 0]).err(), Some(VmError::UndefinedGlobal));
    assert_eq!(run(&mut vm, &[0xC1, 1]).err(), Some(VmError::NotAName));
    assert_eq!(run(&mut vm, &[0xC1, 5]).err(), Some(VmError::ConstantOutOfRange));
    assert_eq!(run(&mut vm, &[0xC0, 0]).err(), Some(VmError::StackEmpty));
}

#[test]
fn a_local_reads_back_what_was_stored() {
    let mut vm = machine_with(vec![ThetaValue::Int(11)]);
    let out = run(&mut vm, &[0x2, 2, 0, 0, 0, 0, 0, 0, 0, 0x1, 0, 0xC2, 1, 0xC3, 1, 0xFF]).unwrap();
    assert_eq!(int_of(&out[0]), 11);
}

#[test]
fn local_errors() {
    let mut vm = machine_with(vec![ThetaValue::Int(11)]);
    assert_eq!(run(&mut vm, &[0x1, 0, 0xC2, 5]).err(), Some(VmError::LocalOutOfRange));
    let mut vm2 = machine_with(vec![]);
    assert_eq!(run(&mut vm2, &[0x2, 1, 0, 0, 0, 0, 0, 0, 0, 0xC3, 0]).err(), Some(VmError::NoLocal));
    let mut vm3 = machine_with(vec![ThetaValue::Int(0)]);
    assert_eq!(
        run(&mut vm3, &[0x1, 0, 0x2, 0xFF, 0xFF, 0xFF, 0xFF, 0xFF, 0xFF, 0xFF, 0xFF]).err(),
        Some(VmError::FrameSpaceOverflow)
    );
}

#[test]
fn jumps() {
    let mut vm = VM::new();
    let c = chunk(&[0xD0, 3, 0xFD, 0xFD, 0xD0, 0xFE]);
    assert!(matches!(vm.try_step(&c, 16), Ok(Step::Continue(19))));
    assert!(matches!(vm.try_step(&c, 20), Ok(Step::Continue(18))));
    assert_eq!(vm.try_step(&chunk(&[0xD0, 0x80]), 16).err(), Some(VmError::JumpOutOfRange));
    let far = chunk(&[0xD2, 5, 0, 0, 0, 0, 0, 0, 0]);
    assert!(matches!(vm.try_step(&far, 16), Ok(Step::Continue(21))));
}

#[test]
fn conditional_jumps_look_at_the_top_of_the_stack() {
    let mut vm = machine_with(vec![ThetaValue::Bool(false), ThetaValue::Bool(true), ThetaValue::Int(0)]);
    let c = chunk(&[0x1, 0, 0xD1, 6, 0x1, 1, 0xD1, 6, 0x1, 2, 0xD1, 6]);
    vm.try_step(&c, 16).unwrap();
    assert!(matches!(vm.try_step(&c, 18), Ok(Step::Continue(24))));
    vm.try_step(&c, 20).unwrap();
    assert!(matches!(vm.try_step(&c, 22), Ok(Step::Continue(24))));
    vm.try_step(&c, 24).unwrap();
    assert_eq!(vm.try_step(&c, 26).err(), Some(VmError::NotABool));
    let mut vm2 = machine_with(vec![ThetaValue::Bool(true)]);
    let d = chunk(&[0x1, 0, 0xD3, 9, 0, 0, 0, 0, 0, 0, 0]);
    vm2.try_step(&d, 16).unwrap();
    assert!(matches!(vm2.try_step(&d, 18), Ok(Step::Continue(27))));
}

#[test]
fn bad_code() {
    let mut vm = VM::new();
    assert_eq!(vm.try_step(&chunk(&[0x77]), 16).err(), Some(VmError::UnknownOpcode(0x77)));
    assert_eq!(vm.try_step(&chunk(&[0x1]), 16).err(), Some(VmError::Truncated));
    assert_eq!(vm.try_step(&chunk(&[0xD2, 1]), 16).err(), Some(VmError::Truncated));
    assert_eq!(vm.try_step(&chunk(&[0x4]), 16).err(), Some(VmError::StackEmpty));
    assert_eq!(vm.try_step(&chunk(&[0x1, 0]), 16).err(), Some(VmError::ConstantOutOfRange));
}

#[test]
fn pop_and_noop() {
    let mut vm = machine_with(vec![ThetaValue::Int(1), ThetaValue::Int(2)]);
    let out = run(&mut vm, &[0x1, 0, 0x1, 1, 0x3, 0xFD, 0xFF]).unwrap();
    assert_eq!(int_of(&out[0]), 1);
}

#[test]
fn loading_registers_functions_and_constants() {
    let mut vm = VM::new();
    assert_eq!(vm.constants().len(), 0);
    vm.load_bitstream(ThetaCompiledBitstream { constants: vec![ThetaValue::Int(4)], functions: vec![] });
    assert_eq!(vm.constants().len(), 1);
    assert_eq!(vm.loaded_bitstreams().len(), 1);
    assert_eq!(vm.functions().len(), 0);
}

#[test]
fn disassembler_interns_strings_of_a_file() {
    let mut bytes = BITSTREAM_HEADER.to_vec();
    write_pool_bytes(
        &mut bytes,
        &vec![ThetaConstant::Str(String::from("k")), ThetaConstant::Int(9), ThetaConstant::Str(String::from("k"))],
    );
    bytes.extend_from_slice(&FUNCTION_POOL_HEADER);
    bytes.push(0);
    let mut vm = VM::new();
    let bs = BasicDisassembler::new().disassemble(&mut vm, &bytes).unwrap();
    assert_eq!(bs.constants.len(), 3);
    assert!(matches!(bs.constants[1], ThetaValue::Int(9)));
    assert_eq!(str_of(&Some(bs.constants[0].clone())), "k");
    assert_eq!(vm.strings().len(), 1);
    assert_eq!(vm.heap().len(), 1);
    let mut bad = BITSTREAM_HEADER.to_vec();
    bad.extend_from_slice(&[84, 104, 101, 67, 111, 110, 115, 116, 0, 1, 7, 7]);
    assert!(BasicDisassembler::new().disassemble(&mut vm, &bad).is_err());
    assert_eq!(vm.strings().len(), 1);
}

#[test]
fn stack_frames() {
    let mut s = ThetaStack::new();
    assert!(s.curr_frame().is_some());
    s.push(ThetaValue::Int(1));
    s.push_frame(vec![], 4);
    assert!(s.peek().is_none());
    s.push(ThetaValue::Int(2));
    assert!(matches!(s.peek(), Some(ThetaValue::Int(2))));
    assert!(s.pop_frame().is_some());
    assert!(matches!(s.pop(), Some(ThetaValue::Int(1))));
    assert!(s.pop().is_none());
    s.alloc_framespace(2);
    assert!(s.get_local(0).is_none());
    s.push(ThetaValue::Bool(true));
    s.set_local(0);
    assert!(matches!(s.get_local(0), Some(ThetaValue::Bool(true))));
    s.clean_frame();
    assert!(s.peek().is_none());
}

#[test]
fn name_table_replaces_values() {
    let mut t: NameTable<i32> = NameTable::new();
    t.insert(String::from("a"), 1);
    t.insert(String::from("b"), 2);
    t.insert(String::from("a"), 3);
    assert_eq!(t.len(), 2);
    assert_eq!(t.get(&String::from("a")), Some(&3));
    assert_eq!(t.get(&String::from("c")), None);
}

#[test]
fn repl_status_values() {
    assert_ne!(ReplStatus::ReplOk, ReplStatus::ReplTerminate);
}

#[test]
fn step_runs_instructions_that_can_be_carried_out() {
    let mut vm = machine_with(vec![ThetaValue::Int(7), ThetaValue::Int(5)]);
    let c = chunk(&[0x1, 0, 0x1, 1, 0x5, 0x0]);
    assert!(matches!(vm.step(&c, 16), Step::Continue(18)));
    assert!(matches!(vm.step(&c, 18), Step::Continue(20)));
    assert!(matches!(vm.step(&c, 20), Step::Continue(21)));
    match vm.step(&c, 21) {
        Step::Print(Some(ThetaValue::Int(2)), 22) => {},
        _ => panic!("expected the difference to be printed"),
    }
    assert!(matches!(vm.step(&c, 22), Step::Finished));
}
