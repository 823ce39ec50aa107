//! The stack machine that runs assembled chunks.

mod names;

pub use self::names::{names_map, distinct_names, NameTable};
mod stack;

pub use self::stack::{values_view, slot_view, ref_view, slots_view, FrameView, fresh_call, ThetaCallFrame, StackView, initial_stack, ThetaStack, lemma_push_then_pop};
mod machine;

pub use self::machine::{VM, registered, VmError, FloatOp, Step, StepView, step_view, VmView, initial_machine, is_binary, float_op, abs, trunc_div, int_result, Combined, combined, binary_step, SIGN_BIT, negate_step, jump_target, global_name, jumped, branch_step, byte_step, word_step, step_spec, begin_spec, run_steps, lemma_intern_idempotent, lemma_define_then_read_global, lemma_store_then_load_local, with_pair, lemma_integer_instructions, lemma_string_comparisons, lemma_string_and_bool_operations, lemma_double_operations, lemma_negate_twice};
mod disassembler;

pub use self::disassembler::{constant_value, interned_all, BasicDisassembler};
