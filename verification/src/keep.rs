//! What the rules of the stack compiler that do not depend on others keep.
use vstd::prelude::*;

use crate::code::Opcode;
use crate::codegen::{CompilerView, PLACEHOLDER};
use crate::object::{FunctionView, ObjectView};
use crate::rules::{define_accessor, gen_item, gen_length_test, gen_next_item, gen_prefix};
use crate::sound::{
    grows, is_composed, is_jump, step_add_constant, step_emit, step_emit0, step_emit1, step_fail,
    step_push_int, step_push_name, step_push_object, step_push_property, step_step_name,
};

verus! {

pub(crate) broadcast proof fn rule_gen_length_test(
    b: CompilerView,
    s: CompilerView,
    index: Seq<char>,
    source: Seq<char>,
)
    requires
        #[trigger] grows(b, s),
    ensures
        grows(b, #[trigger] gen_length_test(s, index, source)),
        is_jump(gen_length_test(s, index, source), gen_length_test(s, index, source).last_position, 0),
        grows(gen_length_test(s, index, source), gen_length_test(s, index, source)),
{
    broadcast use {step_emit0, step_emit1, step_push_name, step_push_property};

    reveal(gen_length_test);
    let t = s.push_name(index).push_property(source, "length"@).emit0(Opcode::OpLessThan);
    step_emit1(b, t, Opcode::OpJumpNotTruthy, PLACEHOLDER);
    reveal(CompilerView::emit1);
    reveal(CompilerView::emit);
}

pub(crate) broadcast proof fn rule_gen_item(
    b: CompilerView,
    s: CompilerView,
    index: Seq<char>,
    source: Seq<char>,
)
    requires
        #[trigger] grows(b, s),
    ensures
        grows(b, #[trigger] gen_item(s, index, source)),
{
    broadcast use {step_emit0, step_push_name};

    reveal(gen_item);
}

pub(crate) broadcast proof fn rule_gen_next_item(
    b: CompilerView,
    s: CompilerView,
    index: Seq<char>,
    start: usize,
)
    requires
        #[trigger] grows(b, s),
    ensures
        grows(b, #[trigger] gen_next_item(s, index, start)),
{
    broadcast use {step_emit0, step_emit1, step_step_name};

    reveal(gen_next_item);
}

pub(crate) broadcast proof fn rule_gen_prefix(b: CompilerView, s: CompilerView, operator: Seq<char>)
    requires
        #[trigger] grows(b, s),
    ensures
        grows(b, #[trigger] gen_prefix(s, operator)),
{
    broadcast use {step_emit0, step_fail, step_push_int};

    reveal(gen_prefix);
}

pub(crate) broadcast proof fn rule_define_accessor(
    b: CompilerView,
    s: CompilerView,
    f: FunctionView,
    name: Seq<char>,
    kind: u16,
)
    requires
        #[trigger] grows(b, s),
        s.err is None ==> is_composed(f),
    ensures
        grows(b, #[trigger] define_accessor(s, f, name, kind)),
{
    broadcast use {step_emit, step_add_constant, step_push_object};

    reveal(define_accessor);
    step_push_object(b, s, ObjectView::Function(f));
    reveal(CompilerView::push_object);
}

} // verus!
