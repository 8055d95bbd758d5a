//! What the rules of the register compiler that do not depend on others leave as it is.
use vstd::prelude::*;

use crate::ast::{Expression, Statement, SwitchCase};
use crate::object::{ClassView, FunctionView};
use crate::rcode::ROp;
use crate::rcodegen::RView;
use crate::rextend::{
    all_from, builds_on, ext_add_constant, ext_add_int, ext_add_string, ext_after_cache_slot,
    ext_after_name, ext_copy_reg, ext_defer_return, ext_emit, ext_fail, ext_get_name_prop,
    ext_get_prop, ext_here, ext_load_const, ext_load_int, ext_load_name, ext_load_name_new,
    ext_local_reg, ext_mirror, ext_numeric_constant, ext_patch, ext_reload_from,
    ext_rfuse_increment, ext_set_temps, ext_store_global, ext_store_name, ext_store_target,
    ext_take_temp, ext_throw_to_handler,
};
use crate::rkeep_statements::tests_from;
use crate::rrules::{
    add_accessor, add_constant_to_local, add_constant_to_property, assign_rest, call_method,
    define_accessors, get_element, hold, init_class, note_throw, open_finally, open_thrown,
    resume_return, resume_throw, rfuse_add, rfuse_last, rfuse_property_add, rfuse_property_sum,
    rgen_item, rgen_length_test, rgen_next_item, rgen_prefix, right_constant, rpatch_cases,
    rstep_name, start_counter, store_rest, store_result, store_to_name, test_nullish,
    test_undefined, throw_reg, write_back, write_back_name,
};

verus! {

pub broadcast proof fn ext_init_class(b: RView, s: RView, class: ClassView, r: u16)
    requires
        #[trigger] builds_on(b, s),
    ensures
        builds_on(b, #[trigger] init_class(s, class, r)),
        s.instructions.len() <= init_class(s, class, r).instructions.len(),
        init_class(s, class, r).loop_stack.len() == s.loop_stack.len(),
        init_class(s, class, r).try_stack.len() == s.try_stack.len(),
{
    broadcast use {ext_emit, ext_reload_from};

    reveal(init_class);
}

pub broadcast proof fn ext_rfuse_last(b: RView, s: RView, body: Seq<Statement>)
    requires
        #[trigger] builds_on(b, s),
    ensures
        builds_on(b, (#[trigger] rfuse_last(s, body)).0),
        s.instructions.len() <= rfuse_last(s, body).0.instructions.len(),
        rfuse_last(s, body).0.loop_stack.len() == s.loop_stack.len(),
        rfuse_last(s, body).0.try_stack.len() == s.try_stack.len(),
{
    broadcast use ext_rfuse_increment;

    reveal(rfuse_last);
}

pub broadcast proof fn ext_start_counter(b: RView, s: RView, index: Seq<char>)
    requires
        #[trigger] builds_on(b, s),
    ensures
        builds_on(b, #[trigger] start_counter(s, index)),
        s.instructions.len() <= start_counter(s, index).instructions.len(),
        start_counter(s, index).loop_stack.len() == s.loop_stack.len(),
        start_counter(s, index).try_stack.len() == s.try_stack.len(),
{
    broadcast use {ext_take_temp, ext_local_reg, ext_load_int, ext_store_global};

    reveal(start_counter);
}

pub broadcast proof fn ext_rgen_length_test(b: RView, s: RView, index: Seq<char>, source: Seq<char>)
    requires
        #[trigger] builds_on(b, s),
    ensures
        builds_on(b, (#[trigger] rgen_length_test(s, index, source)).0),
        s.instructions.len() <= rgen_length_test(s, index, source).0.instructions.len(),
        rgen_length_test(s, index, source).0.loop_stack.len() == s.loop_stack.len(),
        rgen_length_test(s, index, source).0.try_stack.len() == s.try_stack.len(),
        rgen_length_test(s, index, source).0.instructions.len() <= usize::MAX ==> s.instructions.len() <= rgen_length_test(s, index, source).1,
{
    broadcast use {
        ext_emit,
        ext_take_temp,
        ext_set_temps,
        ext_load_name_new,
        ext_get_name_prop,
        ext_here,
    };

    reveal(rgen_length_test);
}

pub broadcast proof fn ext_rgen_item(b: RView, s: RView, index: Seq<char>, source: Seq<char>)
    requires
        #[trigger] builds_on(b, s),
    ensures
        builds_on(b, #[trigger] rgen_item(s, index, source)),
        s.instructions.len() <= rgen_item(s, index, source).instructions.len(),
        rgen_item(s, index, source).loop_stack.len() == s.loop_stack.len(),
        rgen_item(s, index, source).try_stack.len() == s.try_stack.len(),
{
    broadcast use {ext_emit, ext_take_temp, ext_load_name_new};

    reveal(rgen_item);
}

pub broadcast proof fn ext_store_result(b: RView, s: RView, name: Seq<char>, result: u16, dst: u16)
    requires
        #[trigger] builds_on(b, s),
    ensures
        builds_on(b, #[trigger] store_result(s, name, result, dst)),
        s.instructions.len() <= store_result(s, name, result, dst).instructions.len(),
        store_result(s, name, result, dst).loop_stack.len() == s.loop_stack.len(),
        store_result(s, name, result, dst).try_stack.len() == s.try_stack.len(),
{
    broadcast use {ext_copy_reg, ext_mirror, ext_store_global};

    reveal(store_result);
}

pub broadcast proof fn ext_add_constant_to_local(
    b: RView,
    s: RView,
    name: Seq<char>,
    idx: u16,
    dst: u16,
)
    requires
        #[trigger] builds_on(b, s),
    ensures
        builds_on(b, #[trigger] add_constant_to_local(s, name, idx, dst)),
        s.instructions.len() <= add_constant_to_local(s, name, idx, dst).instructions.len(),
        add_constant_to_local(s, name, idx, dst).loop_stack.len() == s.loop_stack.len(),
        add_constant_to_local(s, name, idx, dst).try_stack.len() == s.try_stack.len(),
{
    broadcast use {ext_emit, ext_copy_reg, ext_mirror};

    reveal(add_constant_to_local);
}

pub broadcast proof fn ext_rstep_name(
    b: RView,
    s: RView,
    name: Seq<char>,
    operator: Seq<char>,
    dst: u16,
)
    requires
        #[trigger] builds_on(b, s),
    ensures
        builds_on(b, #[trigger] rstep_name(s, name, operator, dst)),
        s.instructions.len() <= rstep_name(s, name, operator, dst).instructions.len(),
        rstep_name(s, name, operator, dst).loop_stack.len() == s.loop_stack.len(),
        rstep_name(s, name, operator, dst).try_stack.len() == s.try_stack.len(),
{
    broadcast use {
        ext_fail,
        ext_emit,
        ext_take_temp,
        ext_add_int,
        ext_load_int,
        ext_load_name,
        ext_store_result,
        ext_add_constant_to_local,
    };

    reveal(rstep_name);
}

pub broadcast proof fn ext_rgen_next_item(b: RView, s: RView, index: Seq<char>, start: usize)
    requires
        #[trigger] builds_on(b, s),
    ensures
        builds_on(b, #[trigger] rgen_next_item(s, index, start)),
        s.instructions.len() <= rgen_next_item(s, index, start).instructions.len(),
        rgen_next_item(s, index, start).loop_stack.len() == s.loop_stack.len(),
        rgen_next_item(s, index, start).try_stack.len() == s.try_stack.len(),
{
    broadcast use {ext_emit, ext_take_temp, ext_rstep_name};

    reveal(rgen_next_item);
}

pub broadcast proof fn ext_call_method(
    b: RView,
    s: RView,
    dst: u16,
    base: u16,
    count: u16,
    prop: Seq<char>,
)
    requires
        #[trigger] builds_on(b, s),
    ensures
        builds_on(b, #[trigger] call_method(s, dst, base, count, prop)),
        s.instructions.len() <= call_method(s, dst, base, count, prop).instructions.len(),
        call_method(s, dst, base, count, prop).loop_stack.len() == s.loop_stack.len(),
        call_method(s, dst, base, count, prop).try_stack.len() == s.try_stack.len(),
{
    broadcast use {ext_emit, ext_after_cache_slot, ext_add_string};

    reveal(call_method);
}

pub broadcast proof fn ext_open_finally(b: RView, s: RView)
    requires
        #[trigger] builds_on(b, s),
    ensures
        builds_on(b, (#[trigger] open_finally(s)).0),
        s.instructions.len() <= open_finally(s).0.instructions.len(),
        open_finally(s).0.loop_stack.len() == s.loop_stack.len(),
        open_finally(s).0.try_stack.len() == s.try_stack.len(),
{
    broadcast use {ext_emit, ext_after_name, ext_take_temp, ext_store_name};

    reveal(open_finally);
}

pub broadcast proof fn ext_resume_return(b: RView, s: RView, held: Seq<char>, flag: Seq<char>)
    requires
        #[trigger] builds_on(b, s),
    ensures
        builds_on(b, #[trigger] resume_return(s, held, flag)),
        s.instructions.len() <= resume_return(s, held, flag).instructions.len(),
        resume_return(s, held, flag).loop_stack.len() == s.loop_stack.len(),
        resume_return(s, held, flag).try_stack.len() == s.try_stack.len(),
{
    broadcast use {ext_emit, ext_load_name_new, ext_patch, ext_defer_return, ext_here};

    reveal(resume_return);
}

pub broadcast proof fn ext_open_thrown(b: RView, s: RView)
    requires
        #[trigger] builds_on(b, s),
    ensures
        builds_on(b, (#[trigger] open_thrown(s)).0),
        s.instructions.len() <= open_thrown(s).0.instructions.len(),
        open_thrown(s).0.loop_stack.len() == s.loop_stack.len(),
        open_thrown(s).0.try_stack.len() == s.try_stack.len(),
{
    broadcast use {ext_emit, ext_after_name, ext_take_temp, ext_store_name};

    reveal(open_thrown);
}

pub broadcast proof fn ext_note_throw(b: RView, s: RView, thrown: Seq<char>)
    requires
        #[trigger] builds_on(b, s),
    ensures
        builds_on(b, #[trigger] note_throw(s, thrown)),
        s.instructions.len() <= note_throw(s, thrown).instructions.len(),
        note_throw(s, thrown).loop_stack.len() == s.loop_stack.len(),
        note_throw(s, thrown).try_stack.len() == s.try_stack.len(),
{
    broadcast use {ext_emit, ext_take_temp, ext_store_name};

    reveal(note_throw);
}

pub broadcast proof fn ext_throw_reg(b: RView, s: RView, r: u16)
    requires
        #[trigger] builds_on(b, s),
    ensures
        builds_on(b, #[trigger] throw_reg(s, r)),
        s.instructions.len() <= throw_reg(s, r).instructions.len(),
        throw_reg(s, r).loop_stack.len() == s.loop_stack.len(),
        throw_reg(s, r).try_stack.len() == s.try_stack.len(),
{
    broadcast use {ext_emit, ext_throw_to_handler};

    reveal(throw_reg);
}

pub broadcast proof fn ext_resume_throw(b: RView, s: RView, exception: Seq<char>, thrown: Seq<char>)
    requires
        #[trigger] builds_on(b, s),
    ensures
        builds_on(b, #[trigger] resume_throw(s, exception, thrown)),
        s.instructions.len() <= resume_throw(s, exception, thrown).instructions.len(),
        resume_throw(s, exception, thrown).loop_stack.len() == s.loop_stack.len(),
        resume_throw(s, exception, thrown).try_stack.len() == s.try_stack.len(),
{
    broadcast use {ext_emit, ext_load_name_new, ext_patch, ext_throw_reg, ext_here};

    reveal(resume_throw);
}

pub broadcast proof fn ext_get_element(b: RView, s: RView, source: u16, i: int)
    requires
        #[trigger] builds_on(b, s),
    ensures
        builds_on(b, #[trigger] get_element(s, source, i)),
        s.instructions.len() <= get_element(s, source, i).instructions.len(),
        get_element(s, source, i).loop_stack.len() == s.loop_stack.len(),
        get_element(s, source, i).try_stack.len() == s.try_stack.len(),
{
    broadcast use {ext_emit, ext_take_temp, ext_load_int};

    reveal(get_element);
}

pub broadcast proof fn ext_store_rest(b: RView, s: RView, source: u16, i: int, name: Seq<char>)
    requires
        #[trigger] builds_on(b, s),
    ensures
        builds_on(b, #[trigger] store_rest(s, source, i, name)),
        s.instructions.len() <= store_rest(s, source, i, name).instructions.len(),
        store_rest(s, source, i, name).loop_stack.len() == s.loop_stack.len(),
        store_rest(s, source, i, name).try_stack.len() == s.try_stack.len(),
{
    broadcast use {ext_emit, ext_take_temp, ext_store_name};

    reveal(store_rest);
}

pub broadcast proof fn ext_assign_rest(b: RView, s: RView, source: u16, i: int, name: Seq<char>)
    requires
        #[trigger] builds_on(b, s),
    ensures
        builds_on(b, #[trigger] assign_rest(s, source, i, name)),
        s.instructions.len() <= assign_rest(s, source, i, name).instructions.len(),
        assign_rest(s, source, i, name).loop_stack.len() == s.loop_stack.len(),
        assign_rest(s, source, i, name).try_stack.len() == s.try_stack.len(),
{
    broadcast use {ext_emit, ext_take_temp, ext_store_target};

    reveal(assign_rest);
}

pub broadcast proof fn ext_test_undefined(b: RView, s: RView, value: u16)
    requires
        #[trigger] builds_on(b, s),
    ensures
        builds_on(b, (#[trigger] test_undefined(s, value)).0),
        s.instructions.len() <= test_undefined(s, value).0.instructions.len(),
        test_undefined(s, value).0.loop_stack.len() == s.loop_stack.len(),
        test_undefined(s, value).0.try_stack.len() == s.try_stack.len(),
        test_undefined(s, value).0.instructions.len() <= usize::MAX ==> s.instructions.len() <= test_undefined(s, value).1,
{
    broadcast use {ext_emit, ext_take_temp, ext_add_string, ext_load_const, ext_here};

    reveal(test_undefined);
}

pub broadcast proof fn ext_rgen_prefix(
    b: RView,
    s: RView,
    operator: Seq<char>,
    dst: u16,
    source: u16,
)
    requires
        #[trigger] builds_on(b, s),
    ensures
        builds_on(b, #[trigger] rgen_prefix(s, operator, dst, source)),
        s.instructions.len() <= rgen_prefix(s, operator, dst, source).instructions.len(),
        rgen_prefix(s, operator, dst, source).loop_stack.len() == s.loop_stack.len(),
        rgen_prefix(s, operator, dst, source).try_stack.len() == s.try_stack.len(),
{
    broadcast use {ext_fail, ext_emit, ext_take_temp, ext_add_int, ext_load_const};

    reveal(rgen_prefix);
}

pub broadcast proof fn ext_test_nullish(b: RView, s: RView, source: u16, dst: u16)
    requires
        #[trigger] builds_on(b, s),
    ensures
        builds_on(b, (#[trigger] test_nullish(s, source, dst)).0),
        s.instructions.len() <= test_nullish(s, source, dst).0.instructions.len(),
        test_nullish(s, source, dst).0.loop_stack.len() == s.loop_stack.len(),
        test_nullish(s, source, dst).0.try_stack.len() == s.try_stack.len(),
        test_nullish(s, source, dst).0.instructions.len() <= usize::MAX ==> s.instructions.len() <= test_nullish(s, source, dst).1,
{
    broadcast use {ext_emit, ext_take_temp, ext_patch, ext_here};

    reveal(test_nullish);
}

pub broadcast proof fn ext_write_back_name(b: RView, s: RView, name: Seq<char>, object: u16)
    requires
        #[trigger] builds_on(b, s),
    ensures
        builds_on(b, #[trigger] write_back_name(s, name, object)),
        s.instructions.len() <= write_back_name(s, name, object).instructions.len(),
        write_back_name(s, name, object).loop_stack.len() == s.loop_stack.len(),
        write_back_name(s, name, object).try_stack.len() == s.try_stack.len(),
{
    broadcast use ext_emit;

    reveal(write_back_name);
}

pub broadcast proof fn ext_add_accessor(
    b: RView,
    s: RView,
    f: FunctionView,
    key: Expression,
    kind: u16,
)
    requires
        #[trigger] builds_on(b, s),
    ensures
        builds_on(b, (#[trigger] add_accessor(s, f, key, kind)).0),
        s.instructions.len() <= add_accessor(s, f, key, kind).0.instructions.len(),
        add_accessor(s, f, key, kind).0.loop_stack.len() == s.loop_stack.len(),
        add_accessor(s, f, key, kind).0.try_stack.len() == s.try_stack.len(),
{
    broadcast use {ext_fail, ext_add_constant, ext_add_string};

    reveal(add_accessor);
}

pub broadcast proof fn ext_rfuse_add(
    b: RView,
    s: RView,
    name: Seq<char>,
    operator: Seq<char>,
    right: Expression,
)
    requires
        #[trigger] builds_on(b, s),
    ensures
        builds_on(b, (#[trigger] rfuse_add(s, name, operator, right)).0),
        s.instructions.len() <= rfuse_add(s, name, operator, right).0.instructions.len(),
        rfuse_add(s, name, operator, right).0.loop_stack.len() == s.loop_stack.len(),
        rfuse_add(s, name, operator, right).0.try_stack.len() == s.try_stack.len(),
{
    broadcast use ext_numeric_constant;

    reveal(rfuse_add);
}

pub broadcast proof fn ext_store_to_name(b: RView, s: RView, name: Seq<char>, source: u16)
    requires
        #[trigger] builds_on(b, s),
    ensures
        builds_on(b, #[trigger] store_to_name(s, name, source)),
        s.instructions.len() <= store_to_name(s, name, source).instructions.len(),
        store_to_name(s, name, source).loop_stack.len() == s.loop_stack.len(),
        store_to_name(s, name, source).try_stack.len() == s.try_stack.len(),
{
    broadcast use {ext_copy_reg, ext_mirror, ext_store_global};

    reveal(store_to_name);
}

pub broadcast proof fn ext_write_back(b: RView, s: RView, object: Expression, r: u16)
    requires
        #[trigger] builds_on(b, s),
    ensures
        builds_on(b, #[trigger] write_back(s, object, r)),
        s.instructions.len() <= write_back(s, object, r).instructions.len(),
        write_back(s, object, r).loop_stack.len() == s.loop_stack.len(),
        write_back(s, object, r).try_stack.len() == s.try_stack.len(),
{
    broadcast use ext_copy_reg;

    reveal(write_back);
}

pub broadcast proof fn ext_right_constant(b: RView, s: RView, e: Expression)
    requires
        #[trigger] builds_on(b, s),
    ensures
        builds_on(b, (#[trigger] right_constant(s, e)).0),
        s.instructions.len() <= right_constant(s, e).0.instructions.len(),
        right_constant(s, e).0.loop_stack.len() == s.loop_stack.len(),
        right_constant(s, e).0.try_stack.len() == s.try_stack.len(),
{
    broadcast use {ext_add_int, ext_numeric_constant};

    reveal(right_constant);
}

pub broadcast proof fn ext_rfuse_property_add(
    b: RView,
    s: RView,
    e: Expression,
    operator: Seq<char>,
)
    requires
        #[trigger] builds_on(b, s),
    ensures
        builds_on(b, (#[trigger] rfuse_property_add(s, e, operator)).0),
        s.instructions.len() <= rfuse_property_add(s, e, operator).0.instructions.len(),
        rfuse_property_add(s, e, operator).0.loop_stack.len() == s.loop_stack.len(),
        rfuse_property_add(s, e, operator).0.try_stack.len() == s.try_stack.len(),
{
    broadcast use {ext_numeric_constant, ext_right_constant};

    reveal(rfuse_property_add);
}

pub broadcast proof fn ext_add_constant_to_property(
    b: RView,
    s: RView,
    r: u16,
    prop: Seq<char>,
    idx: u16,
    dst: u16,
)
    requires
        #[trigger] builds_on(b, s),
    ensures
        builds_on(b, #[trigger] add_constant_to_property(s, r, prop, idx, dst)),
        s.instructions.len() <= add_constant_to_property(s, r, prop, idx, dst).instructions.len(),
        add_constant_to_property(s, r, prop, idx, dst).loop_stack.len() == s.loop_stack.len(),
        add_constant_to_property(s, r, prop, idx, dst).try_stack.len() == s.try_stack.len(),
{
    broadcast use {ext_emit, ext_after_cache_slot, ext_add_string, ext_get_prop};

    reveal(add_constant_to_property);
}

pub broadcast proof fn ext_rfuse_property_sum(
    b: RView,
    s: RView,
    e: Expression,
    operator: Seq<char>,
)
    requires
        #[trigger] builds_on(b, s),
    ensures
        builds_on(b, (#[trigger] rfuse_property_sum(s, e, operator)).0),
        s.instructions.len() <= rfuse_property_sum(s, e, operator).0.instructions.len(),
        rfuse_property_sum(s, e, operator).0.loop_stack.len() == s.loop_stack.len(),
        rfuse_property_sum(s, e, operator).0.try_stack.len() == s.try_stack.len(),
{
    broadcast use {ext_after_cache_slot, ext_add_string};

    reveal(rfuse_property_sum);
}

pub broadcast proof fn ext_hold(b: RView, s: RView, prefix: Seq<char>, value: u16)
    requires
        #[trigger] builds_on(b, s),
    ensures
        builds_on(b, (#[trigger] hold(s, prefix, value)).0),
        s.instructions.len() <= hold(s, prefix, value).0.instructions.len(),
        hold(s, prefix, value).0.loop_stack.len() == s.loop_stack.len(),
        hold(s, prefix, value).0.try_stack.len() == s.try_stack.len(),
{
    broadcast use {ext_after_name, ext_store_name};

    reveal(hold);
}

pub broadcast proof fn ext_define_accessors(
    b: RView,
    s: RView,
    dst: u16,
    accessors: Seq<(u16, u16, u16)>,
    i: int,
)
    requires
        #[trigger] builds_on(b, s),
    ensures
        builds_on(b, #[trigger] define_accessors(s, dst, accessors, i)),
        s.instructions.len() <= define_accessors(s, dst, accessors, i).instructions.len(),
        define_accessors(s, dst, accessors, i).loop_stack.len() == s.loop_stack.len(),
        define_accessors(s, dst, accessors, i).try_stack.len() == s.try_stack.len(),
    decreases accessors.len() - i,
{
    broadcast use {ext_emit, ext_take_temp, ext_load_const};

    reveal(define_accessors);
    if 0 <= i < accessors.len() {
        let (prop, function, kind) = accessors[i];
        let t = s.take_temp().load_const(s.next_temp, function);
        let u = t.emit(ROp::DefineAccessor, seq![dst, s.next_temp, prop, kind]);
        ext_define_accessors(b, u, dst, accessors, i + 1);
    }
}

pub(crate) proof fn lemma_patch_cases(
    b: RView,
    s: RView,
    cases: Seq<SwitchCase>,
    i: int,
    jumps: Seq<usize>,
    j: int,
    starts: Seq<usize>,
)
    requires
        builds_on(b, s),
        s.instructions.len() <= usize::MAX ==> all_from(jumps, b.instructions.len() as int),
        0 <= i,
        0 <= j,
        j + tests_from(cases, i) <= jumps.len(),
    ensures
        builds_on(b, rpatch_cases(s, cases, i, jumps, j, starts)),
        rpatch_cases(s, cases, i, jumps, j, starts).instructions.len() == s.instructions.len(),
        rpatch_cases(s, cases, i, jumps, j, starts).loop_stack == s.loop_stack,
        rpatch_cases(s, cases, i, jumps, j, starts).try_stack == s.try_stack,
    decreases cases.len() - i,
{
    reveal(rpatch_cases);
    if i < cases.len() {
        if cases[i].test is Some {
            lemma_tests_left(cases, i + 1);
            ext_patch(b, s, jumps[j], starts[i]);
            let t = s.patch(jumps[j], starts[i]);
            assert(t.loop_stack == s.loop_stack && t.try_stack == s.try_stack) by {
                reveal(RView::patch);
            }
            lemma_patch_cases(b, t, cases, i + 1, jumps, j + 1, starts);
        } else {
            lemma_patch_cases(b, s, cases, i + 1, jumps, j, starts);
        }
    }
}

pub(crate) proof fn lemma_tests_left(cases: Seq<SwitchCase>, i: int)
    ensures
        tests_from(cases, i) >= 0,
    decreases cases.len() - i,
{
    if 0 <= i < cases.len() {
        lemma_tests_left(cases, i + 1);
    }
}

} // verus!
