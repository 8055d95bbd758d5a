//! What the rules of the register compiler that do not depend on others keep.
use vstd::prelude::*;

use crate::ast::{Expression, HashEntry, Statement};
use crate::codegen::Slot;
use crate::object::{ClassView, FunctionView};
use crate::rcode::ROp;
use crate::rcodegen::{numeric_constant, RView};
use crate::rrules::{
    add_accessor, add_constant_to_local, add_constant_to_property, assign_rest, call_method,
    define_accessors, element_reg, get_element, hold, init_class, note_throw, object_local,
    open_finally, open_thrown, resume_return, resume_throw, rfuse_add, rfuse_last,
    rfuse_property_add, rfuse_property_sum, rgen_item, rgen_length_test, rgen_next_item,
    rgen_prefix, right_constant, rstep_name, start_counter, store_rest, store_result,
    store_to_name, stored_property, test_nullish, test_undefined, throw_reg, write_back,
    write_back_name,
};
use crate::rsound::{
    compound_is_plain, constant_stays, grows, is_constant, is_laid_out, is_place, is_range,
    lemma_grows_on, lemma_grows_sound, local_is_counted, place_lands, place_stays,
    placeholder_lands, places_stay, step_add_constant, step_add_int, step_add_string,
    step_after_cache_slot, step_after_name, step_copy_reg, step_defer_return, step_emit,
    step_emit_plain, step_fail, step_fuse_increment, step_get_name_prop, step_get_prop, step_here,
    step_load_const, step_load_int, step_load_name, step_load_name_new, step_local_reg,
    step_mirror, step_numeric_constant, step_patch, step_reload_from, step_set_temps,
    step_store_global, step_store_name, step_store_target, step_take_temp, step_throw_to_handler,
};

verus! {

pub(crate) broadcast proof fn rule_init_class(b: RView, s: RView, class: ClassView, r: u16)
    requires
        #[trigger] grows(b, s),
        r <= s.max_reg,
    ensures
        grows(b, #[trigger] init_class(s, class, r)),
        s.max_reg <= init_class(s, class, r).max_reg,
{
    broadcast use {step_emit, step_reload_from};

    reveal(init_class);
}

pub(crate) broadcast proof fn rule_rfuse_last(b: RView, s: RView, body: Seq<Statement>)
    requires
        #[trigger] grows(b, s),
    ensures
        grows(b, (#[trigger] rfuse_last(s, body)).0),
        s.max_reg <= rfuse_last(s, body).0.max_reg,
        rfuse_last(s, body).1 matches Some(found) ==> is_constant(rfuse_last(s, body).0, found.1) && found.0 <= rfuse_last(s, body).0.max_reg,
        grows(rfuse_last(s, body).0, rfuse_last(s, body).0),
{
    broadcast use {step_fuse_increment, constant_stays};

    reveal(rfuse_last);
    lemma_grows_sound(b, rfuse_last(s, body).0);
}

pub(crate) broadcast proof fn rule_start_counter(b: RView, s: RView, index: Seq<char>)
    requires
        #[trigger] grows(b, s),
    ensures
        grows(b, #[trigger] start_counter(s, index)),
        s.max_reg <= start_counter(s, index).max_reg,
{
    broadcast use {step_take_temp, step_load_int, step_local_reg, step_store_global};

    reveal(start_counter);
}

pub(crate) broadcast proof fn rule_rgen_length_test(
    b: RView,
    s: RView,
    index: Seq<char>,
    source: Seq<char>,
)
    requires
        #[trigger] grows(b, s),
    ensures
        grows(b, (#[trigger] rgen_length_test(s, index, source)).0),
        s.max_reg <= rgen_length_test(s, index, source).0.max_reg,
        is_place(rgen_length_test(s, index, source).0, rgen_length_test(s, index, source).1),
        grows(rgen_length_test(s, index, source).0, rgen_length_test(s, index, source).0),
{
    broadcast use {
        step_emit,
        step_here,
        step_take_temp,
        step_set_temps,
        step_load_name_new,
        step_get_name_prop,
        place_stays,
        placeholder_lands,
    };

    reveal(rgen_length_test);
    lemma_grows_sound(b, rgen_length_test(s, index, source).0);
}

pub(crate) broadcast proof fn rule_rgen_item(
    b: RView,
    s: RView,
    index: Seq<char>,
    source: Seq<char>,
)
    requires
        #[trigger] grows(b, s),
    ensures
        grows(b, #[trigger] rgen_item(s, index, source)),
        s.max_reg <= rgen_item(s, index, source).max_reg,
        s.next_temp <= rgen_item(s, index, source).max_reg,
{
    broadcast use {step_emit, step_take_temp, step_load_name_new};

    reveal(rgen_item);
}

pub(crate) broadcast proof fn rule_store_result(
    b: RView,
    s: RView,
    name: Seq<char>,
    result: u16,
    dst: u16,
)
    requires
        #[trigger] grows(b, s),
        result <= s.max_reg,
        dst <= s.max_reg,
    ensures
        grows(b, #[trigger] store_result(s, name, result, dst)),
        s.max_reg <= store_result(s, name, result, dst).max_reg,
{
    broadcast use {step_copy_reg, step_mirror, step_store_global, local_is_counted};

    reveal(store_result);
}

pub(crate) broadcast proof fn rule_add_constant_to_local(
    b: RView,
    s: RView,
    name: Seq<char>,
    idx: u16,
    dst: u16,
)
    requires
        #[trigger] grows(b, s),
        is_constant(s, idx),
        s.locals.has(name),
        dst <= s.max_reg,
    ensures
        grows(b, #[trigger] add_constant_to_local(s, name, idx, dst)),
        s.max_reg <= add_constant_to_local(s, name, idx, dst).max_reg,
{
    broadcast use {step_emit, step_copy_reg, step_mirror, local_is_counted};

    lemma_grows_sound(b, s);
    reveal(add_constant_to_local);
}

pub(crate) broadcast proof fn rule_rstep_name(
    b: RView,
    s: RView,
    name: Seq<char>,
    operator: Seq<char>,
    dst: u16,
)
    requires
        #[trigger] grows(b, s),
        dst <= s.max_reg,
    ensures
        grows(b, #[trigger] rstep_name(s, name, operator, dst)),
        s.max_reg <= rstep_name(s, name, operator, dst).max_reg,
{
    broadcast use {
        step_emit,
        step_fail,
        step_take_temp,
        step_add_int,
        step_load_int,
        step_load_name,
        rule_store_result,
        rule_add_constant_to_local,
        local_is_counted,
        constant_stays,
        step_emit_plain,
        compound_is_plain,
    };

    reveal(rstep_name);
    reveal(RView::add_int);
    reveal(RView::add_constant);
}

pub(crate) broadcast proof fn rule_rgen_next_item(
    b: RView,
    s: RView,
    index: Seq<char>,
    start: usize,
)
    requires
        #[trigger] grows(b, s),
        is_place(s, start),
    ensures
        grows(b, #[trigger] rgen_next_item(s, index, start)),
        s.max_reg <= rgen_next_item(s, index, start).max_reg,
{
    broadcast use {
        step_emit,
        step_take_temp,
        rule_rstep_name,
        place_stays,
        places_stay,
        place_lands,
    };

    lemma_grows_sound(b, s);
    reveal(rgen_next_item);
}

pub(crate) broadcast proof fn rule_call_method(
    b: RView,
    s: RView,
    dst: u16,
    base: u16,
    count: u16,
    prop: Seq<char>,
)
    requires
        #[trigger] grows(b, s),
        is_range(s, base, count + 1),
        dst <= s.max_reg,
    ensures
        grows(b, #[trigger] call_method(s, dst, base, count, prop)),
        s.max_reg <= call_method(s, dst, base, count, prop).max_reg,
{
    broadcast use {step_emit, step_after_cache_slot, step_add_string, constant_stays};

    lemma_grows_sound(b, s);
    reveal(call_method);
}

pub(crate) broadcast proof fn rule_open_finally(b: RView, s: RView)
    requires
        #[trigger] grows(b, s),
    ensures
        grows(b, (#[trigger] open_finally(s)).0),
        s.max_reg <= open_finally(s).0.max_reg,
{
    broadcast use {step_emit, step_after_name, step_take_temp, step_store_name};

    reveal(open_finally);
}

pub(crate) broadcast proof fn rule_resume_return(
    b: RView,
    s: RView,
    held: Seq<char>,
    flag: Seq<char>,
)
    requires
        #[trigger] grows(b, s),
    ensures
        grows(b, #[trigger] resume_return(s, held, flag)),
        s.max_reg <= resume_return(s, held, flag).max_reg,
{
    broadcast use {
        step_emit,
        step_patch,
        step_here,
        step_load_name_new,
        step_defer_return,
        place_stays,
        placeholder_lands,
    };

    reveal(resume_return);
}

pub(crate) broadcast proof fn rule_open_thrown(b: RView, s: RView)
    requires
        #[trigger] grows(b, s),
    ensures
        grows(b, (#[trigger] open_thrown(s)).0),
        s.max_reg <= open_thrown(s).0.max_reg,
{
    broadcast use {step_emit, step_after_name, step_take_temp, step_store_name};

    reveal(open_thrown);
}

pub(crate) broadcast proof fn rule_note_throw(b: RView, s: RView, thrown: Seq<char>)
    requires
        #[trigger] grows(b, s),
    ensures
        grows(b, #[trigger] note_throw(s, thrown)),
        s.max_reg <= note_throw(s, thrown).max_reg,
{
    broadcast use {step_emit, step_take_temp, step_store_name};

    reveal(note_throw);
}

pub(crate) broadcast proof fn rule_throw_reg(b: RView, s: RView, r: u16)
    requires
        #[trigger] grows(b, s),
        r <= s.max_reg,
    ensures
        grows(b, #[trigger] throw_reg(s, r)),
        s.max_reg <= throw_reg(s, r).max_reg,
{
    broadcast use {step_emit, step_throw_to_handler};

    reveal(throw_reg);
}

pub(crate) broadcast proof fn rule_resume_throw(
    b: RView,
    s: RView,
    exception: Seq<char>,
    thrown: Seq<char>,
)
    requires
        #[trigger] grows(b, s),
    ensures
        grows(b, #[trigger] resume_throw(s, exception, thrown)),
        s.max_reg <= resume_throw(s, exception, thrown).max_reg,
{
    broadcast use {
        step_emit,
        step_patch,
        step_here,
        step_load_name_new,
        rule_throw_reg,
        place_stays,
        placeholder_lands,
    };

    reveal(resume_throw);
}

pub(crate) broadcast proof fn rule_get_element(b: RView, s: RView, source: u16, i: int)
    requires
        #[trigger] grows(b, s),
        source <= s.max_reg,
    ensures
        grows(b, #[trigger] get_element(s, source, i)),
        s.max_reg <= get_element(s, source, i).max_reg,
        element_reg(s, i) <= get_element(s, source, i).max_reg,
{
    broadcast use {step_emit, step_take_temp, step_load_int};

    reveal(get_element);
    reveal(element_reg);
    reveal(RView::take_temp);
}

pub(crate) broadcast proof fn rule_store_rest(
    b: RView,
    s: RView,
    source: u16,
    i: int,
    name: Seq<char>,
)
    requires
        #[trigger] grows(b, s),
        source <= s.max_reg,
    ensures
        grows(b, #[trigger] store_rest(s, source, i, name)),
        s.max_reg <= store_rest(s, source, i, name).max_reg,
{
    broadcast use {step_emit, step_take_temp, step_store_name, place_lands};

    reveal(store_rest);
}

pub(crate) broadcast proof fn rule_assign_rest(
    b: RView,
    s: RView,
    source: u16,
    i: int,
    name: Seq<char>,
)
    requires
        #[trigger] grows(b, s),
        source <= s.max_reg,
    ensures
        grows(b, #[trigger] assign_rest(s, source, i, name)),
        s.max_reg <= assign_rest(s, source, i, name).max_reg,
{
    broadcast use {step_emit, step_take_temp, step_store_target, place_lands};

    reveal(assign_rest);
}

pub(crate) broadcast proof fn rule_test_undefined(b: RView, s: RView, value: u16)
    requires
        #[trigger] grows(b, s),
        value <= s.max_reg,
    ensures
        grows(b, (#[trigger] test_undefined(s, value)).0),
        s.max_reg <= test_undefined(s, value).0.max_reg,
        is_place(test_undefined(s, value).0, test_undefined(s, value).1),
        grows(test_undefined(s, value).0, test_undefined(s, value).0),
{
    broadcast use {
        step_emit,
        step_here,
        step_take_temp,
        step_add_string,
        step_load_const,
        place_stays,
        constant_stays,
        placeholder_lands,
    };

    reveal(test_undefined);
    lemma_grows_sound(b, test_undefined(s, value).0);
}

pub(crate) broadcast proof fn rule_rgen_prefix(
    b: RView,
    s: RView,
    operator: Seq<char>,
    dst: u16,
    source: u16,
)
    requires
        #[trigger] grows(b, s),
        dst <= s.max_reg,
        source <= s.max_reg,
    ensures
        grows(b, #[trigger] rgen_prefix(s, operator, dst, source)),
        s.max_reg <= rgen_prefix(s, operator, dst, source).max_reg,
{
    broadcast use {
        step_emit,
        step_fail,
        step_take_temp,
        step_add_int,
        step_load_const,
        constant_stays,
    };

    reveal(rgen_prefix);
}

pub(crate) broadcast proof fn rule_test_nullish(b: RView, s: RView, source: u16, dst: u16)
    requires
        #[trigger] grows(b, s),
        source <= s.max_reg,
        dst <= s.max_reg,
    ensures
        grows(b, (#[trigger] test_nullish(s, source, dst)).0),
        s.max_reg <= test_nullish(s, source, dst).0.max_reg,
        is_place(test_nullish(s, source, dst).0, test_nullish(s, source, dst).1),
        grows(test_nullish(s, source, dst).0, test_nullish(s, source, dst).0),
{
    broadcast use {
        step_emit,
        step_patch,
        step_here,
        step_take_temp,
        place_stays,
        placeholder_lands,
    };

    reveal(test_nullish);
    lemma_grows_sound(b, test_nullish(s, source, dst).0);
}

pub(crate) broadcast proof fn rule_write_back_name(b: RView, s: RView, name: Seq<char>, object: u16)
    requires
        #[trigger] grows(b, s),
        object <= s.max_reg,
    ensures
        grows(b, #[trigger] write_back_name(s, name, object)),
        s.max_reg <= write_back_name(s, name, object).max_reg,
{
    broadcast use {step_emit, local_is_counted};

    reveal(write_back_name);
}

pub(crate) broadcast proof fn rule_add_accessor(
    b: RView,
    s: RView,
    f: FunctionView,
    key: Expression,
    kind: u16,
)
    requires
        #[trigger] grows(b, s),
        is_laid_out(f),
    ensures
        grows(b, (#[trigger] add_accessor(s, f, key, kind)).0),
        s.max_reg <= add_accessor(s, f, key, kind).0.max_reg,
        add_accessor(s, f, key, kind).1 matches Some(a) ==> is_constant(add_accessor(s, f, key, kind).0, a.0) && is_constant(add_accessor(s, f, key, kind).0, a.1),
        grows(add_accessor(s, f, key, kind).0, add_accessor(s, f, key, kind).0),
{
    broadcast use {step_fail, step_add_constant, step_add_string, constant_stays};

    lemma_grows_sound(b, s);
    reveal(add_accessor);
    lemma_grows_sound(b, add_accessor(s, f, key, kind).0);
}

pub(crate) broadcast proof fn rule_rfuse_add(
    b: RView,
    s: RView,
    name: Seq<char>,
    operator: Seq<char>,
    right: Expression,
)
    requires
        #[trigger] grows(b, s),
    ensures
        grows(b, (#[trigger] rfuse_add(s, name, operator, right)).0),
        s.max_reg <= rfuse_add(s, name, operator, right).0.max_reg,
        rfuse_add(s, name, operator, right).1 matches Some(idx) ==> is_constant(rfuse_add(s, name, operator, right).0, idx) && rfuse_add(s, name, operator, right).0.locals.has(name),
        grows(rfuse_add(s, name, operator, right).0, rfuse_add(s, name, operator, right).0),
{
    broadcast use {step_numeric_constant, local_is_counted, constant_stays};

    reveal(rfuse_add);
    reveal(numeric_constant);
    reveal(RView::add_int);
    reveal(RView::add_float);
    reveal(RView::add_constant);
    lemma_grows_sound(b, rfuse_add(s, name, operator, right).0);
}

pub(crate) broadcast proof fn rule_store_to_name(b: RView, s: RView, name: Seq<char>, source: u16)
    requires
        #[trigger] grows(b, s),
        source <= s.max_reg,
    ensures
        grows(b, #[trigger] store_to_name(s, name, source)),
        s.max_reg <= store_to_name(s, name, source).max_reg,
{
    broadcast use {step_copy_reg, step_mirror, step_store_global, local_is_counted};

    reveal(store_to_name);
}

pub(crate) broadcast proof fn rule_write_back(b: RView, s: RView, object: Expression, r: u16)
    requires
        #[trigger] grows(b, s),
        r <= s.max_reg,
    ensures
        grows(b, #[trigger] write_back(s, object, r)),
        s.max_reg <= write_back(s, object, r).max_reg,
{
    broadcast use {step_copy_reg, rule_object_local};

    reveal(write_back);
}

pub(crate) broadcast proof fn rule_right_constant(b: RView, s: RView, e: Expression)
    requires
        #[trigger] grows(b, s),
    ensures
        grows(b, (#[trigger] right_constant(s, e)).0),
        s.max_reg <= right_constant(s, e).0.max_reg,
        right_constant(s, e).1 matches Some(idx) ==> is_constant(right_constant(s, e).0, idx),
        grows(right_constant(s, e).0, right_constant(s, e).0),
{
    broadcast use {step_add_int, step_numeric_constant, constant_stays};

    reveal(right_constant);
    lemma_grows_sound(b, right_constant(s, e).0);
}

pub(crate) broadcast proof fn rule_rfuse_property_add(
    b: RView,
    s: RView,
    e: Expression,
    operator: Seq<char>,
)
    requires
        #[trigger] grows(b, s),
    ensures
        grows(b, (#[trigger] rfuse_property_add(s, e, operator)).0),
        s.max_reg <= rfuse_property_add(s, e, operator).0.max_reg,
        rfuse_property_add(s, e, operator).1 matches Some(found) ==> is_constant(rfuse_property_add(s, e, operator).0, found.2) && found.0 <= rfuse_property_add(s, e, operator).0.max_reg,
        grows(rfuse_property_add(s, e, operator).0, rfuse_property_add(s, e, operator).0),
{
    broadcast use {
        step_numeric_constant,
        rule_right_constant,
        local_is_counted,
        rule_object_local,
        constant_stays,
    };

    reveal(rfuse_property_add);
    lemma_grows_sound(b, rfuse_property_add(s, e, operator).0);
}

pub(crate) broadcast proof fn rule_add_constant_to_property(
    b: RView,
    s: RView,
    r: u16,
    prop: Seq<char>,
    idx: u16,
    dst: u16,
)
    requires
        #[trigger] grows(b, s),
        is_constant(s, idx),
        r <= s.max_reg,
        dst <= s.max_reg,
    ensures
        grows(b, #[trigger] add_constant_to_property(s, r, prop, idx, dst)),
        s.max_reg <= add_constant_to_property(s, r, prop, idx, dst).max_reg,
{
    broadcast use {
        step_emit,
        step_after_cache_slot,
        step_add_string,
        step_get_prop,
        constant_stays,
    };

    lemma_grows_sound(b, s);
    reveal(add_constant_to_property);
}

pub(crate) broadcast proof fn rule_rfuse_property_sum(
    b: RView,
    s: RView,
    e: Expression,
    operator: Seq<char>,
)
    requires
        #[trigger] grows(b, s),
    ensures
        grows(b, (#[trigger] rfuse_property_sum(s, e, operator)).0),
        s.max_reg <= rfuse_property_sum(s, e, operator).0.max_reg,
        rfuse_property_sum(s, e, operator).1 matches Some(found) ==> found.0.len() == 7 && found.0[0] <= rfuse_property_sum(s, e, operator).0.max_reg && is_constant(rfuse_property_sum(s, e, operator).0, found.0[1]) && is_constant(rfuse_property_sum(s, e, operator).0, found.0[3]) && is_constant(rfuse_property_sum(s, e, operator).0, found.0[5]),
        grows(rfuse_property_sum(s, e, operator).0, rfuse_property_sum(s, e, operator).0),
{
    broadcast use {step_after_cache_slot, step_add_string, local_is_counted, constant_stays};

    reveal(rfuse_property_sum);
    lemma_grows_sound(b, rfuse_property_sum(s, e, operator).0);
}

pub(crate) broadcast proof fn rule_hold(b: RView, s: RView, prefix: Seq<char>, value: u16)
    requires
        #[trigger] grows(b, s),
        value <= s.max_reg,
    ensures
        grows(b, (#[trigger] hold(s, prefix, value)).0),
        s.max_reg <= hold(s, prefix, value).0.max_reg,
{
    broadcast use {step_after_name, step_store_name};

    reveal(hold);
}

/// What was added to before is still added to.
pub(crate) proof fn lemma_grows_all(s: RView, t: RView)
    requires
        grows(s, t),
    ensures
        forall|a: RView| #[trigger] grows(a, s) ==> grows(a, t),
{
    assert forall|a: RView| #[trigger] grows(a, s) implies grows(a, t) by {
        lemma_grows_on(a, s, t);
    }
}

/// Whether the constants of accessors are there.
pub(crate) open spec fn are_accessors(s: RView, accessors: Seq<(u16, u16, u16)>) -> bool {
    forall|i: int|
        0 <= i < accessors.len() ==> is_constant(s, (#[trigger] accessors[i]).0) && is_constant(
            s,
            accessors[i].1,
        )
}

pub(crate) broadcast proof fn accessors_stay(
    a: RView,
    s: RView,
    accessors: Seq<(u16, u16, u16)>,
)
    requires
        #[trigger] grows(a, s),
        #[trigger] are_accessors(a, accessors),
    ensures
        are_accessors(s, accessors),
{
    broadcast use constant_stays;

    assert forall|i: int| 0 <= i < accessors.len() implies is_constant(
        s,
        (#[trigger] accessors[i]).0,
    ) && is_constant(s, accessors[i].1) by {
        assert(is_constant(a, accessors[i].0) && is_constant(a, accessors[i].1));
    }
}

/// The local that holds an object is in a register.
pub(crate) broadcast proof fn rule_object_local(b: RView, s: RView, object: Expression)
    requires
        #[trigger] grows(b, s),
    ensures
        (#[trigger] object_local(s, object)) matches Some(r) ==> r <= s.max_reg,
{
    broadcast use local_is_counted;

    reveal(object_local);
}

pub(crate) broadcast proof fn rule_stored_property(
    b: RView,
    s: RView,
    e: Expression,
    operator: Seq<char>,
)
    requires
        #[trigger] grows(b, s),
    ensures
        (#[trigger] stored_property(s, e, operator)) matches Some((Slot::Local(r), _)) ==> r
            <= s.max_reg,
{
    broadcast use local_is_counted;

    reveal(stored_property);
}

/// The number of methods among the entries from position `i` on.
pub(crate) open spec fn methods_from(entries: Seq<HashEntry>, i: int) -> int
    decreases entries.len() - i,
{
    if i < 0 || i >= entries.len() {
        0
    } else {
        methods_from(entries, i + 1) + if entries[i] is Method {
            1int
        } else {
            0
        }
    }
}

pub(crate) proof fn lemma_methods(entries: Seq<HashEntry>, i: int)
    ensures
        methods_from(entries, i) >= 0,
    decreases entries.len() - i,
{
    if 0 <= i < entries.len() {
        lemma_methods(entries, i + 1);
    }
}

pub(crate) broadcast proof fn rule_define_accessors(
    b: RView,
    s: RView,
    dst: u16,
    accessors: Seq<(u16, u16, u16)>,
    i: int,
)
    requires
        #[trigger] grows(b, s),
        are_accessors(s, accessors),
        dst <= s.max_reg,
    ensures
        grows(b, #[trigger] define_accessors(s, dst, accessors, i)),
        s.max_reg <= define_accessors(s, dst, accessors, i).max_reg,
    decreases accessors.len() - i,
{
    broadcast use {
        step_take_temp,
        step_load_const,
        step_emit,
        constant_stays,
        accessors_stay,
    };

    lemma_grows_sound(b, s);
    reveal(define_accessors);
    if 0 <= i < accessors.len() {
        let (prop, function, kind) = accessors[i];
        assert(is_constant(s, prop) && is_constant(s, function));
        let t = s.take_temp().load_const(s.next_temp, function);
        let u = t.emit(ROp::DefineAccessor, seq![dst, s.next_temp, prop, kind]);
        assert(grows(s, u));
        rule_define_accessors(b, u, dst, accessors, i + 1);
    }
}

} // verus!
