//! What destructuring does when register code is run.
use vstd::prelude::*;

use crate::ast::{ArrayBindingItem, BindingTarget};
use crate::rcode::ROp;
use crate::rcodegen::RView;
use crate::reffects::{
    begins, fits, known, law_integer_is_loaded, law_name_is_stored, lemma_begins, lemma_begins_on,
    lemma_extends_self_after, lemma_fewer, lemma_leads_on, lemma_run_emit, runs,
};
use crate::rextend::{
    builds_on, ext_emit, ext_load_int, ext_store_name, ext_take_temp, extension_is_extendable,
    is_extendable, is_stocked, lemma_extends_self,
};
use crate::rextend_assignments::{extends_array_items, extends_default, extends_target};
use crate::rextend_rules::ext_get_element;
use crate::rmeaning::{
    element, encoded_all, holding, lemma_emit_stands, lemma_leads_one, lemma_leads_step, Datum,
    Run,
};
use crate::rrules::{
    array_items_rrule, element_reg, get_element, rgen_array_items, rgen_default, rgen_target,
    target_rrule,
};

verus! {

/// The element of a list at a position, which is undefined beyond its end.
pub open spec fn item_at(list: Seq<Datum>, i: int) -> Datum {
    if i < list.len() {
        list[i]
    } else {
        Datum::Undefined
    }
}

/// Reading an element of the list in a register leaves it in a new register, and changes
/// no register but that and the one in which its position was.
pub proof fn law_element_is_read(
    s: RView,
    source: u16,
    i: int,
    z: RView,
    m: Run,
    list: Seq<Datum>,
) -> (n: Run)
    requires
        is_stocked(s),
        is_extendable(s),
        0 <= i <= i64::MAX,
        s.next_temp < 0xfffe,
        source < s.next_temp,
        begins(get_element(s, source, i), z),
        fits(z),
        m.ip == s.instructions.len(),
        m.regs[source as int] == Datum::List(list),
    ensures
        runs(s, get_element(s, source, i), z, m, n),
        n.regs[element_reg(s, i) as int] == item_at(list, i),
        s.next_temp < element_reg(s, i) < get_element(s, source, i).next_temp,
        n.globals == m.globals,
        forall|r: int|
            r != s.next_temp && r != element_reg(s, i) ==> #[trigger] n.regs[r] == m.regs[r],
        is_stocked(get_element(s, source, i)),
        get_element(s, source, i).locals == s.locals,
        get_element(s, source, i).is_function_scope == s.is_function_scope,
{
    broadcast use {ext_take_temp, ext_load_int, ext_emit};

    reveal(get_element);
    reveal(element_reg);
    lemma_extends_self(s);
    let key = s.next_temp;
    let a = s.take_temp();
    let b = a.load_int(key, i as i64);
    let c = b.take_temp();
    let value = b.next_temp;
    let t = get_element(s, source, i);
    assert(a.instructions == s.instructions && is_stocked(a) && a.next_temp == key + 1 && a.locals
        == s.locals && a.is_function_scope == s.is_function_scope) by {
        reveal(RView::take_temp);
    }
    assert(b.next_temp == a.next_temp && b.locals == a.locals && b.is_function_scope
        == a.is_function_scope) by {
        reveal(RView::load_int);
        reveal(RView::load_const);
        reveal(RView::add_int);
        reveal(RView::add_constant);
        reveal(RView::emit);
    }
    assert(c.instructions == b.instructions && is_stocked(b) == is_stocked(c) && c.next_temp
        == value + 1 && c.locals == b.locals && c.is_function_scope == b.is_function_scope) by {
        reveal(RView::take_temp);
    }
    lemma_extends_self_after(s, a);
    lemma_extends_self_after(s, b);
    lemma_extends_self_after(s, c);
    lemma_fewer(t, z);
    lemma_begins(b, t);
    lemma_begins_on(b, t, z);
    law_integer_is_loaded(a, key, i as i64, z, m);
    let after_key = holding(m, key as int, Datum::Number(i), b.instructions.len() as int);
    lemma_run_emit(c, ROp::Index, seq![value, source, key], z, after_key);
    let x = encoded_all(ROp::Index, seq![value, source, key]);
    assert(x[0] == value && x[1] == source && x[2] == key);
    let n = holding(after_key, value as int, item_at(list, i), t.instructions.len() as int);
    assert(element(Datum::List(list), Datum::Number(i)) == Some(item_at(list, i)));
    lemma_leads_one(z.instructions, z.constants, after_key, n);
    lemma_leads_step(z.instructions, z.constants, m, after_key, n);
    lemma_emit_stands(c, ROp::Index, seq![value, source, key]);
    n
}

/// A pattern binds each of its names to the part of the list that has its position: the
/// code of the item at position `i` reads the element at `i` of the list into a register.
/// The default and the target of the item then work on that register, and the items after
/// it follow.
pub proof fn law_array_item_is_read(
    s: RView,
    items: Vec<ArrayBindingItem>,
    source: u16,
    i: int,
    z: RView,
    m: Run,
    list: Seq<Datum>,
) -> (r: (RView, u16, Run))
    requires
        is_stocked(s),
        is_extendable(s),
        0 <= i < items@.len() <= i64::MAX,
        items@[i] is Binding,
        s.next_temp < 0xfffe,
        source < s.next_temp,
        begins(rgen_array_items(s, items, source, i), z),
        fits(z),
        m.ip == s.instructions.len(),
        m.regs[source as int] == Datum::List(list),
    ensures
        ({
            let (u, value, n) = r;
            &&& builds_on(s, u)
            &&& begins(u, z)
            &&& runs(s, u, z, m, n)
            &&& n.regs[value as int] == item_at(list, i)
            &&& n.regs[source as int] == Datum::List(list)
            &&& n.globals == m.globals
            &&& source < value < u.next_temp
            &&& is_stocked(u)
            &&& u.locals == s.locals
            &&& u.is_function_scope == s.is_function_scope
            &&& items@[i] matches ArrayBindingItem::Binding { target, default_value }
                && rgen_array_items(s, items, source, i) == rgen_array_items(
                rgen_target(
                    match default_value {
                        Some(d) => rgen_default(u, d, value),
                        None => u,
                    },
                    target,
                    value,
                ),
                items,
                source,
                i + 1,
            )
        }),
{
    broadcast use {ext_get_element, extension_is_extendable};

    reveal(array_items_rrule);
    let t = rgen_array_items(s, items, source, i);
    assert(t == array_items_rrule(s, items, source, i));
    lemma_extends_self(s);
    let value = element_reg(s, i);
    let u = get_element(s, source, i);
    lemma_extends_self_after(s, u);
    match items@[i] {
        ArrayBindingItem::Binding { target, default_value } => {
            let d = match default_value {
                Some(d) => {
                    extends_default(u, d, value);
                    rgen_default(u, d, value)
                },
                None => u,
            };
            lemma_extends_self_after(u, d);
            extends_target(d, target, value);
            let e = rgen_target(d, target, value);
            lemma_extends_self_after(d, e);
            extends_array_items(e, items, source, i + 1);
            lemma_fewer(t, z);
            lemma_begins(u, t);
            lemma_begins_on(u, t, z);
        },
        _ => {},
    }
    let n = law_element_is_read(s, source, i, z, m, list);
    (u, value, n)
}

/// The name at position `i` of a pattern holds the element at `i` of the list once the
/// code of its item has run. The state that is returned is that after the item.
pub proof fn law_array_name_is_bound(
    s: RView,
    items: Vec<ArrayBindingItem>,
    source: u16,
    i: int,
    z: RView,
    m: Run,
    list: Seq<Datum>,
) -> (r: (RView, Run))
    requires
        is_stocked(s),
        is_extendable(s),
        0 <= i < items@.len() <= i64::MAX,
        items@[i] matches ArrayBindingItem::Binding {
            target: BindingTarget::Identifier(name),
            default_value: None,
        } && (s.is_function_scope || !s.locals.has(name@)),
        s.next_temp < 0xfffe,
        source < s.next_temp,
        rgen_array_items(s, items, source, i).err is None,
        begins(rgen_array_items(s, items, source, i), z),
        fits(z),
        m.ip == s.instructions.len(),
        m.regs[source as int] == Datum::List(list),
    ensures
        ({
            let (u, n) = r;
            &&& runs(s, u, z, m, n)
            &&& items@[i] matches ArrayBindingItem::Binding {
                target: BindingTarget::Identifier(name),
                ..
            } && known(u, name@, n) == item_at(list, i)
            &&& rgen_array_items(s, items, source, i) == rgen_array_items(u, items, source, i + 1)
        }),
{
    broadcast use {ext_store_name, extension_is_extendable};

    let (u, value, n) = law_array_item_is_read(s, items, source, i, z, m, list);
    match items@[i] {
        ArrayBindingItem::Binding { target: BindingTarget::Identifier(name), .. } => {
            reveal(target_rrule);
            lemma_extends_self_after(s, u);
            let t = u.store_name(name@, value);
            assert(rgen_target(u, BindingTarget::Identifier(name), value) == t);
            lemma_extends_self_after(u, t);
            extends_array_items(t, items, source, i + 1);
            let rest = rgen_array_items(t, items, source, i + 1);
            lemma_fewer(rest, z);
            lemma_begins(t, rest);
            lemma_begins_on(t, rest, z);
            assert(t.err is None) by {
                reveal(builds_on);
            }
            let o = law_name_is_stored(u, name@, value, z, n);
            lemma_leads_on(z.instructions, z.constants, m, n, o);
            (t, o)
        },
        _ => (u, n),
    }
}

} // verus!
