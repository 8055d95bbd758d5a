//! Values as JSON text, with the objects of the heap looked up.
use vstd::prelude::*;

use crate::hash::{hash_view, pair_map_entries, HashObject};
use crate::heap::Heap;
use crate::intern::Interner;
use crate::key::{
    exponent, exponent_of, integer_magnitude, is_negative, negative, small_magnitude, HashKey,
};
use crate::names::{lemma_items_decrease, NameMap};
use crate::object::{Object, PromiseState};
use crate::render::{
    add_part, bool_text, inspected, is_printable, joined_with, keys_are_named, write_bool,
    write_key, writes, written_key,
};
use crate::text::{concat, concat3, option_text, signed_decimal, to_signed_decimal};
use crate::value::Value;

verus! {

/// A hexadecimal digit, in lower case.
pub open spec fn hex_digit(n: int) -> char {
    if n < 10 {
        ((n + '0' as u32) as u32) as char
    } else {
        ((n - 10 + 'a' as u32) as u32) as char
    }
}

/// A character as it stands in a JSON string.
pub open spec fn escaped(c: char) -> Seq<char> {
    let n = c as u32;
    if c == '"' {
        seq!['\\', '"']
    } else if c == '\\' {
        seq!['\\', '\\']
    } else if n == 8 {
        seq!['\\', 'b']
    } else if n == 9 {
        seq!['\\', 't']
    } else if n == 10 {
        seq!['\\', 'n']
    } else if n == 12 {
        seq!['\\', 'f']
    } else if n == 13 {
        seq!['\\', 'r']
    } else if n < 32 {
        seq!['\\', 'u', '0', '0', hex_digit(n as int / 16), hex_digit(n as int % 16)]
    } else {
        seq![c]
    }
}

/// The first `n` characters of a text as they stand in a JSON string.
pub open spec fn all_escaped(s: Seq<char>, n: int) -> Seq<char>
    decreases n,
{
    if n <= 0 {
        Seq::empty()
    } else {
        all_escaped(s, n - 1) + escaped(s[n - 1])
    }
}

/// A text as a JSON string.
pub open spec fn quoted(s: Seq<char>) -> Seq<char> {
    seq!['"'] + all_escaped(s, s.len() as int) + seq!['"']
}

/// Calls `serde_json::to_string` on a string: it is put in quotes, with quotes,
/// backslashes and control characters escaped. Writing a string does not fail.
#[verifier::external_body]
fn write_json_string(s: &str) -> (r: Option<String>)
    ensures
        option_text(r) == Some(quoted(s@)),
{
    serde_json::to_string(s).ok()
}

/// A correctly escaped JSON string.
pub fn json_string(s: &str) -> (r: String)
    ensures
        r@ == quoted(s@),
{
    match write_json_string(s) {
        Some(t) => t,
        None => "null".to_owned(),
    }
}

/// What JSON text is made from: the objects of the heap, the symbols, and the
/// texts of numbers.
pub struct JsonSource {
    pub objects: Seq<Object>,
    pub strings: Seq<Seq<char>>,
    pub texts: spec_fn(u64) -> Seq<char>,
}

/// A number in JSON: null if it is not finite, without a fraction if it is an
/// integer of moderate size.
pub open spec fn number_json(bits: u64, texts: spec_fn(u64) -> Seq<char>) -> Seq<char> {
    if exponent_of(bits) == 0x7ff {
        "null"@
    } else {
        match integer_magnitude(bits) {
            Some(m) => if m < 0x8000_0000_0000_0000 {
                if is_negative(bits) {
                    signed_decimal(-(m as int))
                } else {
                    signed_decimal(m as int)
                }
            } else {
                texts(bits)
            },
            None => texts(bits),
        }
    }
}

/// A value in JSON. References to the heap are followed `depth` deep.
pub open spec fn value_json(v: Value, s: JsonSource, depth: nat) -> Seq<char>
    decreases depth, 0int, v,
{
    match v {
        Value::Int(n) => signed_decimal(n as int),
        Value::Float(bits) => number_json(bits, s.texts),
        Value::Bool(b) => bool_text(b),
        Value::Null => "null"@,
        Value::Undefined => "null"@,
        Value::Heap(i) => if depth == 0 || i >= s.objects.len() {
            Seq::empty()
        } else {
            object_json(s.objects[i as int], s, (depth - 1) as nat)
        },
    }
}

/// An object in JSON. References to the heap are followed `depth` deep.
pub open spec fn object_json(o: Object, s: JsonSource, depth: nat) -> Seq<char>
    decreases depth, 2int, o,
{
    match o {
        Object::Integer(v) => signed_decimal(v as int),
        Object::Float(bits) => number_json(bits, s.texts),
        Object::Boolean(v) => bool_text(v),
        Object::Null => "null"@,
        Object::Undefined => "null"@,
        Object::String(v) => quoted(v@),
        Object::Array(items) => "["@ + joined_with(
            element_texts(items.value@, s, depth),
            ", "@,
            items.value@.len() as int,
        ) + "]"@,
        Object::Hash(h) => "{"@ + joined_with(
            property_texts(h.value, s, depth),
            ", "@,
            pair_map_entries(h.value.pairs).len() as int,
        ) + "}"@,
        Object::Instance(inst) => "{"@ + joined_with(
            field_texts(inst.fields, s, depth),
            ", "@,
            inst.fields.items().len() as int,
        ) + "}"@,
        Object::Error(err) => quoted("Error: "@ + err.message@),
        Object::ReturnValue(v) => object_json(*v, s, depth),
        _ => quoted(inspected(o, s.strings, s.texts)),
    }
}

/// The fields of an instance in JSON.
pub open spec fn field_texts(fields: NameMap<Object>, s: JsonSource, depth: nat) -> Seq<Seq<char>>
    decreases depth, 2int, fields,
{
    proof {
        assert forall|i: int| 0 <= i < fields.items().len() implies decreases_to!(
            fields => (#[trigger] fields.items()[i]).1
        ) by {
            lemma_items_decrease(fields, i);
        }
    }
    Seq::new(
        fields.items().len(),
        |i: int|
            quoted(fields.items()[i].0@) + ": "@ + (if 0 <= i < fields.items().len() {
                object_json(fields.items()[i].1, s, depth)
            } else {
                Seq::empty()
            }),
    )
}

/// The items of an array in JSON.
pub open spec fn element_texts(items: Seq<Value>, s: JsonSource, depth: nat) -> Seq<Seq<char>>
    decreases depth, 1int, items,
{
    Seq::new(items.len(), |i: int| value_json(items[i], s, depth))
}

/// The properties of a hash in JSON.
pub open spec fn property_texts(h: HashObject, s: JsonSource, depth: nat) -> Seq<Seq<char>>
    decreases depth, 1int, h,
{
    Seq::new(
        pair_map_entries(h.pairs).len(),
        |i: int|
            quoted(written_key(pair_map_entries(h.pairs)[i].0, s.strings, s.texts)) + ": "@ + (if i
                < h.values@.len() {
                value_json(h.values@[i], s, depth)
            } else {
                "null"@
            }),
    )
}

/// The fields of an instance are smaller than the instance.
pub proof fn lemma_fields_decrease(o: Object, fields: NameMap<Object>)
    requires
        o matches Object::Instance(inst) && inst.fields == fields,
    ensures
        forall|i: int|
            0 <= i < fields.items().len() ==> decreases_to!(o => (#[trigger] fields.items()[i]).1),
{
    assert forall|i: int| 0 <= i < fields.items().len() implies decreases_to!(
        o => (#[trigger] fields.items()[i]).1
    ) by {
        lemma_items_decrease(fields, i);
    }
}

/// Whether JSON text can be made of an object: what it refers to meets `slot`,
/// and the keys in it have names.
pub open spec fn is_writable(o: Object, strings: Seq<Seq<char>>, slot: spec_fn(u32) -> bool) -> bool
    decreases o,
{
    match o {
        Object::Array(items) => forall|i: int|
            0 <= i < items.value@.len() ==> refers_to(#[trigger] items.value@[i], slot),
        Object::Hash(h) => keys_are_named(hash_view(h.value), strings) && forall|i: int|
            0 <= i < h.value.values@.len() ==> refers_to(#[trigger] h.value.values@[i], slot),
        Object::Instance(inst) => {
            proof {
                lemma_fields_decrease(o, inst.fields);
            }
            forall|i: int|
                0 <= i < inst.fields.items().len() ==> is_writable(
                    (#[trigger] inst.fields.items()[i]).1,
                    strings,
                    slot,
                )
        },
        Object::ReturnValue(v) => is_writable(*v, strings, slot),
        _ => is_printable(o, strings),
    }
}

/// Whether what a value refers to meets `slot`.
pub open spec fn refers_to(v: Value, slot: spec_fn(u32) -> bool) -> bool {
    v matches Value::Heap(i) ==> slot(i)
}

/// The objects of a heap that can be written when references are followed `depth`
/// deep.
pub open spec fn slots_within(
    objects: Seq<Object>,
    strings: Seq<Seq<char>>,
    depth: nat,
) -> spec_fn(u32) -> bool
    decreases depth,
{
    |i: u32|
        if depth == 0 || i >= objects.len() {
            false
        } else {
            is_writable(
                objects[i as int],
                strings,
                slots_within(objects, strings, (depth - 1) as nat),
            )
        }
}

/// Whether a value can be written when references are followed `depth` deep.
pub open spec fn value_fits(v: Value, heap: Heap, table: Interner, depth: nat) -> bool {
    refers_to(v, slots_within(heap.objects@, table@.strings, depth))
}

/// Whether an object can be written when references are followed `depth` deep.
pub open spec fn object_fits(o: Object, heap: Heap, table: Interner, depth: nat) -> bool {
    is_writable(o, table@.strings, slots_within(heap.objects@, table@.strings, depth))
}

/// What JSON text is made from.
pub open spec fn json_source(heap: Heap, table: Interner, texts: spec_fn(u64) -> Seq<char>) -> JsonSource {
    JsonSource { objects: heap.objects@, strings: table@.strings, texts }
}

fn write_number<F: Fn(u64) -> String>(bits: u64, float_text: &F) -> (r: String)
    requires
        forall|bits: u64| #[trigger] call_requires(*float_text, (bits,)),
    ensures
        forall|texts: spec_fn(u64) -> Seq<char>| #[trigger]
            writes(*float_text, texts) ==> r@ == number_json(bits, texts),
{
    if exponent(bits) == 0x7ff {
        return "null".to_owned();
    }
    match small_magnitude(bits) {
        Some(m) => if m < 0x8000_0000_0000_0000 {
            if negative(bits) {
                to_signed_decimal(-(m as i64))
            } else {
                to_signed_decimal(m as i64)
            }
        } else {
            float_text(bits)
        },
        None => float_text(bits),
    }
}

fn write_value<F: Fn(u64) -> String>(
    val: Value,
    heap: &Heap,
    table: &Interner,
    float_text: &F,
    depth: Ghost<nat>,
) -> (r: String)
    requires
        forall|bits: u64| #[trigger] call_requires(*float_text, (bits,)),
        value_fits(val, *heap, *table, depth@),
    ensures
        forall|texts: spec_fn(u64) -> Seq<char>|
            writes(*float_text, texts) ==> r@ == #[trigger] value_json(
                val,
                json_source(*heap, *table, texts),
                depth@,
            ),
    decreases depth@, 0int, val,
{
    match val {
        Value::Int(n) => to_signed_decimal(n),
        Value::Float(bits) => write_number(bits, float_text),
        Value::Bool(b) => write_bool(b),
        Value::Null => "null".to_owned(),
        Value::Undefined => "null".to_owned(),
        Value::Heap(i) => {
            let r = write_object(
                heap.get(i),
                heap,
                table,
                float_text,
                Ghost((depth@ - 1) as nat),
            );
            assert forall|texts: spec_fn(u64) -> Seq<char>|
                writes(*float_text, texts) implies r@ == #[trigger] value_json(
                val,
                json_source(*heap, *table, texts),
                depth@,
            ) by {
                let s = json_source(*heap, *table, texts);
                assert(r@ == object_json(heap.objects@[i as int], s, (depth@ - 1) as nat));
            }
            r
        },
    }
}

fn write_object<F: Fn(u64) -> String>(
    obj: &Object,
    heap: &Heap,
    table: &Interner,
    float_text: &F,
    depth: Ghost<nat>,
) -> (r: String)
    requires
        forall|bits: u64| #[trigger] call_requires(*float_text, (bits,)),
        object_fits(*obj, *heap, *table, depth@),
    ensures
        forall|texts: spec_fn(u64) -> Seq<char>|
            writes(*float_text, texts) ==> r@ == #[trigger] object_json(
                *obj,
                json_source(*heap, *table, texts),
                depth@,
            ),
    decreases depth@, 2int, *obj,
{
    match obj {
        Object::Integer(v) => to_signed_decimal(*v),
        Object::Float(bits) => write_number(*bits, float_text),
        Object::Boolean(v) => write_bool(*v),
        Object::Null => "null".to_owned(),
        Object::Undefined => "null".to_owned(),
        Object::String(v) => json_string(v.as_str()),
        Object::Array(items) => {
            let r = write_items(&items.value, heap, table, float_text, depth);
            assert forall|texts: spec_fn(u64) -> Seq<char>|
                writes(*float_text, texts) implies r@ == #[trigger] object_json(
                *obj,
                json_source(*heap, *table, texts),
                depth@,
            ) by {
                let s = json_source(*heap, *table, texts);
                let parts = element_texts(items.value@, s, depth@);
                assert(r@ == "["@ + joined_with(parts, ", "@, items.value@.len() as int) + "]"@);
            }
            r
        },
        Object::Hash(h) => {
            let hash = &h.value;
            let r = write_pairs(hash, heap, table, float_text, depth);
            assert forall|texts: spec_fn(u64) -> Seq<char>|
                writes(*float_text, texts) implies r@ == #[trigger] object_json(
                *obj,
                json_source(*heap, *table, texts),
                depth@,
            ) by {
                let s = json_source(*heap, *table, texts);
                let parts = property_texts(*hash, s, depth@);
                assert(r@ == "{"@ + joined_with(
                    parts,
                    ", "@,
                    pair_map_entries(hash.pairs).len() as int,
                ) + "}"@);
            }
            r
        },
        Object::Instance(inst) => {
            let fields = &inst.fields;
            let mut out = String::new();
            let mut i: usize = 0;
            proof {
                lemma_fields_decrease(*obj, *fields);
            }
            while i < fields.len()
                invariant
                    0 <= i <= fields.items().len(),
                    *obj matches Object::Instance(inst) && inst.fields == *fields,
                    forall|k: int|
                        0 <= k < fields.items().len() ==> decreases_to!(
                            *obj => (#[trigger] fields.items()[k]).1
                        ),
                    forall|bits: u64| #[trigger] call_requires(*float_text, (bits,)),
                    object_fits(*obj, *heap, *table, depth@),
                    forall|texts: spec_fn(u64) -> Seq<char>|
                        writes(*float_text, texts) ==> out@ == joined_with(
                            #[trigger] field_texts(
                                *fields,
                                json_source(*heap, *table, texts),
                                depth@,
                            ),
                            ", "@,
                            i as int,
                        ),
                decreases fields.items().len() - i,
            {
                assert(is_writable(
                    fields.items()[i as int].1,
                    table@.strings,
                    slots_within(heap.objects@, table@.strings, depth@),
                ));
                let name = json_string(fields.name_at(i).as_str());
                let value = write_object(fields.value_at(i), heap, table, float_text, depth);
                let part = concat3(name.as_str(), ": ", value.as_str());
                let ghost before = out@;
                add_part(&mut out, ", ", i == 0, part.as_str());
                assert forall|texts: spec_fn(u64) -> Seq<char>|
                    writes(*float_text, texts) implies out@ == joined_with(
                    #[trigger] field_texts(*fields, json_source(*heap, *table, texts), depth@),
                    ", "@,
                    i + 1,
                ) by {
                    let s = json_source(*heap, *table, texts);
                    assert(value@ == object_json(fields.items()[i as int].1, s, depth@));
                    assert(field_texts(*fields, s, depth@)[i as int] =~= part@);
                    if i == 0 {
                        assert(before + part@ =~= part@);
                    }
                }
                i += 1;
            }
            let r = concat3("{", out.as_str(), "}");
            assert forall|texts: spec_fn(u64) -> Seq<char>|
                writes(*float_text, texts) implies r@ == #[trigger] object_json(
                *obj,
                json_source(*heap, *table, texts),
                depth@,
            ) by {
                let parts = field_texts(*fields, json_source(*heap, *table, texts), depth@);
                assert(out@ == joined_with(parts, ", "@, fields.items().len() as int));
            }
            r
        },
        Object::Error(err) => json_string(concat("Error: ", err.message.as_str()).as_str()),
        Object::ReturnValue(v) => {
            let r = write_object(v, heap, table, float_text, depth);
            assert forall|texts: spec_fn(u64) -> Seq<char>|
                writes(*float_text, texts) implies r@ == #[trigger] object_json(
                *obj,
                json_source(*heap, *table, texts),
                depth@,
            ) by {
                let s = json_source(*heap, *table, texts);
                assert(r@ == object_json(**v, s, depth@));
            }
            r
        },
        _ => {
            let text = obj.inspect(table, float_text);
            json_string(text.as_str())
        },
    }
}

fn write_items<F: Fn(u64) -> String>(
    items: &Vec<Value>,
    heap: &Heap,
    table: &Interner,
    float_text: &F,
    depth: Ghost<nat>,
) -> (r: String)
    requires
        forall|bits: u64| #[trigger] call_requires(*float_text, (bits,)),
        forall|i: int|
            0 <= i < items@.len() ==> refers_to(
                #[trigger] items@[i],
                slots_within(heap.objects@, table@.strings, depth@),
            ),
    ensures
        forall|texts: spec_fn(u64) -> Seq<char>|
            writes(*float_text, texts) ==> r@ == "["@ + joined_with(
                #[trigger] element_texts(items@, json_source(*heap, *table, texts), depth@),
                ", "@,
                items@.len() as int,
            ) + "]"@,
    decreases depth@, 1int, *items,
{
    let mut out = String::new();
    let mut i: usize = 0;
    while i < items.len()
        invariant
            0 <= i <= items@.len(),
            forall|bits: u64| #[trigger] call_requires(*float_text, (bits,)),
                forall|i: int|
                0 <= i < items@.len() ==> refers_to(
                    #[trigger] items@[i],
                    slots_within(heap.objects@, table@.strings, depth@),
                ),
            forall|texts: spec_fn(u64) -> Seq<char>|
                writes(*float_text, texts) ==> out@ == joined_with(
                    #[trigger] element_texts(items@, json_source(*heap, *table, texts), depth@),
                    ", "@,
                    i as int,
                ),
        decreases items@.len() - i,
    {
        let part = write_value(items[i], heap, table, float_text, depth);
        let ghost before = out@;
        add_part(&mut out, ", ", i == 0, part.as_str());
        assert forall|texts: spec_fn(u64) -> Seq<char>|
            writes(*float_text, texts) implies out@ == joined_with(
            #[trigger] element_texts(items@, json_source(*heap, *table, texts), depth@),
            ", "@,
            i + 1,
        ) by {
            let s = json_source(*heap, *table, texts);
            assert(element_texts(items@, s, depth@)[i as int] == value_json(items@[i as int], s, depth@));
            if i == 0 {
                assert(before + part@ =~= part@);
            }
        }
        i += 1;
    }
    concat3("[", out.as_str(), "]")
}

fn write_pairs<F: Fn(u64) -> String>(
    h: &HashObject,
    heap: &Heap,
    table: &Interner,
    float_text: &F,
    depth: Ghost<nat>,
) -> (r: String)
    requires
        forall|bits: u64| #[trigger] call_requires(*float_text, (bits,)),
        keys_are_named(hash_view(*h), table@.strings),
        forall|i: int|
            0 <= i < h.values@.len() ==> refers_to(
                #[trigger] h.values@[i],
                slots_within(heap.objects@, table@.strings, depth@),
            ),
    ensures
        forall|texts: spec_fn(u64) -> Seq<char>|
            writes(*float_text, texts) ==> r@ == "{"@ + joined_with(
                #[trigger] property_texts(*h, json_source(*heap, *table, texts), depth@),
                ", "@,
                pair_map_entries(h.pairs).len() as int,
            ) + "}"@,
    decreases depth@, 1int, *h,
{
    let mut out = String::new();
    let n: usize = h.pairs.len();
    let mut i: usize = 0;
    while i < n
        invariant
            0 <= i <= n,
            n == pair_map_entries(h.pairs).len(),
            forall|bits: u64| #[trigger] call_requires(*float_text, (bits,)),
                keys_are_named(hash_view(*h), table@.strings),
            forall|i: int|
                0 <= i < h.values@.len() ==> refers_to(
                    #[trigger] h.values@[i],
                    slots_within(heap.objects@, table@.strings, depth@),
                ),
            forall|texts: spec_fn(u64) -> Seq<char>|
                writes(*float_text, texts) ==> out@ == joined_with(
                    #[trigger] property_texts(*h, json_source(*heap, *table, texts), depth@),
                    ", "@,
                    i as int,
                ),
        decreases n - i,
    {
        assert(hash_view(*h).pairs[i as int].0 matches HashKey::Sym(id) ==> id
            < table@.strings.len());
        let key = write_key(h.pairs.entry_at(i).0, table, float_text);
        let name = json_string(key.as_str());
        let value = if i < h.values.len() {
            write_value(h.values[i], heap, table, float_text, depth)
        } else {
            "null".to_owned()
        };
        let part = concat3(name.as_str(), ": ", value.as_str());
        let ghost before = out@;
        add_part(&mut out, ", ", i == 0, part.as_str());
        assert forall|texts: spec_fn(u64) -> Seq<char>|
            writes(*float_text, texts) implies out@ == joined_with(
            #[trigger] property_texts(*h, json_source(*heap, *table, texts), depth@),
            ", "@,
            i + 1,
        ) by {
            let s = json_source(*heap, *table, texts);
            if i < h.values@.len() {
                assert(value@ == value_json(h.values@[i as int], s, depth@));
            }
            assert(property_texts(*h, s, depth@)[i as int] =~= part@);
            if i == 0 {
                assert(before + part@ =~= part@);
            }
        }
        i += 1;
    }
    concat3("{", out.as_str(), "}")
}

/// A value as JSON text, with all references to the heap looked up. There is none
/// if something in it refers to itself, or to something that is not there.
pub fn value_to_json<F: Fn(u64) -> String>(
    val: Value,
    heap: &Heap,
    table: &Interner,
    float_text: &F,
) -> (r: Option<String>)
    requires
        forall|bits: u64| #[trigger] call_requires(*float_text, (bits,)),
    ensures
        match r {
            Some(t) => value_fits(val, *heap, *table, heap.objects@.len()) && forall|
                texts: spec_fn(u64) -> Seq<char>,
            | #[trigger]
                writes(*float_text, texts) ==> t@ == value_json(
                    val,
                    json_source(*heap, *table, texts),
                    heap.objects@.len(),
                ),
            None => !value_fits(val, *heap, *table, heap.objects@.len()),
        },
{
    let depth: usize = heap.objects.len();
    if check_value(val, heap, table, depth) {
        Some(write_value(val, heap, table, float_text, Ghost(depth as nat)))
    } else {
        None
    }
}

/// An object as JSON text, with all references to the heap looked up. There is
/// none if something in it refers to itself, or to something that is not there.
pub fn object_to_json<F: Fn(u64) -> String>(
    obj: &Object,
    heap: &Heap,
    table: &Interner,
    float_text: &F,
) -> (r: Option<String>)
    requires
        forall|bits: u64| #[trigger] call_requires(*float_text, (bits,)),
    ensures
        match r {
            Some(t) => object_fits(*obj, *heap, *table, heap.objects@.len()) && forall|
                texts: spec_fn(u64) -> Seq<char>,
            | #[trigger]
                writes(*float_text, texts) ==> t@ == object_json(
                    *obj,
                    json_source(*heap, *table, texts),
                    heap.objects@.len(),
                ),
            None => !object_fits(*obj, *heap, *table, heap.objects@.len()),
        },
{
    let depth: usize = heap.objects.len();
    if check_object(obj, heap, table, depth) {
        Some(write_object(obj, heap, table, float_text, Ghost(depth as nat)))
    } else {
        None
    }
}

fn check_value(val: Value, heap: &Heap, table: &Interner, depth: usize) -> (r: bool)
    ensures
        r == value_fits(val, *heap, *table, depth as nat),
    decreases depth, 0int, val,
{
    match val {
        Value::Heap(i) => {
            depth > 0 && (i as usize) < heap.objects.len() && check_object(
                heap.get(i),
                heap,
                table,
                depth - 1,
            )
        },
        _ => true,
    }
}

fn check_values(values: &Vec<Value>, heap: &Heap, table: &Interner, depth: usize) -> (r: bool)
    ensures
        r == (forall|i: int|
            0 <= i < values@.len() ==> value_fits(
                #[trigger] values@[i],
                *heap,
                *table,
                depth as nat,
            )),
    decreases depth, 1int, *values,
{
    let mut i: usize = 0;
    while i < values.len()
        invariant
            0 <= i <= values@.len(),
            forall|k: int|
                0 <= k < i ==> value_fits(#[trigger] values@[k], *heap, *table, depth as nat),
        decreases values@.len() - i,
    {
        if !check_value(values[i], heap, table, depth) {
            assert(!value_fits(values@[i as int], *heap, *table, depth as nat));
            return false;
        }
        i += 1;
    }
    true
}

fn check_object(obj: &Object, heap: &Heap, table: &Interner, depth: usize) -> (r: bool)
    ensures
        r == object_fits(*obj, *heap, *table, depth as nat),
    decreases depth, 2int, *obj,
{
    let ghost slot = slots_within(heap.objects@, table@.strings, depth as nat);
    match obj {
        Object::Array(items) => {
            let r: bool = check_values(&items.value, heap, table, depth);
            assert(r == (forall|i: int|
                0 <= i < items.value@.len() ==> refers_to(#[trigger] items.value@[i], slot))) by {
                assert forall|i: int| 0 <= i < items.value@.len() implies refers_to(
                    #[trigger] items.value@[i],
                    slot,
                ) == value_fits(items.value@[i], *heap, *table, depth as nat) by {}
            }
            r
        },
        Object::Hash(h) => {
            let hash = &h.value;
            let named: bool = check_keys(hash, table);
            let r: bool = check_values(&hash.values, heap, table, depth);
            assert(r == (forall|i: int|
                0 <= i < hash.values@.len() ==> refers_to(#[trigger] hash.values@[i], slot))) by {
                assert forall|i: int| 0 <= i < hash.values@.len() implies refers_to(
                    #[trigger] hash.values@[i],
                    slot,
                ) == value_fits(hash.values@[i], *heap, *table, depth as nat) by {}
            }
            named && r
        },
        Object::Instance(inst) => {
            let fields = &inst.fields;
            let mut i: usize = 0;
            proof {
                lemma_fields_decrease(*obj, *fields);
            }
            while i < fields.len()
                invariant
                    0 <= i <= fields.items().len(),
                    *obj matches Object::Instance(inst) && inst.fields == *fields,
                    slot == slots_within(heap.objects@, table@.strings, depth as nat),
                    forall|k: int|
                        0 <= k < fields.items().len() ==> decreases_to!(
                            *obj => (#[trigger] fields.items()[k]).1
                        ),
                    forall|k: int|
                        0 <= k < i ==> is_writable(
                            (#[trigger] fields.items()[k]).1,
                            table@.strings,
                            slot,
                        ),
                decreases fields.items().len() - i,
            {
                if !check_object(fields.value_at(i), heap, table, depth) {
                    assert(!is_writable(fields.items()[i as int].1, table@.strings, slot));
                    return false;
                }
                i += 1;
            }
            true
        },
        Object::ReturnValue(v) => check_object(v, heap, table, depth),
        _ => check_printable(obj, table),
    }
}

fn check_keys(h: &HashObject, table: &Interner) -> (r: bool)
    ensures
        r == keys_are_named(hash_view(*h), table@.strings),
{
    let ghost view = hash_view(*h);
    let n: usize = h.pairs.len();
    let symbols: usize = table.len();
    let mut i: usize = 0;
    while i < n
        invariant
            0 <= i <= n == view.pairs.len(),
            view == hash_view(*h),
            symbols == table@.strings.len(),
            forall|k: int|
                0 <= k < i ==> ((#[trigger] view.pairs[k]).0 matches HashKey::Sym(id) ==> id
                    < table@.strings.len()),
        decreases n - i,
    {
        if let HashKey::Sym(id) = h.pairs.entry_at(i).0 {
            if *id as usize >= symbols {
                assert(view.pairs[i as int].0 == HashKey::Sym(*id));
                return false;
            }
        }
        i += 1;
    }
    true
}

fn check_printable(obj: &Object, table: &Interner) -> (r: bool)
    ensures
        r == is_printable(*obj, table@.strings),
    decreases *obj,
{
    match obj {
        Object::Hash(h) => check_keys(&h.value, table),
        Object::Promise(p) => match &p.settled {
            PromiseState::Fulfilled(v) => check_printable(v, table),
            PromiseState::Rejected(v) => check_printable(v, table),
        },
        Object::ReturnValue(v) => check_printable(v, table),
        _ => true,
    }
}

// How deep references need to be followed

proof fn lemma_writable_stays(
    o: &Object,
    strings: Seq<Seq<char>>,
    p: spec_fn(u32) -> bool,
    q: spec_fn(u32) -> bool,
)
    requires
        is_writable(*o, strings, p),
        forall|i: u32| #[trigger] p(i) ==> q(i),
    ensures
        is_writable(*o, strings, q),
    decreases *o,
{
    match o {
        Object::Array(items) => {
            assert forall|i: int| 0 <= i < items.value@.len() implies refers_to(
                #[trigger] items.value@[i],
                q,
            ) by {
                assert(refers_to(items.value@[i], p));
            }
        },
        Object::Hash(h) => {
            assert forall|i: int| 0 <= i < h.value.values@.len() implies refers_to(
                #[trigger] h.value.values@[i],
                q,
            ) by {
                assert(refers_to(h.value.values@[i], p));
            }
        },
        Object::Instance(inst) => {
            lemma_fields_decrease(*o, inst.fields);
            assert forall|i: int| 0 <= i < inst.fields.items().len() implies is_writable(
                (#[trigger] inst.fields.items()[i]).1,
                strings,
                q,
            ) by {
                lemma_writable_stays(&inst.fields.items()[i].1, strings, p, q);
            }
        },
        Object::ReturnValue(v) => lemma_writable_stays(&**v, strings, p, q),
        _ => {},
    }
}

/// What can be written can also be written when references are followed deeper.
proof fn lemma_deeper_fits(objects: Seq<Object>, strings: Seq<Seq<char>>, d: nat, e: nat)
    requires
        d <= e,
    ensures
        forall|i: u32| #[trigger]
            slots_within(objects, strings, d)(i) ==> slots_within(objects, strings, e)(i),
    decreases d,
{
    if d > 0 {
        lemma_deeper_fits(objects, strings, (d - 1) as nat, (e - 1) as nat);
        assert forall|i: u32| #[trigger] slots_within(objects, strings, d)(i) implies slots_within(
            objects,
            strings,
            e,
        )(i) by {
            lemma_writable_stays(
                &objects[i as int],
                strings,
                slots_within(objects, strings, (d - 1) as nat),
                slots_within(objects, strings, (e - 1) as nat),
            );
        }
    }
}

/// The objects of a heap that rank below `n`.
pub open spec fn below(objects: Seq<Object>, rank: spec_fn(u32) -> nat, n: nat) -> spec_fn(
    u32,
) -> bool {
    |i: u32| i < objects.len() && rank(i) < n
}

/// Whether the objects of a heap can be ranked so that each refers only to
/// objects below it. Then no object refers to itself, directly or through
/// others.
pub open spec fn is_ranked(
    objects: Seq<Object>,
    strings: Seq<Seq<char>>,
    rank: spec_fn(u32) -> nat,
) -> bool {
    forall|i: int|
        0 <= i < objects.len() && i <= u32::MAX ==> is_writable(
            #[trigger] objects[i],
            strings,
            below(objects, rank, rank(i as u32)),
        )
}

/// The number of the first `k` objects that rank below `n`.
spec fn count_below(rank: spec_fn(u32) -> nat, n: nat, k: int) -> nat
    decreases k,
{
    if k <= 0 {
        0
    } else {
        count_below(rank, n, k - 1) + if rank((k - 1) as u32) < n {
            1nat
        } else {
            0
        }
    }
}

proof fn lemma_count_below(rank: spec_fn(u32) -> nat, m: nat, n: nat, k: int, i: int)
    requires
        m <= n,
        0 <= k <= 0x1_0000_0000,
    ensures
        count_below(rank, m, k) <= count_below(rank, n, k) <= k,
        0 <= i < k && m <= rank(i as u32) < n ==> count_below(rank, m, k) < count_below(
            rank,
            n,
            k,
        ),
    decreases k,
{
    if k > 0 {
        lemma_count_below(rank, m, n, k - 1, i);
    }
}

proof fn lemma_ranked_fits(
    objects: Seq<Object>,
    strings: Seq<Seq<char>>,
    rank: spec_fn(u32) -> nat,
    n: nat,
)
    requires
        is_ranked(objects, strings, rank),
        objects.len() <= 0x1_0000_0000,
    ensures
        forall|i: u32| #[trigger]
            below(objects, rank, n)(i) ==> slots_within(
                objects,
                strings,
                count_below(rank, n, objects.len() as int),
            )(i),
    decreases n,
{
    let k = objects.len() as int;
    let d = count_below(rank, n, k);
    assert forall|i: u32| #[trigger] below(objects, rank, n)(i) implies slots_within(
        objects,
        strings,
        d,
    )(i) by {
        let m = rank(i);
        let c = count_below(rank, m, k);
        lemma_ranked_fits(objects, strings, rank, m);
        lemma_count_below(rank, m, n, k, i as int);
        assert(c < d);
        lemma_deeper_fits(objects, strings, c, (d - 1) as nat);
        let p = below(objects, rank, m);
        let q = slots_within(objects, strings, (d - 1) as nat);
        assert forall|j: u32| #[trigger] p(j) implies q(j) by {
            assert(slots_within(objects, strings, c)(j));
        }
        assert(is_writable(objects[i as int], strings, p));
        lemma_writable_stays(&objects[i as int], strings, p, q);
    }
}

/// Where no object of the heap refers to itself, directly or through others, each
/// value can be written.
pub proof fn law_values_without_cycles_are_written(
    v: Value,
    heap: Heap,
    table: Interner,
    rank: spec_fn(u32) -> nat,
    n: nat,
)
    requires
        is_ranked(heap.objects@, table@.strings, rank),
        heap.objects@.len() <= 0x1_0000_0000,
        refers_to(v, below(heap.objects@, rank, n)),
    ensures
        value_fits(v, heap, table, heap.objects@.len()),
{
    let objects = heap.objects@;
    let k = objects.len() as int;
    lemma_ranked_fits(objects, table@.strings, rank, n);
    lemma_count_below(rank, n, n, k, 0);
    lemma_deeper_fits(objects, table@.strings, count_below(rank, n, k), objects.len());
    if let Value::Heap(i) = v {
        assert(below(objects, rank, n)(i));
        assert(slots_within(objects, table@.strings, count_below(rank, n, k))(i));
    }
}

proof fn lemma_deeper_object(o: &Object, s: JsonSource, d: nat, e: nat)
    requires
        d <= e,
        is_writable(*o, s.strings, slots_within(s.objects, s.strings, d)),
    ensures
        object_json(*o, s, d) == object_json(*o, s, e),
    decreases d, 1int, *o,
{
    let slot = slots_within(s.objects, s.strings, d);
    match o {
        Object::Array(items) => {
            assert forall|i: int| 0 <= i < items.value@.len() implies value_json(
                #[trigger] items.value@[i],
                s,
                d,
            ) == value_json(items.value@[i], s, e) by {
                assert(refers_to(items.value@[i], slot));
                lemma_deeper_value(items.value@[i], s, d, e);
            }
            assert(element_texts(items.value@, s, d) =~= element_texts(items.value@, s, e));
        },
        Object::Hash(h) => {
            let values = h.value.values@;
            assert forall|i: int| 0 <= i < values.len() implies value_json(
                #[trigger] values[i],
                s,
                d,
            ) == value_json(values[i], s, e) by {
                assert(refers_to(values[i], slot));
                lemma_deeper_value(values[i], s, d, e);
            }
            assert(property_texts(h.value, s, d) =~= property_texts(h.value, s, e));
        },
        Object::Instance(inst) => {
            let fields = inst.fields;
            lemma_fields_decrease(*o, fields);
            assert forall|i: int| 0 <= i < fields.items().len() implies object_json(
                (#[trigger] fields.items()[i]).1,
                s,
                d,
            ) == object_json(fields.items()[i].1, s, e) by {
                lemma_deeper_object(&fields.items()[i].1, s, d, e);
            }
            assert(field_texts(fields, s, d) =~= field_texts(fields, s, e));
        },
        Object::ReturnValue(v) => lemma_deeper_object(&**v, s, d, e),
        _ => {},
    }
}

proof fn lemma_deeper_value(v: Value, s: JsonSource, d: nat, e: nat)
    requires
        d <= e,
        refers_to(v, slots_within(s.objects, s.strings, d)),
    ensures
        value_json(v, s, d) == value_json(v, s, e),
    decreases d, 0int, v,
{
    if let Value::Heap(i) = v {
        lemma_deeper_object(&s.objects[i as int], s, (d - 1) as nat, (e - 1) as nat);
    }
}

/// Once a value can be written, following references deeper changes nothing: its
/// text holds all that it refers to.
pub proof fn law_text_of_a_value_is_complete(
    v: Value,
    heap: Heap,
    table: Interner,
    texts: spec_fn(u64) -> Seq<char>,
    d: nat,
    e: nat,
)
    requires
        d <= e,
        value_fits(v, heap, table, d),
    ensures
        value_fits(v, heap, table, e),
        value_json(v, json_source(heap, table, texts), d) == value_json(
            v,
            json_source(heap, table, texts),
            e,
        ),
{
    lemma_deeper_fits(heap.objects@, table@.strings, d, e);
    lemma_deeper_value(v, json_source(heap, table, texts), d, e);
}

} // verus!
