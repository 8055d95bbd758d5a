//! Reading JSON text, and that the text of a value reads as that value.
use vstd::prelude::*;

use crate::hash::pair_map_entries;
use crate::heap::Heap;
use crate::intern::Interner;
use crate::json::{
    all_escaped, element_texts, escaped, field_texts, hex_digit, is_writable, json_source,
    lemma_fields_decrease, object_json, property_texts, quoted, refers_to, slots_within,
    value_fits, value_json, JsonSource,
};
use crate::key::{exponent_of, integer_magnitude, is_negative, HashKey};
use crate::object::Object;
use crate::render::{inspected, joined_with};
use crate::text::{decimal, digit, signed_decimal};
use crate::value::Value;

verus! {

/// What JSON text stands for. A numeral that is not a whole number of moderate size is
/// kept as it is written.
pub enum Tree {
    Null,
    Bool(bool),
    Number(int),
    Numeral(Seq<char>),
    Text(Seq<char>),
    List(Seq<Tree>),
    Record(Seq<(Seq<char>, Tree)>),
}

// Numbers

/// The value of a decimal digit.
pub open spec fn digit_value(c: char) -> Option<int> {
    if '0' <= c && c <= '9' {
        Some(c as u32 - '0' as u32)
    } else {
        None
    }
}

/// The number that decimal digits stand for.
pub open spec fn read_digits(t: Seq<char>) -> Option<int>
    decreases t.len(),
{
    if t.len() == 0 {
        None
    } else {
        match digit_value(t.last()) {
            None => None,
            Some(d) => if t.len() == 1 {
                Some(d)
            } else {
                match read_digits(t.drop_last()) {
                    None => None,
                    Some(n) => Some(10 * n + d),
                }
            },
        }
    }
}

/// The whole number that a text stands for.
pub open spec fn read_number(t: Seq<char>) -> Option<int> {
    if t.len() > 0 && t[0] == '-' {
        match read_digits(t.skip(1)) {
            Some(n) => Some(-n),
            None => None,
        }
    } else {
        read_digits(t)
    }
}

proof fn lemma_decimal_reads(n: nat)
    ensures
        read_digits(decimal(n)) == Some(n as int),
        decimal(n).len() > 0,
        decimal(n)[0] != '-',
    decreases n,
{
    if n >= 10 {
        lemma_decimal_reads(n / 10);
        let t = decimal(n);
        assert(t.drop_last() =~= decimal(n / 10));
        assert(t.last() == digit((n % 10) as int));
        assert(t[0] == decimal(n / 10)[0]);
    } else {
        let t = decimal(n);
        assert(t.last() == digit(n as int));
    }
}

/// The text of a whole number reads as that number.
pub proof fn law_number_reads_back(n: int)
    ensures
        read_number(signed_decimal(n)) == Some(n),
{
    if n < 0 {
        lemma_decimal_reads((-n) as nat);
        let t = signed_decimal(n);
        assert(t.skip(1) =~= decimal((-n) as nat));
    } else {
        lemma_decimal_reads(n as nat);
    }
}

// Strings

/// The value of a hexadecimal digit.
pub open spec fn hex_value(c: char) -> Option<int> {
    if '0' <= c && c <= '9' {
        Some(c as u32 - '0' as u32)
    } else if 'a' <= c && c <= 'f' {
        Some(c as u32 - 'a' as u32 + 10)
    } else if 'A' <= c && c <= 'F' {
        Some(c as u32 - 'A' as u32 + 10)
    } else {
        None
    }
}

/// The character that a single letter after a backslash stands for.
pub open spec fn short_escape(c: char) -> Option<u32> {
    if c == '"' || c == '\\' || c == '/' {
        Some(c as u32)
    } else if c == 'b' {
        Some(8)
    } else if c == 'f' {
        Some(12)
    } else if c == 'n' {
        Some(10)
    } else if c == 'r' {
        Some(13)
    } else if c == 't' {
        Some(9)
    } else {
        None
    }
}

/// The first character that the inside of a JSON string stands for, and how much of the
/// text stands for it.
pub open spec fn first_char(t: Seq<char>) -> Option<(char, int)> {
    if t.len() == 0 || t[0] == '"' || (t[0] as u32) < 32 {
        None
    } else if t[0] != '\\' {
        Some((t[0], 1))
    } else if t.len() < 2 {
        None
    } else if t[1] == 'u' {
        if t.len() < 6 {
            None
        } else {
            match (hex_value(t[2]), hex_value(t[3]), hex_value(t[4]), hex_value(t[5])) {
                (Some(a), Some(b), Some(c), Some(d)) => Some(
                    (((4096 * a + 256 * b + 16 * c + d) as u32) as char, 6),
                ),
                _ => None,
            }
        }
    } else {
        match short_escape(t[1]) {
            Some(n) => Some((n as char, 2)),
            None => None,
        }
    }
}

/// The text that the inside of a JSON string stands for.
pub open spec fn read_inside(t: Seq<char>) -> Option<Seq<char>>
    decreases t.len(),
{
    if t.len() == 0 {
        Some(Seq::empty())
    } else {
        match first_char(t) {
            None => None,
            Some((c, n)) => if n <= 0 || n > t.len() {
                None
            } else {
                match read_inside(t.skip(n)) {
                    None => None,
                    Some(rest) => Some(seq![c] + rest),
                }
            },
        }
    }
}

/// The text that a JSON string stands for.
pub open spec fn read_string(t: Seq<char>) -> Option<Seq<char>> {
    if t.len() < 2 || t[0] != '"' || t.last() != '"' {
        None
    } else {
        read_inside(t.subrange(1, t.len() - 1))
    }
}

proof fn lemma_escape_reads(c: char, rest: Seq<char>)
    ensures
        first_char(escaped(c) + rest) == Some((c, escaped(c).len() as int)),
        0 < escaped(c).len(),
        (escaped(c) + rest).skip(escaped(c).len() as int) =~= rest,
{
    let t = escaped(c) + rest;
    let n = c as u32;
    if n < 32 && n != 8 && n != 9 && n != 10 && n != 12 && n != 13 {
        let a = n as int / 16;
        let b = n as int % 16;
        assert(t[2] == '0' && t[3] == '0' && t[4] == hex_digit(a) && t[5] == hex_digit(b));
        assert(0 <= a < 2);
        assert(hex_value(t[4]) == Some(a));
        assert(hex_value(t[5]) == Some(b));
        assert(16 * a + b == n);
    }
}

/// A text is escaped character by character, from the front.
proof fn lemma_escaped_from_front(s: Seq<char>, n: int)
    requires
        0 < n <= s.len(),
    ensures
        all_escaped(s, n) =~= escaped(s[0]) + all_escaped(s.skip(1), n - 1),
    decreases n,
{
    if n == 1 {
        assert(all_escaped(s, 0) =~= Seq::empty());
        assert(all_escaped(s, 1) == all_escaped(s, 0) + escaped(s[0]));
        assert(all_escaped(s.skip(1), 0) =~= Seq::empty());
    } else {
        lemma_escaped_from_front(s, n - 1);
        assert(s.skip(1)[n - 2] == s[n - 1]);
        assert(all_escaped(s, n) == all_escaped(s, n - 1) + escaped(s[n - 1]));
        assert(all_escaped(s.skip(1), n - 1) == all_escaped(s.skip(1), n - 2) + escaped(s[n - 1]));
    }
}

proof fn lemma_escaped_reads(s: Seq<char>)
    ensures
        read_inside(all_escaped(s, s.len() as int)) == Some(s),
    decreases s.len(),
{
    let t = all_escaped(s, s.len() as int);
    if s.len() > 0 {
        lemma_escaped_from_front(s, s.len() as int);
        let rest = all_escaped(s.skip(1), s.len() - 1);
        lemma_escape_reads(s[0], rest);
        lemma_escaped_reads(s.skip(1));
        assert(t == escaped(s[0]) + rest);
        assert(t.skip(escaped(s[0]).len() as int) =~= rest);
        assert(seq![s[0]] + s.skip(1) =~= s);
    } else {
        assert(s =~= Seq::empty());
    }
}

/// The JSON string of a text reads as that text.
pub proof fn law_string_reads_back(s: Seq<char>)
    ensures
        read_string(quoted(s)) == Some(s),
{
    lemma_escaped_reads(s);
    let t = quoted(s);
    assert(t.subrange(1, t.len() - 1) =~= all_escaped(s, s.len() as int));
}

// Trees

/// Texts with a comma and a blank between them.
pub open spec fn separated(parts: Seq<Seq<char>>) -> Seq<char>
    decreases parts.len(),
{
    if parts.len() == 0 {
        Seq::empty()
    } else if parts.len() == 1 {
        parts[0]
    } else {
        separated(parts.drop_last()) + seq![',', ' '] + parts.last()
    }
}

/// Keys and values with a colon and a blank between each key and its value.
pub open spec fn entry_parts(keys: Seq<Seq<char>>, values: Seq<Seq<char>>) -> Seq<Seq<char>> {
    Seq::new(keys.len(), |k: int| keys[k] + seq![':', ' '] + values[k])
}

/// Whether a text is a list of `n` texts.
pub open spec fn is_list_of(text: Seq<char>, parts: Seq<Seq<char>>, n: nat) -> bool {
    parts.len() == n && text == seq!['['] + separated(parts) + seq![']']
}

/// Whether a text is a list of `n` keys with their values.
pub open spec fn is_record_of(
    text: Seq<char>,
    keys: Seq<Seq<char>>,
    values: Seq<Seq<char>>,
    n: nat,
) -> bool {
    &&& keys.len() == n
    &&& values.len() == n
    &&& text == seq!['{'] + separated(entry_parts(keys, values)) + seq!['}']
}

/// Whether JSON text stands for a tree.
pub open spec fn reads_as(text: Seq<char>, t: Tree) -> bool
    decreases t,
{
    match t {
        Tree::Null => text == seq!['n', 'u', 'l', 'l'],
        Tree::Bool(b) => if b {
            text == seq!['t', 'r', 'u', 'e']
        } else {
            text == seq!['f', 'a', 'l', 's', 'e']
        },
        Tree::Number(n) => read_number(text) == Some(n),
        Tree::Numeral(written) => text == written,
        Tree::Text(s) => read_string(text) == Some(s),
        Tree::List(items) => exists|parts: Seq<Seq<char>>| #[trigger]
            is_list_of(text, parts, items.len()) && forall|k: int|
                0 <= k < items.len() ==> reads_as(parts[k], #[trigger] items[k]),
        Tree::Record(entries) => exists|keys: Seq<Seq<char>>, values: Seq<Seq<char>>| #[trigger]
            is_record_of(text, keys, values, entries.len()) && forall|k: int|
                0 <= k < entries.len() ==> read_string(keys[k]) == Some((#[trigger] entries[k]).0)
                    && reads_as(values[k], entries[k].1),
    }
}

/// Whether a tree stands for a double: null where it is not a number, the number where
/// it is a whole one of moderate size, and else the numeral with which it is written.
pub open spec fn number_means(t: Tree, bits: u64, texts: spec_fn(u64) -> Seq<char>) -> bool {
    if exponent_of(bits) == 0x7ff {
        t == Tree::Null
    } else {
        match integer_magnitude(bits) {
            Some(m) => if m >= 0x8000_0000_0000_0000 {
                t == Tree::Numeral(texts(bits))
            } else if is_negative(bits) {
                t == Tree::Number(-(m as int))
            } else {
                t == Tree::Number(m as int)
            },
            None => t == Tree::Numeral(texts(bits)),
        }
    }
}

/// The name of a property.
pub open spec fn property_name(
    key: HashKey,
    strings: Seq<Seq<char>>,
    texts: spec_fn(u64) -> Seq<char>,
) -> Seq<char> {
    match key {
        HashKey::Sym(id) => strings[id as int],
        _ => crate::render::written_key(key, strings, texts),
    }
}

/// Whether a tree stands for a value.
pub open spec fn value_means(t: Tree, v: Value, s: JsonSource) -> bool
    decreases t, 1int, v,
{
    match v {
        Value::Int(n) => t == Tree::Number(n as int),
        Value::Float(bits) => number_means(t, bits, s.texts),
        Value::Bool(b) => t == Tree::Bool(b),
        Value::Null | Value::Undefined => t == Tree::Null,
        Value::Heap(i) => i < s.objects.len() && object_means(t, s.objects[i as int], s),
    }
}

/// Whether a tree stands for an object.
pub open spec fn object_means(t: Tree, o: Object, s: JsonSource) -> bool
    decreases t, 0int, o,
{
    match o {
        Object::Integer(n) => t == Tree::Number(n as int),
        Object::Float(bits) => number_means(t, bits, s.texts),
        Object::Boolean(b) => t == Tree::Bool(b),
        Object::Null | Object::Undefined => t == Tree::Null,
        Object::String(v) => t == Tree::Text(v@),
        Object::Array(cell) => match t {
            Tree::List(items) => {
                &&& items.len() == cell.value@.len()
                &&& forall|k: int|
                    0 <= k < items.len() ==> value_means(#[trigger] items[k], cell.value@[k], s)
            },
            _ => false,
        },
        Object::Hash(h) => match t {
            Tree::Record(entries) => {
                let pairs = pair_map_entries(h.value.pairs);
                &&& entries.len() == pairs.len()
                &&& forall|k: int|
                    0 <= k < entries.len() ==> (#[trigger] entries[k]).0 == property_name(
                        pairs[k].0,
                        s.strings,
                        s.texts,
                    ) && if k < h.value.values@.len() {
                        value_means(entries[k].1, h.value.values@[k], s)
                    } else {
                        entries[k].1 == Tree::Null
                    }
            },
            _ => false,
        },
        Object::Instance(inst) => match t {
            Tree::Record(entries) => {
                let fields = inst.fields.items();
                &&& entries.len() == fields.len()
                &&& forall|k: int|
                    0 <= k < entries.len() ==> (#[trigger] entries[k]).0 == fields[k].0@
                        && object_means(entries[k].1, fields[k].1, s)
            },
            _ => false,
        },
        Object::Error(err) => t == Tree::Text("Error: "@ + err.message@),
        Object::ReturnValue(inner) => object_means(t, *inner, s),
        _ => t == Tree::Text(inspected(o, s.strings, s.texts)),
    }
}

// That the text of a value reads as the value

spec fn number_tree(bits: u64, texts: spec_fn(u64) -> Seq<char>) -> Tree {
    if exponent_of(bits) == 0x7ff {
        Tree::Null
    } else {
        match integer_magnitude(bits) {
            Some(m) => if m >= 0x8000_0000_0000_0000 {
                Tree::Numeral(texts(bits))
            } else if is_negative(bits) {
                Tree::Number(-(m as int))
            } else {
                Tree::Number(m as int)
            },
            None => Tree::Numeral(texts(bits)),
        }
    }
}

spec fn value_tree(v: Value, s: JsonSource, depth: nat) -> Tree
    decreases depth, 0int, v,
{
    match v {
        Value::Int(n) => Tree::Number(n as int),
        Value::Float(bits) => number_tree(bits, s.texts),
        Value::Bool(b) => Tree::Bool(b),
        Value::Null | Value::Undefined => Tree::Null,
        Value::Heap(i) => if depth == 0 || i >= s.objects.len() {
            Tree::Null
        } else {
            object_tree(s.objects[i as int], s, (depth - 1) as nat)
        },
    }
}

spec fn object_tree(o: Object, s: JsonSource, depth: nat) -> Tree
    decreases depth, 2int, o,
{
    match o {
        Object::Integer(n) => Tree::Number(n as int),
        Object::Float(bits) => number_tree(bits, s.texts),
        Object::Boolean(b) => Tree::Bool(b),
        Object::Null | Object::Undefined => Tree::Null,
        Object::String(v) => Tree::Text(v@),
        Object::Array(cell) => Tree::List(
            Seq::new(cell.value@.len(), |k: int| value_tree(cell.value@[k], s, depth)),
        ),
        Object::Hash(h) => Tree::Record(
            Seq::new(
                pair_map_entries(h.value.pairs).len(),
                |k: int|
                    (
                        property_name(pair_map_entries(h.value.pairs)[k].0, s.strings, s.texts),
                        if k < h.value.values@.len() {
                            value_tree(h.value.values@[k], s, depth)
                        } else {
                            Tree::Null
                        },
                    ),
            ),
        ),
        Object::Instance(inst) => {
            proof {
                lemma_fields_decrease(o, inst.fields);
            }
            Tree::Record(
                Seq::new(
                    inst.fields.items().len(),
                    |k: int|
                        (
                            inst.fields.items()[k].0@,
                            if 0 <= k < inst.fields.items().len() {
                                object_tree(inst.fields.items()[k].1, s, depth)
                            } else {
                                Tree::Null
                            },
                        ),
                ),
            )
        },
        Object::Error(err) => Tree::Text("Error: "@ + err.message@),
        Object::ReturnValue(inner) => object_tree(*inner, s, depth),
        _ => Tree::Text(inspected(o, s.strings, s.texts)),
    }
}

proof fn lemma_separated(parts: Seq<Seq<char>>, n: int)
    requires
        0 <= n <= parts.len(),
    ensures
        joined_with(parts, ", "@, n) == separated(parts.take(n)),
    decreases n,
{
    reveal_strlit(", ");
    assert(", "@ =~= seq![',', ' ']);
    if n > 1 {
        lemma_separated(parts, n - 1);
        assert(parts.take(n).drop_last() =~= parts.take(n - 1));
    }
}

proof fn lemma_number(bits: u64, s: JsonSource)
    ensures
        number_means(number_tree(bits, s.texts), bits, s.texts),
        reads_as(crate::json::number_json(bits, s.texts), number_tree(bits, s.texts)),
{
    lemma_null();
    if let Some(m) = integer_magnitude(bits) {
        law_number_reads_back(-(m as int));
        law_number_reads_back(m as int);
    }
}

proof fn lemma_null()
    ensures
        "null"@ == seq!['n', 'u', 'l', 'l'],
{
    reveal_strlit("null");
    assert("null"@ =~= seq!['n', 'u', 'l', 'l']);
}

proof fn lemma_bools()
    ensures
        "true"@ == seq!['t', 'r', 'u', 'e'],
        "false"@ == seq!['f', 'a', 'l', 's', 'e'],
{
    reveal_strlit("true");
    reveal_strlit("false");
    assert("true"@ =~= seq!['t', 'r', 'u', 'e']);
    assert("false"@ =~= seq!['f', 'a', 'l', 's', 'e']);
}

proof fn lemma_value(v: Value, s: JsonSource, depth: nat)
    requires
        refers_to(v, slots_within(s.objects, s.strings, depth)),
    ensures
        value_means(value_tree(v, s, depth), v, s),
        reads_as(value_json(v, s, depth), value_tree(v, s, depth)),
    decreases depth, 0int, v,
{
    lemma_null();
    lemma_bools();
    match v {
        Value::Int(n) => law_number_reads_back(n as int),
        Value::Float(bits) => lemma_number(bits, s),
        Value::Heap(i) => {
            assert(slots_within(s.objects, s.strings, depth)(i));
            lemma_object(s.objects[i as int], s, (depth - 1) as nat);
        },
        _ => {},
    }
}

proof fn lemma_object(o: Object, s: JsonSource, depth: nat)
    requires
        is_writable(o, s.strings, slots_within(s.objects, s.strings, depth)),
    ensures
        object_means(object_tree(o, s, depth), o, s),
        reads_as(object_json(o, s, depth), object_tree(o, s, depth)),
    decreases depth, 2int, o,
{
    lemma_null();
    lemma_bools();
    let t = object_tree(o, s, depth);
    let text = object_json(o, s, depth);
    match o {
        Object::Integer(n) => law_number_reads_back(n as int),
        Object::Float(bits) => lemma_number(bits, s),
        Object::String(v) => law_string_reads_back(v@),
        Object::Array(cell) => lemma_array(o, s, depth),
        Object::Hash(h) => lemma_hash(o, s, depth),
        Object::Instance(inst) => {
            lemma_fields_decrease(o, inst.fields);
            let fields = inst.fields.items();
            let entries = t->Record_0;
            let keys = Seq::new(fields.len(), |k: int| quoted(fields[k].0@));
            let values = Seq::new(fields.len(), |k: int| object_json(fields[k].1, s, depth));
            assert forall|k: int| 0 <= k < fields.len() implies read_string(keys[k]) == Some(
                (#[trigger] entries[k]).0,
            ) && reads_as(values[k], entries[k].1) && object_means(
                entries[k].1,
                fields[k].1,
                s,
            ) by {
                law_string_reads_back(fields[k].0@);
                assert(is_writable(
                    fields[k].1,
                    s.strings,
                    slots_within(s.objects, s.strings, depth),
                ));
                lemma_object(fields[k].1, s, depth);
            }
            let parts = field_texts(inst.fields, s, depth);
            lemma_record(text, parts, keys, values);
            assert(is_record_of(text, keys, values, entries.len()));
        },
        Object::Error(err) => law_string_reads_back("Error: "@ + err.message@),
        Object::ReturnValue(inner) => lemma_object(*inner, s, depth),
        _ => law_string_reads_back(inspected(o, s.strings, s.texts)),
    }
}

proof fn lemma_record(
    text: Seq<char>,
    parts: Seq<Seq<char>>,
    keys: Seq<Seq<char>>,
    values: Seq<Seq<char>>,
)
    requires
        keys.len() == parts.len(),
        values.len() == parts.len(),
        forall|k: int|
            0 <= k < parts.len() ==> #[trigger] parts[k] == keys[k] + ": "@ + values[k],
        text == "{"@ + joined_with(parts, ", "@, parts.len() as int) + "}"@,
    ensures
        is_record_of(text, keys, values, parts.len()),
{
    reveal_strlit(": ");
    reveal_strlit("{");
    reveal_strlit("}");
    assert(": "@ =~= seq![':', ' ']);
    assert("{"@ =~= seq!['{']);
    assert("}"@ =~= seq!['}']);
    assert(parts =~= entry_parts(keys, values));
    lemma_separated(parts, parts.len() as int);
    assert(parts.take(parts.len() as int) =~= parts);
}

proof fn lemma_array(o: Object, s: JsonSource, depth: nat)
    requires
        o is Array,
        is_writable(o, s.strings, slots_within(s.objects, s.strings, depth)),
    ensures
        object_means(object_tree(o, s, depth), o, s),
        reads_as(object_json(o, s, depth), object_tree(o, s, depth)),
    decreases depth, 1int, o,
{
    let items = o->Array_0.value@;
    let t = object_tree(o, s, depth);
    let trees = t->List_0;
    let text = object_json(o, s, depth);
    let parts = element_texts(items, s, depth);
    reveal_strlit("[");
    reveal_strlit("]");
    assert("["@ =~= seq!['[']);
    assert("]"@ =~= seq![']']);
    lemma_separated(parts, parts.len() as int);
    assert(parts.take(parts.len() as int) =~= parts);
    assert(is_list_of(text, parts, trees.len()));
    assert forall|k: int| 0 <= k < trees.len() implies reads_as(parts[k], #[trigger] trees[k])
        && value_means(trees[k], items[k], s) by {
        assert(refers_to(items[k], slots_within(s.objects, s.strings, depth)));
        lemma_value(items[k], s, depth);
    }
}

proof fn lemma_hash(o: Object, s: JsonSource, depth: nat)
    requires
        o is Hash,
        is_writable(o, s.strings, slots_within(s.objects, s.strings, depth)),
    ensures
        object_means(object_tree(o, s, depth), o, s),
        reads_as(object_json(o, s, depth), object_tree(o, s, depth)),
    decreases depth, 1int, o,
{
    lemma_null();
    let h = o->Hash_0.value;
    let pairs = pair_map_entries(h.pairs);
    let t = object_tree(o, s, depth);
    let entries = t->Record_0;
    let text = object_json(o, s, depth);
    let keys = Seq::new(
        pairs.len(),
        |k: int| quoted(crate::render::written_key(pairs[k].0, s.strings, s.texts)),
    );
    let values = Seq::new(
        pairs.len(),
        |k: int|
            if k < h.values@.len() {
                value_json(h.values@[k], s, depth)
            } else {
                "null"@
            },
    );
    assert forall|k: int| 0 <= k < pairs.len() implies read_string(keys[k]) == Some(
        (#[trigger] entries[k]).0,
    ) && reads_as(values[k], entries[k].1) && (k < h.values@.len() ==> value_means(
        entries[k].1,
        h.values@[k],
        s,
    )) by {
        law_string_reads_back(crate::render::written_key(pairs[k].0, s.strings, s.texts));
        if k < h.values@.len() {
            assert(refers_to(h.values@[k], slots_within(s.objects, s.strings, depth)));
            lemma_value(h.values@[k], s, depth);
        }
    }
    let parts = property_texts(h, s, depth);
    lemma_record(text, parts, keys, values);
    assert(is_record_of(text, keys, values, entries.len()));
}

/// JSON text that is written of a value reads as a tree that stands for that value:
/// numbers, strings, `true`, `false` and `null` as themselves, arrays item by item in
/// their order, and hashes and instances property by property.
pub proof fn law_json_reads_back(
    v: Value,
    heap: Heap,
    table: Interner,
    texts: spec_fn(u64) -> Seq<char>,
    depth: nat,
)
    requires
        value_fits(v, heap, table, depth),
    ensures
        exists|t: Tree| #[trigger]
            value_means(t, v, json_source(heap, table, texts)) && reads_as(
                value_json(v, json_source(heap, table, texts), depth),
                t,
            ),
{
    let s = json_source(heap, table, texts);
    lemma_value(v, s, depth);
    assert(value_means(value_tree(v, s, depth), v, s));
}

/// The same of an object.
pub proof fn law_object_json_reads_back(
    o: Object,
    heap: Heap,
    table: Interner,
    texts: spec_fn(u64) -> Seq<char>,
    depth: nat,
)
    requires
        crate::json::object_fits(o, heap, table, depth),
    ensures
        exists|t: Tree| #[trigger]
            object_means(t, o, json_source(heap, table, texts)) && reads_as(
                object_json(o, json_source(heap, table, texts), depth),
                t,
            ),
{
    let s = json_source(heap, table, texts);
    lemma_object(o, s, depth);
    assert(object_means(object_tree(o, s, depth), o, s));
}

/// The texts of the two truth values differ: it is `true` for one and `false` for the
/// other.
pub proof fn law_truth_values_differ(a: bool, b: bool, s: JsonSource, depth: nat)
    ensures
        value_json(Value::Bool(a), s, depth) == value_json(Value::Bool(b), s, depth) <==> a == b,
        value_json(Value::Bool(a), s, depth) == "true"@ <==> a,
        value_json(Value::Bool(a), s, depth) == "false"@ <==> !a,
        object_json(Object::Boolean(a), s, depth) == "true"@ <==> a,
        object_json(Object::Boolean(a), s, depth) == "false"@ <==> !a,
{
    lemma_bools();
    assert("true"@.len() != "false"@.len());
}

/// Different whole numbers have different texts.
pub proof fn law_numbers_differ(a: i64, b: i64, s: JsonSource, depth: nat)
    ensures
        value_json(Value::Int(a), s, depth) == value_json(Value::Int(b), s, depth) <==> a == b,
{
    law_number_reads_back(a as int);
    law_number_reads_back(b as int);
}

} // verus!
