//! Objects as text.
//!
//! The text of a number with a fractional part is left to the caller: a function
//! from the number's bit pattern to its text.
use vstd::prelude::*;

use crate::hash::{hash_view, pair_map_entries, HashObject, HashView};
use crate::intern::Interner;
use crate::key::{key_text, HashKey};
use crate::object::{Object, PromiseState};
use crate::text::{concat, concat3, decimal, signed_decimal, to_decimal, to_signed_decimal};
use crate::value::Value;

verus! {

/// Whether a function writes numbers in that way.
pub open spec fn writes<F: Fn(u64) -> String>(
    float_text: F,
    texts: spec_fn(u64) -> Seq<char>,
) -> bool {
    forall|bits: u64, r: String| #[trigger]
        call_ensures(float_text, (bits,), r) ==> r@ == texts(bits)
}

/// `true` or `false`.
pub open spec fn bool_text(b: bool) -> Seq<char> {
    if b {
        "true"@
    } else {
        "false"@
    }
}

/// The first `n` of a list of texts, with a separator between them.
pub open spec fn joined_with(parts: Seq<Seq<char>>, separator: Seq<char>, n: int) -> Seq<char>
    decreases n,
{
    if n <= 0 {
        Seq::empty()
    } else if n == 1 {
        parts[0]
    } else {
        joined_with(parts, separator, n - 1) + separator + parts[n - 1]
    }
}

/// A value as text. An object of the heap is not looked up.
pub open spec fn inline_text(v: Value, texts: spec_fn(u64) -> Seq<char>) -> Seq<char> {
    match v {
        Value::Undefined => "undefined"@,
        Value::Null => "null"@,
        Value::Bool(b) => bool_text(b),
        Value::Int(n) => signed_decimal(n as int),
        Value::Float(bits) => texts(bits),
        Value::Heap(_) => "[ref]"@,
    }
}

/// The text of a key.
pub open spec fn written_key(
    k: HashKey,
    strings: Seq<Seq<char>>,
    texts: spec_fn(u64) -> Seq<char>,
) -> Seq<char> {
    match k {
        HashKey::Float(bits) => key_text(k, strings, texts(bits)),
        _ => key_text(k, strings, Seq::empty()),
    }
}

/// Whether each named key of a hash has a name.
pub open spec fn keys_are_named(h: HashView, strings: Seq<Seq<char>>) -> bool {
    forall|i: int|
        0 <= i < h.pairs.len() ==> ((#[trigger] h.pairs[i]).0 matches HashKey::Sym(id) ==> id
            < strings.len())
}

/// The properties of a hash as text, each with its key.
pub open spec fn pair_texts(
    h: HashView,
    strings: Seq<Seq<char>>,
    texts: spec_fn(u64) -> Seq<char>,
) -> Seq<Seq<char>> {
    Seq::new(
        h.pairs.len(),
        |i: int|
            written_key(h.pairs[i].0, strings, texts) + ": "@ + (if i < h.values.len() {
                inline_text(h.values[i], texts)
            } else {
                Seq::empty()
            }),
    )
}

/// The values of an array as text.
pub open spec fn item_texts(items: Seq<Value>, texts: spec_fn(u64) -> Seq<char>) -> Seq<Seq<char>> {
    Seq::new(items.len(), |i: int| inline_text(items[i], texts))
}

/// An object as text.
pub open spec fn inspected(
    o: Object,
    strings: Seq<Seq<char>>,
    texts: spec_fn(u64) -> Seq<char>,
) -> Seq<char>
    decreases o,
{
    match o {
        Object::Integer(v) => signed_decimal(v as int),
        Object::Float(bits) => texts(bits),
        Object::Boolean(v) => bool_text(v),
        Object::Null => "null"@,
        Object::Undefined => "undefined"@,
        Object::String(v) => v@,
        Object::RegExp(re) => "/"@ + re.pattern@ + "/"@ + re.flags@,
        Object::JsMap(_) => "[Map]"@,
        Object::JsSet(_) => "[Set]"@,
        Object::Array(items) => "["@ + joined_with(
            item_texts(items.value@, texts),
            ", "@,
            items.value@.len() as int,
        ) + "]"@,
        Object::Hash(h) => "{"@ + joined_with(
            pair_texts(hash_view(h.value), strings, texts),
            ", "@,
            pair_map_entries(h.value.pairs).len() as int,
        ) + "}"@,
        Object::CompiledFunction(_) => "[CompiledFunction]"@,
        Object::Class(c) => "[Class "@ + c.name@ + "]"@,
        Object::BuiltinFunction(_) => "[BuiltinFunction]"@,
        Object::Instance(i) => "[Instance "@ + i.class_name@ + "]"@,
        Object::BoundMethod(_) => "[BoundMethod]"@,
        Object::SuperRef(_) => "[SuperRef]"@,
        Object::Promise(p) => match p.settled {
            PromiseState::Fulfilled(v) => "[Promise fulfilled "@ + inspected(*v, strings, texts)
                + "]"@,
            PromiseState::Rejected(v) => "[Promise rejected "@ + inspected(*v, strings, texts)
                + "]"@,
        },
        Object::Generator(_) => "[Generator]"@,
        Object::Symbol(id, description) => match description {
            Some(d) => "Symbol("@ + d@ + ")"@,
            None => "Symbol("@ + decimal(id as nat) + ")"@,
        },
        Object::ReturnValue(v) => inspected(*v, strings, texts),
        Object::Error(err) => err.name@ + ": "@ + err.message@,
    }
}

/// Whether the keys that an object's text needs have names.
pub open spec fn is_printable(o: Object, strings: Seq<Seq<char>>) -> bool
    decreases o,
{
    match o {
        Object::Hash(h) => keys_are_named(hash_view(h.value), strings),
        Object::Promise(p) => match p.settled {
            PromiseState::Fulfilled(v) => is_printable(*v, strings),
            PromiseState::Rejected(v) => is_printable(*v, strings),
        },
        Object::ReturnValue(v) => is_printable(*v, strings),
        _ => true,
    }
}

/// An item of an array in the text of the array: null and undefined leave a gap.
pub open spec fn gap_text(v: Value, texts: spec_fn(u64) -> Seq<char>) -> Seq<char> {
    match v {
        Value::Undefined => Seq::empty(),
        Value::Null => Seq::empty(),
        _ => inline_text(v, texts),
    }
}

/// The text that an object is worth in string concatenation.
pub open spec fn js_text(
    o: Object,
    strings: Seq<Seq<char>>,
    texts: spec_fn(u64) -> Seq<char>,
) -> Seq<char> {
    match o {
        Object::Array(items) => joined_with(
            Seq::new(items.value@.len(), |i: int| gap_text(items.value@[i], texts)),
            ","@,
            items.value@.len() as int,
        ),
        Object::Hash(_) => "[object Object]"@,
        Object::Instance(_) => "[object Object]"@,
        Object::CompiledFunction(_) => "function () { [native code] }"@,
        Object::BuiltinFunction(_) => "function () { [native code] }"@,
        Object::BoundMethod(_) => "function () { [native code] }"@,
        _ => inspected(o, strings, texts),
    }
}

pub(crate) fn write_bool(b: bool) -> (r: String)
    ensures
        r@ == bool_text(b),
{
    if b {
        "true".to_owned()
    } else {
        "false".to_owned()
    }
}

impl Value {
    /// The value as text. An object of the heap is not looked up.
    pub fn inspect_inline<F: Fn(u64) -> String>(&self, float_text: &F) -> (r: String)
        requires
            forall|bits: u64| #[trigger] call_requires(*float_text, (bits,)),
        ensures
            forall|texts: spec_fn(u64) -> Seq<char>| #[trigger]
                writes(*float_text, texts) ==> r@ == inline_text(*self, texts),
    {
        match self {
            Value::Undefined => "undefined".to_owned(),
            Value::Null => "null".to_owned(),
            Value::Bool(b) => write_bool(*b),
            Value::Int(n) => to_signed_decimal(*n),
            Value::Float(bits) => float_text(*bits),
            Value::Heap(_) => "[ref]".to_owned(),
        }
    }
}

/// The text of a key.
pub(crate) fn write_key<F: Fn(u64) -> String>(
    k: &HashKey,
    table: &Interner,
    float_text: &F,
) -> (r: String)
    requires
        *k matches HashKey::Sym(id) ==> id < table@.strings.len(),
        forall|bits: u64| #[trigger] call_requires(*float_text, (bits,)),
    ensures
        forall|texts: spec_fn(u64) -> Seq<char>| #[trigger]
            writes(*float_text, texts) ==> r@ == written_key(*k, table@.strings, texts),
{
    if let HashKey::Float(bits) = k {
        let text = float_text(*bits);
        k.display_key(table, text.as_str())
    } else {
        proof {
            reveal_strlit("");
            assert(""@ =~= Seq::<char>::empty());
        }
        k.display_key(table, "")
    }
}

/// The texts of a list with a separator between them.
pub(crate) fn add_part(out: &mut String, separator: &str, first: bool, part: &str)
    ensures
        final(out)@ == (if first {
            old(out)@ + part@
        } else {
            old(out)@ + separator@ + part@
        }),
{
    if !first {
        out.append(separator);
    }
    out.append(part);
}

fn inspect_items<F: Fn(u64) -> String>(items: &Vec<Value>, float_text: &F) -> (r: String)
    requires
        forall|bits: u64| #[trigger] call_requires(*float_text, (bits,)),
    ensures
        forall|texts: spec_fn(u64) -> Seq<char>| #[trigger]
            writes(*float_text, texts) ==> r@ == joined_with(
                item_texts(items@, texts),
                ", "@,
                items@.len() as int,
            ),
{
    let mut out = String::new();
    let mut i: usize = 0;
    while i < items.len()
        invariant
            0 <= i <= items@.len(),
            forall|bits: u64| #[trigger] call_requires(*float_text, (bits,)),
            forall|texts: spec_fn(u64) -> Seq<char>| #[trigger]
                writes(*float_text, texts) ==> out@ == joined_with(
                    item_texts(items@, texts),
                    ", "@,
                    i as int,
                ),
        decreases items@.len() - i,
    {
        let part = items[i].inspect_inline(float_text);
        let ghost before = out@;
        add_part(&mut out, ", ", i == 0, part.as_str());
        assert forall|texts: spec_fn(u64) -> Seq<char>| #[trigger]
            writes(*float_text, texts) implies out@ == joined_with(
            item_texts(items@, texts),
            ", "@,
            i + 1,
        ) by {
            assert(item_texts(items@, texts)[i as int] == part@);
            if i == 0 {
                assert(before + part@ =~= part@);
            }
        }
        i += 1;
    }
    out
}

fn inspect_gaps<F: Fn(u64) -> String>(items: &Vec<Value>, float_text: &F) -> (r: String)
    requires
        forall|bits: u64| #[trigger] call_requires(*float_text, (bits,)),
    ensures
        forall|texts: spec_fn(u64) -> Seq<char>| #[trigger]
            writes(*float_text, texts) ==> r@ == joined_with(
                Seq::new(items@.len(), |i: int| gap_text(items@[i], texts)),
                ","@,
                items@.len() as int,
            ),
{
    let mut out = String::new();
    let mut i: usize = 0;
    while i < items.len()
        invariant
            0 <= i <= items@.len(),
            forall|bits: u64| #[trigger] call_requires(*float_text, (bits,)),
            forall|texts: spec_fn(u64) -> Seq<char>| #[trigger]
                writes(*float_text, texts) ==> out@ == joined_with(
                    Seq::new(items@.len(), |i: int| gap_text(items@[i], texts)),
                    ","@,
                    i as int,
                ),
        decreases items@.len() - i,
    {
        let part = match items[i] {
            Value::Undefined => String::new(),
            Value::Null => String::new(),
            _ => items[i].inspect_inline(float_text),
        };
        let ghost before = out@;
        add_part(&mut out, ",", i == 0, part.as_str());
        assert forall|texts: spec_fn(u64) -> Seq<char>| #[trigger]
            writes(*float_text, texts) implies out@ == joined_with(
            Seq::new(items@.len(), |i: int| gap_text(items@[i], texts)),
            ","@,
            i + 1,
        ) by {
            let parts = Seq::new(items@.len(), |i: int| gap_text(items@[i], texts));
            assert(parts[i as int] =~= part@);
            if i == 0 {
                assert(before + part@ =~= part@);
            }
        }
        i += 1;
    }
    out
}

fn inspect_pairs<F: Fn(u64) -> String>(
    h: &HashObject,
    table: &Interner,
    float_text: &F,
) -> (r: String)
    requires
        keys_are_named(hash_view(*h), table@.strings),
        forall|bits: u64| #[trigger] call_requires(*float_text, (bits,)),
    ensures
        forall|texts: spec_fn(u64) -> Seq<char>| #[trigger]
            writes(*float_text, texts) ==> r@ == joined_with(
                pair_texts(hash_view(*h), table@.strings, texts),
                ", "@,
                pair_map_entries(h.pairs).len() as int,
            ),
{
    let ghost view = hash_view(*h);
    let ghost strings = table@.strings;
    let mut out = String::new();
    let n: usize = h.pairs.len();
    let mut i: usize = 0;
    while i < n
        invariant
            0 <= i <= n,
            n == pair_map_entries(h.pairs).len(),
            view == hash_view(*h),
            strings == table@.strings,
            keys_are_named(view, strings),
            forall|bits: u64| #[trigger] call_requires(*float_text, (bits,)),
            forall|texts: spec_fn(u64) -> Seq<char>| #[trigger]
                writes(*float_text, texts) ==> out@ == joined_with(
                    pair_texts(view, strings, texts),
                    ", "@,
                    i as int,
                ),
        decreases n - i,
    {
        assert(view.pairs[i as int].0 matches HashKey::Sym(id) ==> id < strings.len());
        let key = write_key(h.pairs.entry_at(i).0, table, float_text);
        let value = if i < h.values.len() {
            h.values[i].inspect_inline(float_text)
        } else {
            String::new()
        };
        let part = concat3(key.as_str(), ": ", value.as_str());
        let ghost before = out@;
        add_part(&mut out, ", ", i == 0, part.as_str());
        assert forall|texts: spec_fn(u64) -> Seq<char>| #[trigger]
            writes(*float_text, texts) implies out@ == joined_with(
            pair_texts(view, strings, texts),
            ", "@,
            i + 1,
        ) by {
            assert(pair_texts(view, strings, texts)[i as int] =~= part@);
            if i == 0 {
                assert(before + part@ =~= part@);
            }
        }
        i += 1;
    }
    out
}

impl Object {
    /// The object as text, for people to look at.
    pub fn inspect<F: Fn(u64) -> String>(&self, table: &Interner, float_text: &F) -> (r: String)
        requires
            is_printable(*self, table@.strings),
            forall|bits: u64| #[trigger] call_requires(*float_text, (bits,)),
        ensures
            forall|texts: spec_fn(u64) -> Seq<char>| #[trigger]
                writes(*float_text, texts) ==> r@ == inspected(*self, table@.strings, texts),
        decreases *self,
    {
        match self {
            Object::Integer(v) => to_signed_decimal(*v),
            Object::Float(bits) => float_text(*bits),
            Object::Boolean(v) => write_bool(*v),
            Object::Null => "null".to_owned(),
            Object::Undefined => "undefined".to_owned(),
            Object::String(v) => v.clone(),
            Object::RegExp(re) => concat3("/", re.pattern.as_str(), "/").concat(re.flags.as_str()),
            Object::JsMap(_) => "[Map]".to_owned(),
            Object::JsSet(_) => "[Set]".to_owned(),
            Object::Array(items) => {
                let body = inspect_items(&items.value, float_text);
                concat3("[", body.as_str(), "]")
            },
            Object::Hash(h) => {
                let body = inspect_pairs(&h.value, table, float_text);
                concat3("{", body.as_str(), "}")
            },
            Object::CompiledFunction(_) => "[CompiledFunction]".to_owned(),
            Object::Class(c) => concat3("[Class ", c.name.as_str(), "]"),
            Object::BuiltinFunction(_) => "[BuiltinFunction]".to_owned(),
            Object::Instance(i) => concat3("[Instance ", i.class_name.as_str(), "]"),
            Object::BoundMethod(_) => "[BoundMethod]".to_owned(),
            Object::SuperRef(_) => "[SuperRef]".to_owned(),
            Object::Promise(p) => match &p.settled {
                PromiseState::Fulfilled(v) => {
                    let inner = v.inspect(table, float_text);
                    concat3("[Promise fulfilled ", inner.as_str(), "]")
                },
                PromiseState::Rejected(v) => {
                    let inner = v.inspect(table, float_text);
                    concat3("[Promise rejected ", inner.as_str(), "]")
                },
            },
            Object::Generator(_) => "[Generator]".to_owned(),
            Object::Symbol(id, description) => match description {
                Some(d) => concat3("Symbol(", d.as_str(), ")"),
                None => {
                    let digits = to_decimal(*id as u64);
                    concat3("Symbol(", digits.as_str(), ")")
                },
            },
            Object::ReturnValue(v) => v.inspect(table, float_text),
            Object::Error(err) => concat3(err.name.as_str(), ": ", err.message.as_str()),
        }
    }

    /// The text that the object is worth in string concatenation. Differs from
    /// `inspect` for arrays, which have no brackets, for other objects and for
    /// functions.
    pub fn to_js_string<F: Fn(u64) -> String>(&self, table: &Interner, float_text: &F) -> (r:
        String)
        requires
            !(*self is Hash) ==> is_printable(*self, table@.strings),
            forall|bits: u64| #[trigger] call_requires(*float_text, (bits,)),
        ensures
            forall|texts: spec_fn(u64) -> Seq<char>| #[trigger]
                writes(*float_text, texts) ==> r@ == js_text(*self, table@.strings, texts),
    {
        match self {
            Object::Array(items) => inspect_gaps(&items.value, float_text),
            Object::Hash(_) => "[object Object]".to_owned(),
            Object::Instance(_) => "[object Object]".to_owned(),
            Object::CompiledFunction(_) => "function () { [native code] }".to_owned(),
            Object::BuiltinFunction(_) => "function () { [native code] }".to_owned(),
            Object::BoundMethod(_) => "function () { [native code] }".to_owned(),
            _ => self.inspect(table, float_text),
        }
    }
}

} // verus!
