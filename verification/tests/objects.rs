use std::collections::HashMap;
use std::rc::Rc;

use formlogic_core::hash::HashObject;
use formlogic_core::heap::{obj_into_val, Heap};
use formlogic_core::intern::{intern, intern_rc, intern_str, resolve, Interner};
use formlogic_core::key::HashKey;
use formlogic_core::names::NameMap;
use formlogic_core::object::{
    make_array, make_empty_array, make_hash, unwrap_array, ErrorObject, InstanceObject, Object,
    ObjectType, PromiseObject, PromiseState, RegExpObject, VmCell,
};
use formlogic_core::realm::Realm;
use formlogic_core::value::Value;

fn float(bits: u64) -> String {
    f64::from_bits(bits).to_string()
}

#[test]
fn symbols_are_shared_and_resolved() {
    let mut table = Interner::new();
    let a = intern(&mut table, "alpha");
    let b = intern(&mut table, "beta");
    assert_ne!(a, b);
    assert_eq!(intern(&mut table, "alpha"), a);
    assert_eq!(*resolve(&table, a), "alpha");
    assert_eq!(*resolve(&table, b), "beta");
    assert_eq!(*intern_str(&mut table, "gamma"), "gamma");
    assert_eq!(table.len(), 3);
    let first = intern_str(&mut table, "alpha");
    assert!(Rc::ptr_eq(&first, &resolve(&table, a)));
    let delta = Rc::new("delta".to_string());
    let d = intern_rc(&mut table, &delta);
    assert!(Rc::ptr_eq(&delta, &resolve(&table, d)));
    assert_eq!(intern_rc(&mut table, &Rc::new("delta".to_string())), d);
}

#[test]
fn integers_and_doubles_of_the_same_value_are_the_same_key() {
    assert!(HashKey::from_int(5) == HashKey::from_float(5.0f64.to_bits()));
    assert!(HashKey::from_float(5.0f64.to_bits()) == HashKey::from_int(5));
    assert!(HashKey::from_int(5) != HashKey::from_float(5.5f64.to_bits()));
    assert!(HashKey::from_float((-0.0f64).to_bits()) == HashKey::from_float(0.0f64.to_bits()));
    assert!(HashKey::from_float(f64::NAN.to_bits()) == HashKey::from_float((-f64::NAN).to_bits()));
    assert!(HashKey::from_int(0) == HashKey::from_float((-0.0f64).to_bits()));
    assert!(HashKey::from_bool(true) != HashKey::from_int(1));
    let big = 9.2e18f64;
    assert!(HashKey::from_int(big as i64) == HashKey::from_float(big.to_bits()));
}

#[test]
fn keys_that_are_the_same_hash_alike() {
    let mut m: HashMap<HashKey, i32> = HashMap::new();
    m.insert(HashKey::from_int(7), 1);
    assert_eq!(m.get(&HashKey::from_float(7.0f64.to_bits())), Some(&1));
    assert_eq!(m.get(&HashKey::from_float(7.5f64.to_bits())), None);
}

#[test]
fn keys_as_text_and_as_index() {
    let mut table = Interner::new();
    let k = HashKey::from_string(&mut table, "42");
    assert_eq!(k.display_key(&table, ""), "42");
    assert_eq!(k.is_numeric_index(&table), Some(42));
    assert_eq!(HashKey::from_string(&mut table, "-1").is_numeric_index(&table), None);
    assert_eq!(HashKey::from_string(&mut table, "+7").is_numeric_index(&table), Some(7));
    assert_eq!(HashKey::from_string(&mut table, "4294967296").is_numeric_index(&table), None);
    assert_eq!(HashKey::from_int(-1).is_numeric_index(&table), None);
    assert_eq!(HashKey::from_float(3.0f64.to_bits()).is_numeric_index(&table), Some(3));
    assert_eq!(HashKey::from_float(3.5f64.to_bits()).is_numeric_index(&table), None);
    assert_eq!(HashKey::from_int(-12).display_key(&table, ""), "-12");
    assert_eq!(HashKey::from_int(i64::MIN).display_key(&table, ""), "-9223372036854775808");
    assert_eq!(HashKey::from_bool(false).display_key(&table, ""), "false");
    assert_eq!(HashKey::Null.display_key(&table, ""), "null");
    assert_eq!(HashKey::Undefined.display_key(&table, ""), "undefined");
    assert_eq!(HashKey::Other("o".to_string()).display_key(&table, ""), "o");
    assert_eq!(HashKey::from_float(1.5f64.to_bits()).display_key(&table, "1.5"), "1.5");
    assert_eq!(k.as_str_value(&table), Some(Rc::new("42".to_string())));
    assert_eq!(HashKey::from_int(1).as_str_value(&table), None);
}

#[test]
fn hashes_keep_insertion_order() {
    let mut realm = Realm::new();
    let mut h = HashObject::new(&mut realm);
    let a = HashKey::from_string(&mut realm.symbols, "a");
    let b = HashKey::from_string(&mut realm.symbols, "b");
    assert!(h.insert_pair(a.copy(), Value::Int(1)));
    assert!(h.insert_pair(HashKey::from_int(9), Value::Int(2)));
    assert!(h.insert_pair(b.copy(), Value::Int(3)));
    assert_eq!(h.shape_version, 4);
    assert!(!h.insert_pair(a.copy(), Value::Int(10)));
    assert_eq!(h.shape_version, 4);
    assert_eq!(h.get_by_str(&mut realm.symbols, "a"), Some(Value::Int(10)));
    assert_eq!(h.get_by_str(&mut realm.symbols, "b"), Some(Value::Int(3)));
    assert_eq!(h.get_value_by_str(&mut realm.symbols, "c"), None);
    assert!(h.ordered_keys() == vec![a.copy(), HashKey::from_int(9), b.copy()]);
    assert_eq!(h.get_value_at_slot(2), Some(Value::Int(3)));
    assert_eq!(h.get_value_at_slot(3), None);

    assert_eq!(h.remove_pair(&HashKey::from_float(9.0f64.to_bits())), Some(Value::Int(2)));
    assert_eq!(h.remove_pair(&HashKey::from_int(9)), None);
    assert_eq!(h.get_by_str(&mut realm.symbols, "b"), Some(Value::Int(3)));
    assert_eq!(h.get_value_at_slot(1), Some(Value::Int(3)));
    assert!(h.ordered_keys_ref() == vec![a, b]);
    assert_eq!(h.shape_version, 5);
}

#[test]
fn stale_pairs_are_synced_before_removal() {
    let mut realm = Realm::new();
    let mut h = HashObject::with_capacity(&mut realm, 4);
    let a = HashKey::from_string(&mut realm.symbols, "a");
    h.insert_pair(a.copy(), Value::Int(1));
    h.set_value_at_slot_unchecked(0, Value::Int(2));
    assert!(h.pairs_dirty);
    assert_eq!(h.get_value_at_slot_unchecked(0), Value::Int(2));
    assert_eq!(h.remove_pair(&a), Some(Value::Int(2)));
    assert!(!h.pairs_dirty);
}

#[test]
fn frozen_hashes_are_not_set_by_symbol() {
    let mut realm = Realm::new();
    let mut h = HashObject::new(&mut realm);
    let id = intern(&mut realm.symbols, "x");
    h.set_by_sym(id, Value::Bool(true));
    h.frozen = true;
    h.set_by_sym(id, Value::Bool(false));
    assert_eq!(h.get_by_sym(id), Some(Value::Bool(true)));
    h.set_by_str(&mut realm.symbols, Rc::new("x".to_string()), Value::Null);
    assert_eq!(h.get_by_sym(id), Some(Value::Null));
}

#[test]
fn hash_identifiers_differ() {
    let mut realm = Realm::new();
    let a = HashObject::new(&mut realm);
    let b = HashObject::new(&mut realm);
    assert_ne!(a.id, b.id);
}

#[test]
fn shape_versions_skip_zero() {
    let mut realm = Realm::new();
    let mut h = HashObject::new(&mut realm);
    h.shape_version = u32::MAX;
    h.bump_shape_version();
    assert_eq!(h.shape_version, 1);
}

#[test]
fn objects_know_their_type() {
    assert_eq!(Object::Integer(1).object_type(), ObjectType::Integer);
    assert_eq!(make_empty_array().object_type(), ObjectType::Array);
    assert_eq!(Object::Symbol(1, None).object_type(), ObjectType::Symbol);
    assert_eq!(Object::Undefined.object_type(), ObjectType::Undefined);
}

#[test]
fn objects_as_text() {
    let mut realm = Realm::new();
    let mut h = HashObject::new(&mut realm);
    let a = HashKey::from_string(&mut realm.symbols, "a");
    h.insert_pair(a, Value::Int(1));
    h.insert_pair(HashKey::from_float(0.5f64.to_bits()), Value::Heap(3));
    let t = &realm.symbols;
    let show = |o: &Object| o.inspect(t, &float);
    assert_eq!(show(&Object::Integer(-5)), "-5");
    assert_eq!(show(&Object::Float(1.5f64.to_bits())), "1.5");
    assert_eq!(show(&Object::Boolean(true)), "true");
    assert_eq!(show(&Object::Null), "null");
    assert_eq!(show(&Object::String("s".to_string())), "s");
    let re = RegExpObject { pattern: "a+".to_string(), flags: "gi".to_string() };
    assert_eq!(show(&Object::RegExp(Box::new(re))), "/a+/gi");
    let items = vec![Value::Int(1), Value::Null, Value::Undefined, Value::Bool(false), Value::Heap(0)];
    let array = make_array(items);
    assert_eq!(show(&array), "[1, null, undefined, false, [ref]]");
    assert_eq!(array.to_js_string(t, &float), "1,,,false,[ref]");
    let hash = make_hash(h);
    assert_eq!(show(&hash), "{a: 1, 0.5: [ref]}");
    assert_eq!(hash.to_js_string(t, &float), "[object Object]");
    assert_eq!(show(&make_empty_array()), "[]");
    let p = PromiseObject { settled: PromiseState::Rejected(Box::new(Object::Integer(3))) };
    assert_eq!(show(&Object::Promise(Box::new(p))), "[Promise rejected 3]");
    assert_eq!(show(&Object::Symbol(4, None)), "Symbol(4)");
    assert_eq!(show(&Object::Symbol(4, Some("d".to_string()))), "Symbol(d)");
    let e = ErrorObject { name: "TypeError".to_string(), message: "bad".to_string() };
    assert_eq!(show(&Object::Error(Box::new(e))), "TypeError: bad");
    assert_eq!(show(&Object::ReturnValue(Box::new(Object::Integer(1)))), "1");
}

#[test]
fn copies_share_arrays_and_keep_fields() {
    let mut fields: NameMap<Object> = NameMap::new();
    fields.insert("x".to_string(), Object::Integer(1));
    fields.insert("y".to_string(), make_array(vec![Value::Int(2)]));
    let instance = Object::Instance(Box::new(InstanceObject {
        class_name: "P".to_string(),
        parent_chain: vec![],
        fields,
        methods: NameMap::new(),
        getters: NameMap::new(),
        setters: NameMap::new(),
        super_methods: NameMap::new(),
        super_getters: NameMap::new(),
        super_setters: NameMap::new(),
        super_constructor_chain: vec![],
    }));
    let copy = instance.dup();
    if let (Object::Instance(a), Object::Instance(b)) = (&instance, &copy) {
        assert_eq!(b.class_name, "P");
        assert_eq!(b.fields.len(), 2);
        assert!(matches!(b.fields.get("x"), Some(Object::Integer(1))));
        match (a.fields.get("y"), b.fields.get("y")) {
            (Some(Object::Array(p)), Some(Object::Array(q))) => assert!(Rc::ptr_eq(p, q)),
            _ => panic!("arrays"),
        }
    } else {
        panic!("instances");
    }
}

#[test]
fn arrays_are_unwrapped_shared_or_not() {
    let rc = Rc::new(VmCell::new(vec![Value::Int(1)]));
    let other = Rc::clone(&rc);
    assert_eq!(unwrap_array(rc), vec![Value::Int(1)]);
    assert_eq!(unwrap_array(other), vec![Value::Int(1)]);
}

#[test]
fn name_maps_keep_order_through_removal() {
    let mut m: NameMap<u16> = NameMap::new();
    for (i, n) in ["a", "b", "c", "d"].iter().enumerate() {
        m.insert(n.to_string(), i as u16);
    }
    m.remove("b");
    m.insert("a".to_string(), 9);
    let names: Vec<String> = (0..m.len()).map(|i| m.name_at(i).clone()).collect();
    assert_eq!(names, vec!["a", "c", "d"]);
    assert_eq!(m.get("a"), Some(&9));
    assert_eq!(m.get("b"), None);
    assert_eq!(m.get("d"), Some(&3));
}

#[test]
fn local_objects_move_to_the_heap() {
    let mut realm = Realm::new();
    let mut heap = Heap::new();
    let first = obj_into_val(make_empty_array(), &mut heap);
    let mut inner = HashObject::new(&mut realm);
    let a = HashKey::from_string(&mut realm.symbols, "a");
    inner.local_objects = vec![Object::String("deep".to_string())];
    inner.insert_pair(a, Value::Heap(0));
    let mut outer = HashObject::new(&mut realm);
    let b = HashKey::from_string(&mut realm.symbols, "b");
    let c = HashKey::from_string(&mut realm.symbols, "c");
    let n = HashKey::from_string(&mut realm.symbols, "n");
    outer.local_objects = vec![Object::String("text".to_string()), make_hash(inner)];
    outer.insert_pair(b, Value::Heap(1));
    outer.insert_pair(c, Value::Heap(0));
    outer.insert_pair(n, Value::Int(0));
    outer.migrate_local_objects(&mut heap);
    assert!(outer.local_objects.is_empty());
    assert_eq!(first, Value::Heap(0));
    let text = |v: Value| match v {
        Value::Heap(i) => match heap.get(i) {
            Object::String(s) => s.clone(),
            _ => panic!("not a string"),
        },
        _ => panic!("not on the heap"),
    };
    assert_eq!(text(outer.values[1]), "text");
    assert_eq!(outer.values[2], Value::Int(0));
    match outer.values[0] {
        Value::Heap(i) => match heap.get(i) {
            Object::Hash(h) => {
                assert!(h.value.local_objects.is_empty());
                assert_eq!(text(h.value.values[0]), "deep");
            }
            _ => panic!("not a hash"),
        },
        _ => panic!("not on the heap"),
    }
    assert_eq!(heap.objects.len(), 4);
    outer.migrate_local_objects(&mut heap);
    assert_eq!(heap.objects.len(), 4);
}

#[test]
fn moved_objects_have_places_of_their_own() {
    let mut realm = Realm::new();
    let mut heap = Heap::new();
    let used = obj_into_val(Object::String("used".to_string()), &mut heap);
    let mut h = HashObject::new(&mut realm);
    let same = || Object::String("same".to_string());
    h.local_objects = vec![same(), same(), make_empty_array()];
    for (i, name) in ["a", "b", "c"].iter().enumerate() {
        let key = HashKey::from_string(&mut realm.symbols, name);
        h.insert_pair(key, Value::Heap(i as u32));
    }
    h.migrate_local_objects(&mut heap);
    for i in 0..3 {
        assert_ne!(h.values[i], used);
        for j in 0..i {
            assert_ne!(h.values[i], h.values[j]);
        }
    }
    assert_eq!(heap.objects.len(), 4);
    assert!(matches!(heap.get(0), Object::String(t) if t == "used"));
}

#[test]
fn a_shared_hash_is_moved_with_its_own_objects() {
    let mut realm = Realm::new();
    let mut heap = Heap::new();
    obj_into_val(make_empty_array(), &mut heap);
    let mut inner = HashObject::new(&mut realm);
    let a = HashKey::from_string(&mut realm.symbols, "a");
    inner.local_objects = vec![Object::String("deep".to_string())];
    inner.insert_pair(a, Value::Heap(0));
    let shared = make_hash(inner);
    let mut outer = HashObject::new(&mut realm);
    let b = HashKey::from_string(&mut realm.symbols, "b");
    outer.local_objects = vec![shared.dup()];
    outer.insert_pair(b, Value::Heap(0));
    outer.migrate_local_objects(&mut heap);
    let moved = match outer.values[0] {
        Value::Heap(i) => match heap.get(i) {
            Object::Hash(h) => h,
            _ => panic!("not a hash"),
        },
        _ => panic!("not on the heap"),
    };
    assert!(moved.value.local_objects.is_empty());
    let found = moved.value.get_by_str(&mut realm.symbols, "a");
    match found {
        Some(Value::Heap(i)) => {
            assert_ne!(i, 0);
            assert!(matches!(heap.get(i), Object::String(s) if s == "deep"));
        }
        _ => panic!("not on the heap"),
    }
    match &shared {
        Object::Hash(h) => {
            assert_eq!(h.value.local_objects.len(), 1);
            assert_eq!(h.value.values, vec![Value::Heap(0)]);
        }
        _ => panic!("not a hash"),
    }
}

#[test]
fn properties_come_and_go() {
    let mut realm = Realm::new();
    let mut h = HashObject::new(&mut realm);
    let a = HashKey::from_string(&mut realm.symbols, "a");
    let b = HashKey::from_string(&mut realm.symbols, "b");
    let shape = h.shape_version;
    h.insert_pair(a.clone(), Value::Int(1));
    h.insert_pair(b.clone(), Value::Int(2));
    assert_ne!(h.shape_version, shape);
    let shape = h.shape_version;
    h.insert_pair(a.clone(), Value::Int(3));
    assert_eq!(h.shape_version, shape);
    assert_eq!(h.get_by_str(&mut realm.symbols, "a"), Some(Value::Int(3)));
    h.remove_pair(&a);
    assert_ne!(h.shape_version, shape);
    assert_eq!(h.get_by_str(&mut realm.symbols, "a"), None);
    assert_eq!(h.get_by_str(&mut realm.symbols, "b"), Some(Value::Int(2)));
}
