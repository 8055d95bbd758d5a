use std::rc::Rc;

use formlogic_core::ast::{Expression, Program, Statement, VariableKind};
use formlogic_core::config::FormLogicConfig;
use formlogic_core::engine::{FormLogicEngine, BYTECODE_CACHE_CAPACITY};
use formlogic_core::hash::HashObject;
use formlogic_core::heap::{first_same, obj_into_val, val_to_obj, Heap};
use formlogic_core::host_bridge::PendingHostCall;
use formlogic_core::intern::Interner;
use formlogic_core::json::{json_string, object_to_json, value_to_json};
use formlogic_core::key::HashKey;
use formlogic_core::machine::Machine;
use formlogic_core::names::NameMap;
use formlogic_core::object::{
    make_array, make_hash, CapturedValue, CompiledFunctionObject, ErrorObject, InstanceObject,
    Object, VmCell,
};
use formlogic_core::realm::Realm;
use formlogic_core::script::{ScriptState, GC_INITIAL_THRESHOLD};
use formlogic_core::session::{is_in_order, is_there, leaves_value, Callee, Ended};
use formlogic_core::value::Value;

fn float(bits: u64) -> String {
    f64::from_bits(bits).to_string()
}

fn text(s: &str) -> Object {
    Object::String(s.to_string())
}

fn number(v: i64) -> Statement {
    Statement::Expression(Expression::Integer(v))
}

// A parser for programs that are lists of numbers and `name=number`.
fn parse(source: &str) -> (Program, Vec<String>) {
    let mut statements = vec![];
    let mut errors = vec![];
    for word in source.split_whitespace() {
        if let Some((n, v)) = word.split_once('=') {
            statements.push(Statement::Let {
                name: n.to_string(),
                value: Expression::Integer(v.parse().unwrap()),
                kind: VariableKind::Let,
            });
        } else if let Ok(v) = word.parse() {
            statements.push(number(v));
        } else {
            errors.push(format!("unexpected {}", word));
        }
    }
    (Program { statements }, errors)
}

fn script(source: &str) -> ScriptState {
    FormLogicEngine::new().compile_script(source, &parse).expect("script")
}

fn function(constants: Vec<Object>, captured: Vec<Value>) -> CompiledFunctionObject {
    CompiledFunctionObject {
        instructions: Rc::new(vec![]),
        constants: Rc::new(constants),
        num_locals: 0,
        num_parameters: 0,
        rest_parameter_index: None,
        takes_this: false,
        is_async: false,
        is_generator: false,
        num_cache_slots: 0,
        max_stack_depth: 0,
        register_count: 0,
        inline_cache: Rc::new(VmCell::new(vec![])),
        closure_captures: vec![],
        captured_values: captured
            .into_iter()
            .map(|value| CapturedValue { slot: 0, value })
            .collect(),
    }
}

#[test]
fn json_strings_are_escaped() {
    assert_eq!(json_string("plain é"), "\"plain é\"");
    assert_eq!(
        json_string("a\"b\\c\n\r\t\u{8}\u{c}\u{1}\u{1f}\u{7f}/"),
        "\"a\\\"b\\\\c\\n\\r\\t\\b\\f\\u0001\\u001f\u{7f}/\""
    );
}

#[test]
fn values_as_json() {
    let heap = Heap::new();
    let t = Interner::new();
    let json = |v: Value| value_to_json(v, &heap, &t, &float).unwrap();
    let number = |f: f64| json(Value::Float(f.to_bits()));
    assert_eq!(json(Value::Int(-7)), "-7");
    assert_eq!(json(Value::Bool(true)), "true");
    assert_eq!(json(Value::Undefined), "null");
    assert_eq!(number(f64::NAN), "null");
    assert_eq!(number(f64::NEG_INFINITY), "null");
    assert_eq!(number(3.0), "3");
    assert_eq!(number(-3.0), "-3");
    assert_eq!(number(-0.0), "0");
    assert_eq!(number(0.25), "0.25");
    assert_eq!(number(9223372036854774784.0), "9223372036854774784");
    assert_eq!(number(9223372036854775808.0), "9223372036854776000");
    assert_eq!(number(1e300), format!("{}", 1e300));
}

#[test]
fn objects_as_json_follow_the_heap() {
    let mut realm = Realm::new();
    let mut heap = Heap::new();
    let inner = obj_into_val(make_array(vec![Value::Int(1), Value::Null]), &mut heap);
    let name = obj_into_val(text("x\"y"), &mut heap);
    let mut h = HashObject::new(&mut realm);
    let list = HashKey::from_string(&mut realm.symbols, "list");
    h.insert_pair(list, inner);
    h.insert_pair(HashKey::from_int(2), name);
    let hash = obj_into_val(make_hash(h), &mut heap);
    let t = &realm.symbols;
    assert_eq!(
        value_to_json(hash, &heap, t, &float).unwrap(),
        "{\"list\": [1, null], \"2\": \"x\\\"y\"}"
    );
    let mut fields: NameMap<Object> = NameMap::new();
    fields.insert("n".to_string(), Object::Integer(1));
    fields.insert("r".to_string(), make_array(vec![inner]));
    let instance = Object::Instance(Box::new(InstanceObject {
        class_name: "P".to_string(),
        parent_chain: vec![],
        fields,
        methods: NameMap::new(),
        getters: NameMap::new(),
        setters: NameMap::new(),
        super_methods: NameMap::new(),
        super_getters: NameMap::new(),
        super_setters: NameMap::new(),
        super_constructor_chain: vec![],
    }));
    let json = |o: &Object| object_to_json(o, &heap, t, &float).unwrap();
    assert_eq!(json(&instance), "{\"n\": 1, \"r\": [[1, null]]}");
    let e = ErrorObject { name: "TypeError".to_string(), message: "bad".to_string() };
    assert_eq!(json(&Object::Error(Box::new(e))), "\"Error: bad\"");
    assert_eq!(json(&Object::ReturnValue(Box::new(Object::Null))), "null");
    let f = Object::CompiledFunction(Box::new(function(vec![], vec![])));
    assert_eq!(json(&f), "\"[CompiledFunction]\"");
}

#[test]
fn cyclic_objects_have_no_json() {
    let t = Interner::new();
    let mut heap = Heap::new();
    let leaf = obj_into_val(make_array(vec![]), &mut heap);
    let shared = obj_into_val(make_array(vec![leaf, leaf]), &mut heap);
    assert_eq!(shared, Value::Heap(1));
    let cycle = obj_into_val(make_array(vec![leaf, Value::Heap(2)]), &mut heap);
    assert_eq!(cycle, Value::Heap(2));
    assert_eq!(value_to_json(shared, &heap, &t, &float), Some("[[], []]".to_string()));
    assert_eq!(value_to_json(cycle, &heap, &t, &float), None);
    assert_eq!(value_to_json(Value::Heap(9), &heap, &t, &float), None);
    assert_eq!(object_to_json(&make_array(vec![shared, cycle]), &heap, &t, &float), None);
    let nested = make_array(vec![shared, leaf]);
    let text = object_to_json(&nested, &heap, &t, &float);
    assert_eq!(text, Some("[[[], []], []]".to_string()));
}

#[test]
fn heap_positions_are_used_again() {
    let mut heap = Heap::new();
    let a = obj_into_val(text("a"), &mut heap);
    let b = obj_into_val(text("b"), &mut heap);
    assert_eq!((a, b), (Value::Heap(0), Value::Heap(1)));
    assert_eq!(obj_into_val(Object::Integer(4), &mut heap), Value::Int(4));
    assert!(matches!(val_to_obj(b, &heap), Object::String(s) if s == "b"));
    heap.sweep(&vec![false, true]);
    assert_eq!(heap.allocated_count(), 1);
    assert_eq!(obj_into_val(text("c"), &mut heap), Value::Heap(0));
    assert_eq!(heap.allocated_count(), 2);
}

#[test]
fn programs_are_cached() {
    let mut engine = FormLogicEngine::new();
    let first = engine.load("1 2", &parse).expect("compile");
    let fail = |_: &str| -> (Program, Vec<String>) { panic!("parsed again") };
    let second = engine.load("1 2", &fail).expect("cached");
    assert!(Rc::ptr_eq(&first.instructions, &second.instructions));
    assert_eq!(
        engine.load("1 ? !", &parse).expect_err("errors"),
        "Parser errors: unexpected ?, unexpected !"
    );
    assert!(engine.lookup("1 ? !").is_none());
}

#[test]
fn a_full_cache_forgets_its_first_entry() {
    let mut engine = FormLogicEngine::with_config(FormLogicConfig::default());
    for i in 0..BYTECODE_CACHE_CAPACITY {
        engine.load(&i.to_string(), &parse).expect("compile");
    }
    assert!(engine.lookup("0").is_some());
    engine.load("1000", &parse).expect("compile");
    assert!(engine.lookup("0").is_none());
    assert!(engine.lookup("255").is_some());
    engine.load("1001", &parse).expect("compile");
    // the last entry had taken the first place
    assert!(engine.lookup("255").is_none());
    for s in ["1", "254", "1000", "1001"] {
        assert!(engine.lookup(s).is_some());
    }
}

#[test]
fn rejected_programs_are_not_cached() {
    let wrong = |_: &str| {
        (Program { statements: vec![Statement::Break { label: None }] }, vec![])
    };
    let mut engine = FormLogicEngine::new();
    assert_eq!(engine.load("x", &wrong).expect_err("wrong"), "loop control outside loop");
    assert!(engine.lookup("x").is_none());
    assert!(engine.load("x", &parse).is_err());
}

#[test]
fn limits_have_their_defaults() {
    let c = FormLogicConfig::default();
    assert_eq!(c.max_instructions, Some(100_000_000));
    assert_eq!(c.max_wall_time_ms, Some(5_000));
    assert_eq!(c.await_timeout_ms, Some(30_000));
    assert_eq!(c.max_heap_objects, Some(100_000));
    assert_eq!(c.max_heap_bytes, Some(64 * 1024 * 1024));
    assert!(!c.enable_vm_profiling);
    assert!(FormLogicEngine::new().config == c);
    assert!(FormLogicEngine::default().config == c);
    let fewer = FormLogicConfig { max_instructions: Some(5), ..c };
    assert!(FormLogicEngine::with_config(fewer).config == fewer);
}

#[test]
fn globals_are_read_back() {
    let mut s = script("x=1 y=2");
    assert_eq!(s.globals_table().len(), 2);
    assert!(matches!(s.get_global("x"), Ok(Object::Undefined)));
    assert_eq!(s.get_global("nope").expect_err("nope"), "undefined variable: nope");
    s.set_global("x", text("v")).expect("set");
    s.set_global("new", Object::Integer(9)).expect("set");
    assert!(matches!(s.get_global("x"), Ok(Object::String(v)) if v == "v"));
    assert!(matches!(s.get_global("new"), Ok(Object::Integer(9))));
    assert!(matches!(s.get_global_by_index(2), Object::Integer(9)));
    assert!(s.is_global_dirty(0));
    assert!(!s.is_global_dirty(1));
    s.clear_dirty();
    assert!(!s.is_global_dirty(0));
    s.set_global_by_index(1, Object::Boolean(true));
    assert!(s.is_global_dirty(1));
    assert!(matches!(s.get_global("y"), Ok(Object::Boolean(true))));
}

#[test]
fn snapshots_bring_globals_back() {
    let mut s = script("x=1 y=2");
    s.set_global("x", Object::Integer(1)).expect("set");
    let snapshot = s.snapshot_globals();
    s.set_global("x", Object::Integer(5)).expect("set");
    s.set_global("y", Object::Integer(6)).expect("set");
    s.clear_dirty();
    s.restore_globals(&snapshot);
    assert!(matches!(s.get_global("x"), Ok(Object::Integer(1))));
    assert!(matches!(s.get_global("y"), Ok(Object::Undefined)));
    assert!(s.is_global_dirty(0));
    assert!(s.is_global_dirty(1));
    assert!(!s.is_global_dirty(2));
}

#[test]
fn too_many_globals_are_refused() {
    let mut s = script("");
    s.globals_table.insert("low".to_string(), 65534);
    s.set_global("last", Object::Integer(1)).expect("set");
    assert_eq!(s.globals_table().get("last"), Some(&65535));
    assert_eq!(
        s.set_global("one_more", Object::Null).expect_err("full"),
        "too many global variables"
    );
    assert_eq!(s.globals_table().len(), 2);
    s.set_global("low", Object::Integer(2)).expect("set");
    assert!(matches!(s.get_global("last"), Ok(Object::Integer(1))));
    assert!(matches!(s.get_global("low"), Ok(Object::Integer(2))));
}

#[test]
fn functions_are_found_by_name() {
    let mut s = script("f=1 g=2");
    assert_eq!(s.find_function("h").expect_err("h"), "undefined function: h");
    assert_eq!(s.find_function("g").expect_err("g"), "g is not a function");
    s.set_global("g", text("t")).expect("set");
    assert_eq!(s.find_function("g").expect_err("g"), "g is not a function");
    let f = function(vec![Object::Integer(1)], vec![]);
    s.set_global("f", Object::CompiledFunction(Box::new(f))).expect("set");
    assert_eq!(s.find_function("f").expect("f").constants.len(), 1);
}

#[test]
fn arguments_go_on_the_stack() {
    let mut s = script("");
    let start = s.push_arguments(&vec![Object::Integer(1), text("two")]);
    assert_eq!(start, 0);
    assert_eq!(s.machine.sp, 2);
    assert_eq!(s.machine.stack[0], Value::Int(1));
    assert!(matches!(val_to_obj(s.machine.stack[1], s.heap()), Object::String(t) if t == "two"));
    let result = s.machine.stack[1];
    let obj = s.finish_call(start, result);
    assert!(matches!(obj, Object::String(t) if t == "two"));
    assert_eq!(s.machine.sp, 0);
    assert_eq!(s.gc_threshold, GC_INITIAL_THRESHOLD);
}

#[test]
fn collection_keeps_what_is_referred_to() {
    let mut s = script("root=1 f=2");
    let heap = s.heap_mut();
    let leaf = obj_into_val(text("leaf"), heap);
    let garbage = obj_into_val(text("garbage"), heap);
    let list = obj_into_val(make_array(vec![leaf]), heap);
    let captured = obj_into_val(text("captured"), heap);
    let constant = obj_into_val(text("constant"), heap);
    let tail = obj_into_val(text("tail"), heap);
    assert_eq!((garbage, tail), (Value::Heap(1), Value::Heap(5)));
    s.set_global("root", make_array(vec![list])).expect("set");
    let nested = make_array(vec![constant]);
    s.set_global(
        "f",
        Object::CompiledFunction(Box::new(function(vec![nested], vec![captured]))),
    )
    .expect("set");
    s.gc_collect();
    let heap = s.heap();
    assert_eq!(heap.objects.len(), 8);
    for (v, want) in [(leaf, "leaf"), (captured, "captured"), (constant, "constant")] {
        assert!(matches!(val_to_obj(v, heap), Object::String(t) if t == want));
    }
    assert!(matches!(heap.objects[1], Object::Null));
    assert!(matches!(heap.objects[5], Object::Null));
    assert_eq!(heap.free, vec![1, 5]);
    s.set_global("root", Object::Null).expect("set");
    s.set_global("f", Object::Null).expect("set");
    s.gc_collect();
    assert_eq!(s.heap().objects.len(), 0);
    assert_eq!(s.heap().allocated_count(), 0);
}

#[test]
fn circular_objects_are_collected() {
    let mut s = script("a=1");
    let heap = s.heap_mut();
    // two arrays that refer to each other
    let a = obj_into_val(make_array(vec![Value::Heap(1)]), heap);
    obj_into_val(make_array(vec![a]), heap);
    s.set_global("a", make_array(vec![a])).expect("set");
    s.gc_collect();
    assert_eq!(s.heap().objects.len(), 3);
    s.set_global("a", Object::Null).expect("set");
    s.gc_collect();
    assert_eq!(s.heap().objects.len(), 0);
}

#[test]
fn a_nested_cell_keeps_its_place_on_the_heap() {
    let mut s = script("f=1");
    let array = make_array(vec![Value::Int(1)]);
    let shared = array.dup();
    let place = obj_into_val(array, s.heap_mut());
    s.set_global(
        "f",
        Object::CompiledFunction(Box::new(function(vec![shared], vec![]))),
    )
    .expect("set");
    s.gc_collect();
    assert!(matches!(val_to_obj(place, s.heap()), Object::Array(_)));
}

#[test]
fn a_collection_forgets_the_values_of_constants() {
    let mut s = script("x=1");
    s.machine.constants_values_cache.push(vec![Value::Int(1)]);
    // Nothing on the heap, nothing to do.
    s.gc_collect();
    assert_eq!(s.machine.constants_values_cache.len(), 1);
    s.set_global("x", text("kept")).expect("set");
    s.gc_collect();
    assert!(s.machine.constants_values_cache.is_empty());
    assert!(matches!(s.get_global("x"), Ok(Object::String(t)) if t == "kept"));
}

#[test]
fn many_objects_set_off_a_collection() {
    let mut s = script("");
    for i in 0..GC_INITIAL_THRESHOLD + 1 {
        obj_into_val(text(&i.to_string()), s.heap_mut());
    }
    s.finish_call(0, Value::Null);
    assert_eq!(s.heap().objects.len(), 0);
    assert_eq!(s.gc_threshold, GC_INITIAL_THRESHOLD);
    let mut kept = vec![];
    for i in 0..GC_INITIAL_THRESHOLD + 1 {
        kept.push(obj_into_val(text(&i.to_string()), s.heap_mut()));
    }
    s.set_global("kept", make_array(kept)).expect("set");
    s.finish_call(0, Value::Null);
    assert_eq!(s.gc_threshold, 2 * (GC_INITIAL_THRESHOLD + 2));
}

#[test]
fn host_calls_are_drained_and_resolved() {
    let mut s = script("");
    s.machine.pending_host_calls.push(PendingHostCall {
        id: 3,
        kind: "net.fetch".to_string(),
        args: vec![],
    });
    s.machine.host_callback_ids.push(3);
    s.machine.host_callbacks.push(Value::Int(33));
    assert_eq!(s.drain_pending_host_calls().len(), 1);
    assert_eq!(s.drain_pending_host_calls().len(), 0);
    assert_eq!(s.take_host_callback(3), Ok(Value::Int(33)));
    assert_eq!(
        s.take_host_callback(3),
        Err("no pending callback for host call id 3".to_string())
    );
}

#[test]
fn limits_are_enforced_when_there_are_any() {
    let mut s = script("");
    s.set_execution_limits(None, None);
    assert!(!s.machine.enforce_limits);
    s.set_execution_limits(Some(10), None);
    assert!(s.machine.enforce_limits);
    assert_eq!(s.machine.config.max_instructions, Some(10));
    assert_eq!(s.machine.config.max_wall_time_ms, None);
}

#[test]
fn evaluation_in_context_gives_the_machine_back() {
    let mut s = script("x=1");
    let program = Program {
        statements: vec![Statement::Expression(Expression::Identifier("x".to_string()))],
    };
    let b = s.compile_in_context(&program, &vec![]).expect("compile");
    let before = s.machine.instructions.clone();
    let saved = s.begin_eval(
        Rc::new(b.instructions),
        Rc::new(b.constants),
        b.num_cache_slots,
        b.register_count,
        b.max_stack_depth,
    );
    assert!(!Rc::ptr_eq(&before, &s.machine.instructions));
    s.machine.ip = 12;
    s.machine.last_popped = Some(Value::Int(1));
    assert_eq!(s.end_eval(saved), Value::Int(1));
    assert!(Rc::ptr_eq(&before, &s.machine.instructions));
    assert_eq!(s.machine.ip, 0);
    let errors = vec!["a".to_string(), "b".to_string()];
    assert_eq!(
        s.compile_in_context(&program, &errors).expect_err("errors"),
        "Parser errors: a, b"
    );
}

fn run(mut m: Machine, realm: Realm) -> Ended<()> {
    // Leaves the first constant, or fails where there is none.
    let first = match m.constants.first() {
        Some(obj) => obj.dup(),
        None => return Ended { machine: m, realm, outcome: Err("NoConstant".to_string()) },
    };
    let v = obj_into_val(first, &mut m.heap);
    m.last_popped = Some(v);
    Ended { machine: m, realm, outcome: Ok(()) }
}

fn invoke(mut m: Machine, realm: Realm, callee: Callee, start: usize) -> Ended<Value> {
    // Returns an array of the arguments, or the callee where it is a plain value.
    let args: Vec<Value> = m.stack[start..m.sp].to_vec();
    let outcome = match callee {
        Callee::Value(Value::Null) => Err("NotCallable".to_string()),
        Callee::Value(_) | Callee::Function(_) => Ok(obj_into_val(make_array(args), &mut m.heap)),
    };
    m.quota.instructions += 10;
    Ended { machine: m, realm, outcome }
}

fn items(obj: &Object) -> Vec<Value> {
    match obj {
        Object::Array(a) => a.value.clone(),
        _ => panic!("not an array"),
    }
}

#[test]
fn eval_returns_the_last_value() {
    let mut engine = FormLogicEngine::default();
    assert!(matches!(engine.eval("7 8", &parse, &run), Ok(Object::Integer(7))));
    assert_eq!(engine.eval("", &parse, &run).err(), Some("VM error: NoConstant".to_string()));
    assert_eq!(
        engine.eval("x y", &parse, &run).err(),
        Some("Parser errors: unexpected x, unexpected y".to_string())
    );
    let json = engine.eval_to_json("7 8", &parse, &run, &float);
    assert_eq!(json, Ok(Some("7".to_string())));
    let traced = |m: Machine, realm: Realm| {
        let end = run(m, realm);
        Ended {
            machine: end.machine,
            realm: end.realm,
            outcome: end.outcome.map(|_| vec![(1, 2, 3, 4, 5, 6, 7, 8)]),
        }
    };
    let result = engine.eval_with_trace("9", &parse, &traced, &float);
    assert_eq!(result, Ok((Some("9".to_string()), vec![(1, 2, 3, 4, 5, 6, 7, 8)])));
    let result = engine.eval_with_trace("", &parse, &traced, &float);
    assert_eq!(result.err(), Some("VM error: NoConstant".to_string()));
}

#[test]
fn scripts_are_initialized() {
    let engine = FormLogicEngine::new();
    let s = engine.init_script("x=5", &parse, &run).expect("script");
    assert_eq!(s.vm().last_popped, Some(Value::Int(5)));
    assert!(engine.init_script("", &parse, &run).is_err());
    assert!(engine.init_script("?", &parse, &run).is_err());
}

#[test]
fn calls_put_arguments_on_the_stack() {
    let mut s = script("x=1");
    let f = Object::CompiledFunction(Box::new(function(vec![], vec![])));
    s.set_global("f", f).unwrap();
    s.vm_mut().quota.instructions = 99;
    assert!(s.has_room(2));
    let args = vec![Object::Integer(3), Object::Boolean(true)];
    let r = s.call_function("f", &args, &invoke).expect("call");
    assert_eq!(items(&r), vec![Value::Int(3), Value::Bool(true)]);
    assert_eq!(s.vm().sp, 0);
    assert_eq!(s.vm().quota.instructions, 10);
    assert_eq!(
        s.call_function("g", &args, &invoke).err(),
        Some("undefined function: g".to_string())
    );
    s.set_global("n", Object::Integer(1)).unwrap();
    assert_eq!(
        s.call_function("n", &args, &invoke).err(),
        Some("n is not a function".to_string())
    );
    let r = s.call_value(Value::Int(0), &args, &invoke).expect("call");
    assert_eq!(items(&r).len(), 2);
    assert_eq!(
        s.call_value(Value::Null, &args, &invoke).err(),
        Some("VM error: NotCallable".to_string())
    );
    // A call that fails leaves its arguments on the stack.
    assert_eq!(s.vm().sp, 2);
    let func = function(vec![], vec![]);
    let r = s.call_compiled_function(&func, &vec![], &invoke).expect("call");
    assert_eq!(items(&r), vec![]);
}

#[test]
fn expressions_see_the_script() {
    let mut s = script("x=5");
    let before = s.vm().instructions.clone();
    let r = s.eval_in_context("6", &parse, &run);
    assert!(matches!(r, Ok(Object::Integer(6))));
    assert_eq!(s.vm().instructions, before);
    assert_eq!(s.vm().last_popped, None);
    assert_eq!(
        s.eval_in_context("", &parse, &run).err(),
        Some("VM error: NoConstant".to_string())
    );
    assert_eq!(
        s.eval_in_context("?", &parse, &run).err(),
        Some("Parser errors: unexpected ?".to_string())
    );
}

#[test]
fn host_calls_are_resolved() {
    let mut s = script("x=5");
    s.vm_mut().host_callback_ids = vec![4, 9];
    s.vm_mut().host_callbacks = vec![Value::Int(1), Value::Null];
    assert!(s.has_callbacks_in_order());
    let r = s.resolve_host_callback(4, Object::Integer(7), &invoke).expect("call");
    assert_eq!(items(&r), vec![Value::Int(7)]);
    assert_eq!(s.vm().host_callback_ids, vec![9]);
    assert_eq!(
        s.resolve_host_callback(9, Object::Integer(7), &invoke).err(),
        Some("VM error: NotCallable".to_string())
    );
    assert_eq!(
        s.resolve_host_callback(9, Object::Integer(7), &invoke).err(),
        Some("no pending callback for host call id 9".to_string())
    );
    s.vm_mut().host_callback_ids = vec![4, 4];
    s.vm_mut().host_callbacks = vec![Value::Int(1), Value::Null];
    assert!(!s.has_callbacks_in_order());
    s.vm_mut().host_callbacks = vec![];
    assert!(!s.has_callbacks_in_order());
}

#[test]
fn machines_out_of_order_are_found() {
    let mut s = script("x=5");
    let f = Object::CompiledFunction(Box::new(function(vec![], vec![])));
    s.set_global("f", f).unwrap();
    assert!(is_in_order(s.vm()));
    s.vm_mut().heap.free = vec![0];
    assert!(!is_in_order(s.vm()));
    s.vm_mut().heap.free = vec![7];
    assert!(!is_in_order(s.vm()));
    s.vm_mut().heap.free = vec![];
    s.vm_mut().sp = 1;
    assert!(!is_in_order(s.vm()));
    s.vm_mut().sp = 0;
    assert!(is_in_order(s.vm()));
    assert!(!is_there(Value::Heap(1), s.heap()));
    assert!(is_there(Value::Heap(0), s.heap()));
    s.vm_mut().last_popped = Some(Value::Heap(1));
    assert!(!leaves_value(s.vm()));
}

#[test]
fn the_first_position_of_a_cell_is_found() {
    let mut heap = Heap::new();
    let array = make_array(vec![Value::Int(1)]);
    assert_eq!(heap.cell_position(&array), None);
    heap.insert(text("a"));
    heap.insert(make_array(vec![Value::Int(1)]));
    heap.insert(array.dup());
    heap.insert(array.dup());
    assert_eq!(heap.cell_position(&array), Some(2));
    assert_eq!(heap.cell_position(&make_array(vec![Value::Int(1)])), None);
    assert_eq!(heap.cell_position(&text("a")), None);
    assert_eq!(first_same(&vec![false, true, true]), Some(1));
    assert_eq!(first_same(&vec![false]), None);
}
