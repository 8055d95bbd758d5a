use formlogic_core::ast::{
    ClassMember, ClassMethod, Expression, ForBinding, HashEntry, Program, Statement, SwitchCase,
    VariableKind,
};
use formlogic_core::bytecode::Bytecode;
use formlogic_core::code::{lookup, Opcode};
use formlogic_core::compiler::Compiler;
use formlogic_core::object::Object;

fn program(statements: Vec<Statement>) -> Program {
    Program { statements }
}

fn num(v: i64) -> Expression {
    Expression::Integer(v)
}

fn text(v: &str) -> Expression {
    Expression::String(v.to_string())
}

fn name(v: &str) -> Expression {
    Expression::Identifier(v.to_string())
}

fn boxed(e: Expression) -> Box<Expression> {
    Box::new(e)
}

fn infix(left: Expression, operator: &str, right: Expression) -> Expression {
    Expression::Infix { left: boxed(left), operator: operator.to_string(), right: boxed(right) }
}

fn assign(left: Expression, operator: &str, right: Expression) -> Expression {
    Expression::Assign { left: boxed(left), operator: operator.to_string(), right: boxed(right) }
}

fn prop(object: Expression, key: &str) -> Expression {
    Expression::Index { left: boxed(object), index: boxed(text(key)) }
}

fn let_(n: &str, value: Expression) -> Statement {
    Statement::Let { name: n.to_string(), value, kind: VariableKind::Let }
}

fn stmt(e: Expression) -> Statement {
    Statement::Expression(e)
}

fn ret(e: Expression) -> Statement {
    Statement::Return { value: e }
}

fn call(function: Expression, arguments: Vec<Expression>) -> Expression {
    Expression::Call { function: boxed(function), arguments }
}

fn hash(entries: Vec<(&str, Expression)>) -> Expression {
    let mut list = vec![];
    for (k, value) in entries {
        list.push(HashEntry::KeyValue { key: text(k), value });
    }
    Expression::Hash(list)
}

fn method(n: &str, parameters: &[&str], body: Vec<Statement>) -> ClassMethod {
    ClassMethod {
        name: n.to_string(),
        parameters: parameters.iter().map(|p| p.to_string()).collect(),
        body,
        is_static: false,
        is_getter: false,
        is_setter: false,
    }
}

fn class(n: &str, extends: Option<&str>, methods: Vec<ClassMethod>) -> Statement {
    Statement::ClassDecl {
        name: Some(n.to_string()),
        extends: extends.map(|e| boxed(name(e))),
        members: methods.into_iter().map(ClassMember::Method).collect(),
    }
}

fn compile(statements: Vec<Statement>) -> Bytecode {
    Compiler::new().compile_program(&program(statements)).expect("compile")
}

fn error(statements: Vec<Statement>) -> String {
    Compiler::new().compile_program(&program(statements)).expect_err("rejected")
}

fn has(bytecode: &Bytecode, op: Opcode) -> bool {
    bytecode.instructions.iter().any(|b| *b == op as u8)
}

// let x = 5; x + 2;
#[test]
fn compiles_simple_let_and_expr() {
    let bytecode = compile(vec![let_("x", num(5)), stmt(infix(name("x"), "+", num(2)))]);
    assert!(!bytecode.instructions.is_empty());
    assert_eq!(bytecode.constants.len(), 2);
}

// if (1 < 2) { 10 } else { 20 }
#[test]
fn compiles_if_expression() {
    let bytecode = compile(vec![stmt(Expression::If {
        condition: boxed(infix(num(1), "<", num(2))),
        consequence: vec![stmt(num(10))],
        alternative: Some(vec![stmt(num(20))]),
    })]);
    assert!(!bytecode.instructions.is_empty());
    assert!(has(&bytecode, Opcode::OpJump));
    assert!(has(&bytecode, Opcode::OpJumpNotTruthy));
}

// let i = 0; while (i < 3) { i = i + 1; }
#[test]
fn compiles_while_expression() {
    let bytecode = compile(vec![
        let_("i", num(0)),
        Statement::While {
            condition: infix(name("i"), "<", num(3)),
            body: vec![stmt(assign(name("i"), "=", infix(name("i"), "+", num(1))))],
        },
    ]);
    assert!(!bytecode.instructions.is_empty());
    // The backward jump may be fused into OpIncrementGlobalAndJump when
    // the last body statement is a fused global increment.
    let has_backward_jump =
        has(&bytecode, Opcode::OpJump) || has(&bytecode, Opcode::OpIncrementGlobalAndJump);
    assert!(has_backward_jump, "expected OpJump or OpIncrementGlobalAndJump");
    // Condition may be fused into OpTestGlobalLtConstJump or OpTestLocalLtConstJump
    // instead of OpJumpNotTruthy.
    let has_jump_not_truthy = has(&bytecode, Opcode::OpJumpNotTruthy);
    let has_fused_cond = has(&bytecode, Opcode::OpTestLocalLtConstJump)
        || has(&bytecode, Opcode::OpTestGlobalLtConstJump)
        || has(&bytecode, Opcode::OpTestLocalLeConstJump)
        || has(&bytecode, Opcode::OpTestGlobalLeConstJump);
    assert!(
        has_jump_not_truthy || has_fused_cond,
        "expected OpJumpNotTruthy or a fused test+jump opcode"
    );
}

// let x = 0; for (let i = 0; i < 3; i = i + 1) { x = x + i; }
#[test]
fn compiles_for_expression() {
    let bytecode = compile(vec![
        let_("x", num(0)),
        Statement::For {
            init: Some(Box::new(let_("i", num(0)))),
            condition: Some(infix(name("i"), "<", num(3))),
            update: Some(assign(name("i"), "=", infix(name("i"), "+", num(1)))),
            body: vec![stmt(assign(name("x"), "=", infix(name("x"), "+", name("i"))))],
        },
    ]);
    assert!(!bytecode.instructions.is_empty());
    // The backward jump may be fused into OpIncrementGlobalAndJump when
    // the update is a fused global increment.
    let has_backward_jump =
        has(&bytecode, Opcode::OpJump) || has(&bytecode, Opcode::OpIncrementGlobalAndJump);
    assert!(has_backward_jump, "expected OpJump or OpIncrementGlobalAndJump");
    // Condition may be fused into OpTestGlobalLtConstJump or OpTestLocalLtConstJump
    // instead of OpJumpNotTruthy.
    let has_jump_not_truthy = has(&bytecode, Opcode::OpJumpNotTruthy);
    let has_fused_cond = has(&bytecode, Opcode::OpTestLocalLtConstJump)
        || has(&bytecode, Opcode::OpTestGlobalLtConstJump)
        || has(&bytecode, Opcode::OpTestLocalLeConstJump)
        || has(&bytecode, Opcode::OpTestGlobalLeConstJump);
    assert!(
        has_jump_not_truthy || has_fused_cond,
        "expected OpJumpNotTruthy or a fused test+jump opcode"
    );
}

// function add(a, b) { return a + b; } add(1, 2);
#[test]
fn compiles_function_declaration() {
    let bytecode = compile(vec![
        Statement::FunctionDecl {
            name: "add".to_string(),
            parameters: vec!["a".to_string(), "b".to_string()],
            body: vec![ret(infix(name("a"), "+", name("b")))],
            is_async: false,
            is_generator: false,
        },
        stmt(call(name("add"), vec![num(1), num(2)])),
    ]);
    assert!(!bytecode.instructions.is_empty());
    assert!(bytecode.constants.iter().any(|c| matches!(c, Object::CompiledFunction(_))));
}

// let sum = 0; for (let x of [1,2,3]) { sum = sum + x; }
#[test]
fn compiles_for_of_statement() {
    let bytecode = compile(vec![
        let_("sum", num(0)),
        Statement::ForOf {
            binding: ForBinding::Identifier("x".to_string()),
            iterable: Expression::Array(vec![num(1), num(2), num(3)]),
            body: vec![stmt(assign(name("sum"), "=", infix(name("sum"), "+", name("x"))))],
        },
    ]);
    assert!(!bytecode.instructions.is_empty());
    assert!(has(&bytecode, Opcode::OpArray));
    assert!(has(&bytecode, Opcode::OpJump));
}

// let out = ""; for (let k in {"a":1,"b":2}) { out = out + k; }
#[test]
fn compiles_for_in_statement() {
    let bytecode = compile(vec![
        let_("out", text("")),
        Statement::ForIn {
            var_name: "k".to_string(),
            iterable: hash(vec![("a", num(1)), ("b", num(2))]),
            body: vec![stmt(assign(name("out"), "=", infix(name("out"), "+", name("k"))))],
        },
    ]);
    assert!(!bytecode.instructions.is_empty());
    assert!(has(&bytecode, Opcode::OpGetKeysIterator));
}

// class Point { constructor(x, y) { this.x = x; this.y = y; } sum() { return this.x + this.y; } }
#[test]
fn compiles_class_declaration() {
    let this_x = prop(Expression::This, "x");
    let this_y = prop(Expression::This, "y");
    let bytecode = compile(vec![class(
        "Point",
        None,
        vec![
            method(
                "constructor",
                &["x", "y"],
                vec![
                    stmt(assign(prop(Expression::This, "x"), "=", name("x"))),
                    stmt(assign(prop(Expression::This, "y"), "=", name("y"))),
                ],
            ),
            method("sum", &[], vec![ret(infix(this_x, "+", this_y))]),
        ],
    )]);
    assert!(bytecode.constants.iter().any(|c| matches!(c, Object::Class(_))));
}

// let x = 0; try { throw 1; } catch (e) { x = e; } finally { x = x + 1; }
#[test]
fn compiles_try_catch_finally_statement() {
    let bytecode = compile(vec![
        let_("x", num(0)),
        Statement::Try {
            try_block: vec![Statement::Throw { value: num(1) }],
            catch_param: Some("e".to_string()),
            catch_block: Some(vec![stmt(assign(name("x"), "=", name("e")))]),
            finally_block: Some(vec![stmt(assign(
                name("x"),
                "=",
                infix(name("x"), "+", num(1)),
            ))]),
        },
    ]);
    assert!(!bytecode.instructions.is_empty());
    assert!(has(&bytecode, Opcode::OpJump));
}

// Where the instructions of code start.
fn instruction_starts(code: &[u8]) -> Vec<usize> {
    let mut starts = vec![];
    let mut p = 0;
    while p < code.len() {
        starts.push(p);
        let op = Opcode::from_byte(code[p]).expect("opcode");
        p += 1 + lookup(op).operand_widths.iter().sum::<usize>();
    }
    starts
}

// try { throw 1; } catch (e) { throw 2; } finally { 3; }
#[test]
fn a_throw_in_a_catch_block_follows_the_finally_block() {
    let thrown = |catch_block: Option<Vec<Statement>>, finally_block: Option<Vec<Statement>>| {
        let bytecode = compile(vec![Statement::Try {
            try_block: vec![Statement::Throw { value: num(1) }],
            catch_param: None,
            catch_block,
            finally_block,
        }]);
        let code = bytecode.instructions;
        let starts = instruction_starts(&code);
        let throws: Vec<usize> =
            (0..starts.len()).filter(|i| code[starts[*i]] == Opcode::OpThrow as u8).collect();
        (code, starts, throws)
    };
    let again = || Some(vec![Statement::Throw { value: num(2) }]);
    for catch_block in [None, again(), Some(vec![])] {
        let (code, starts, throws) = thrown(catch_block, Some(vec![stmt(num(3))]));
        // One throw, jumped over where nothing was thrown.
        assert_eq!(throws.len(), 1);
        let t = throws[0];
        let test = starts[t - 2];
        assert_eq!(code[test], Opcode::OpJumpNotTruthy as u8);
        let target = code[test + 1] as usize * 256 + code[test + 2] as usize;
        assert_eq!(target, starts[t + 1]);
    }
    // With no block to wait for, it is thrown where it stands.
    assert_eq!(thrown(again(), None).2.len(), 1);
    assert_eq!(thrown(Some(vec![]), None).2.len(), 0);
}

// "a" in {"a":1}; class P { constructor() {} } let p = new P(); p instanceof P;
#[test]
fn compiles_in_and_instanceof_expression() {
    let bytecode = compile(vec![
        stmt(infix(text("a"), "in", hash(vec![("a", num(1))]))),
        class("P", None, vec![method("constructor", &[], vec![])]),
        let_("p", Expression::New { callee: boxed(name("P")), arguments: vec![] }),
        stmt(infix(name("p"), "instanceof", name("P"))),
    ]);
    assert!(has(&bytecode, Opcode::OpIn));
    assert!(has(&bytecode, Opcode::OpInstanceof));
}

// class C { static s() { return 1; } get x() { return this._x; } set x(v) { this._x = v; } m() { return this._x; } }
#[test]
fn compiles_class_method_kinds() {
    let mut s = method("s", &[], vec![ret(num(1))]);
    s.is_static = true;
    let mut getter = method("x", &[], vec![ret(prop(Expression::This, "_x"))]);
    getter.is_getter = true;
    let mut setter = method(
        "x",
        &["v"],
        vec![stmt(assign(prop(Expression::This, "_x"), "=", name("v")))],
    );
    setter.is_setter = true;
    let m = method("m", &[], vec![ret(prop(Expression::This, "_x"))]);
    let bytecode = compile(vec![class("C", None, vec![s, getter, setter, m])]);

    let class_obj = bytecode
        .constants
        .iter()
        .find_map(|c| if let Object::Class(cls) = c { Some(cls) } else { None })
        .expect("class constant");

    assert!(class_obj.static_methods.contains_key("s"));
    assert!(class_obj.getters.contains_key("x"));
    assert!(class_obj.setters.contains_key("x"));
    assert!(class_obj.methods.contains_key("m"));
}

// class A { value() { return 1; } } class B extends A { value() { return super.value() + 1; } }
#[test]
fn compiles_class_extends_super_links() {
    let bytecode = compile(vec![
        class("A", None, vec![method("value", &[], vec![ret(num(1))])]),
        class(
            "B",
            Some("A"),
            vec![method(
                "value",
                &[],
                vec![ret(infix(call(prop(Expression::Super, "value"), vec![]), "+", num(1)))],
            )],
        ),
    ]);

    let mut classes = bytecode
        .constants
        .iter()
        .filter_map(|c| if let Object::Class(cls) = c { Some(cls) } else { None });

    let a = classes.next().expect("class A");
    let b = classes.next().expect("class B");
    assert!(a.methods.contains_key("value"));
    assert!(b.methods.contains_key("value"));
    assert!(b.super_methods.contains_key("value"));
}

// await 1; async function id(x) { return await x; } id(2);
#[test]
fn compiles_await_expression() {
    let bytecode = compile(vec![
        stmt(Expression::Await { value: boxed(num(1)) }),
        Statement::FunctionDecl {
            name: "id".to_string(),
            parameters: vec!["x".to_string()],
            body: vec![ret(Expression::Await { value: boxed(name("x")) })],
            is_async: true,
            is_generator: false,
        },
        stmt(call(name("id"), vec![num(2)])),
    ]);
    assert!(has(&bytecode, Opcode::OpAwait));
}

// let obj = {"a":1}; typeof 1; delete obj.a;
#[test]
fn compiles_typeof_and_delete_expression() {
    let bytecode = compile(vec![
        let_("obj", hash(vec![("a", num(1))])),
        stmt(Expression::Typeof { value: boxed(num(1)) }),
        stmt(Expression::Delete { value: boxed(prop(name("obj"), "a")) }),
    ]);
    assert!(has(&bytecode, Opcode::OpTypeof));
    assert!(has(&bytecode, Opcode::OpDeleteProperty));
}

// void 1; 5 & 3; 8 >>> 1; 1 === 1;
#[test]
fn compiles_void_and_bitwise_expression() {
    let bytecode = compile(vec![
        stmt(Expression::Void { value: boxed(num(1)) }),
        stmt(infix(num(5), "&", num(3))),
        stmt(infix(num(8), ">>>", num(1))),
        stmt(infix(num(1), "===", num(1))),
    ]);
    assert!(has(&bytecode, Opcode::OpUndefined));
    assert!(has(&bytecode, Opcode::OpBitwiseAnd));
    assert!(has(&bytecode, Opcode::OpUnsignedRightShift));
    assert!(has(&bytecode, Opcode::OpStrictEqual));
}

// let a = 1; let b = 2; a && b; a || b; a ?? b;
#[test]
fn compiles_logical_and_nullish_expression() {
    let bytecode = compile(vec![
        let_("a", num(1)),
        let_("b", num(2)),
        stmt(infix(name("a"), "&&", name("b"))),
        stmt(infix(name("a"), "||", name("b"))),
        stmt(infix(name("a"), "??", name("b"))),
    ]);
    assert!(has(&bytecode, Opcode::OpIsNullish));
    assert!(has(&bytecode, Opcode::OpJumpNotTruthy));
}

// let obj = null; obj?.name; let f = null; f?.(1); let x = 0; x &&= 1; x ||= 2; x ??= 3;
#[test]
fn compiles_optional_chain_and_logical_assign_expression() {
    let bytecode = compile(vec![
        let_("obj", Expression::Null),
        stmt(Expression::OptionalIndex {
            left: boxed(name("obj")),
            index: boxed(text("name")),
        }),
        let_("f", Expression::Null),
        stmt(Expression::OptionalCall { function: boxed(name("f")), arguments: vec![num(1)] }),
        let_("x", num(0)),
        stmt(assign(name("x"), "&&=", num(1))),
        stmt(assign(name("x"), "||=", num(2))),
        stmt(assign(name("x"), "??=", num(3))),
    ]);
    assert!(has(&bytecode, Opcode::OpIsNullish));
    assert!(has(&bytecode, Opcode::OpCall));
    assert!(has(&bytecode, Opcode::OpJump));
}

#[test]
fn simple_program_has_exactly_this_code() {
    let bytecode = compile(vec![let_("x", num(5)), stmt(infix(name("x"), "+", num(2)))]);
    assert_eq!(
        bytecode.instructions,
        vec![
            Opcode::OpConstant as u8, 0, 0,
            Opcode::OpSetGlobal as u8, 0, 0,
            Opcode::OpGetGlobal as u8, 0, 0,
            Opcode::OpConstant as u8, 0, 1,
            Opcode::OpAdd as u8,
            Opcode::OpPop as u8,
            Opcode::OpHalt as u8,
        ]
    );
    assert_eq!(bytecode.max_stack_depth, 2);
}

#[test]
fn equal_constants_are_shared() {
    let bytecode = compile(vec![
        stmt(infix(num(7), "+", num(7))),
        stmt(infix(text("a"), "+", text("a"))),
        stmt(infix(
            Expression::Float(1.5f64.to_bits()),
            "+",
            Expression::Float(1.5f64.to_bits()),
        )),
    ]);
    assert_eq!(bytecode.constants.len(), 3);
}

#[test]
fn wrong_programs_are_rejected() {
    assert_eq!(error(vec![stmt(name("nope"))]), "undefined identifier nope");
    assert_eq!(
        error(vec![
            Statement::Let {
                name: "c".to_string(),
                value: num(1),
                kind: VariableKind::Const,
            },
            stmt(assign(name("c"), "=", num(2))),
        ]),
        "Assignment to constant variable 'c'"
    );
    assert_eq!(error(vec![Statement::Break { label: None }]), "loop control outside loop");
    assert_eq!(
        error(vec![Statement::Continue { label: Some("l".to_string()) }]),
        "unknown loop label 'l'"
    );
    assert_eq!(error(vec![stmt(infix(num(1), "@", num(2)))]), "unsupported infix operator @");
    assert_eq!(
        error(vec![stmt(Expression::Prefix {
            operator: "@".to_string(),
            right: boxed(num(1)),
        })]),
        "unsupported prefix operator @"
    );
    assert_eq!(
        error(vec![stmt(Expression::Spread { value: boxed(num(1)) })]),
        "spread expression is only valid in array literals"
    );
    assert_eq!(
        error(vec![stmt(assign(num(1), "=", num(2)))]),
        "invalid assignment target"
    );
    assert_eq!(
        error(vec![Statement::Labeled {
            label: "l".to_string(),
            statement: Box::new(Statement::Debugger),
        }]),
        "only loop statements can be labeled"
    );
    let rest_first = |list: Vec<&str>| {
        stmt(Expression::Function {
            parameters: list.iter().map(|p| p.to_string()).collect(),
            body: vec![],
            is_async: false,
            is_generator: false,
            is_arrow: false,
        })
    };
    assert_eq!(error(vec![rest_first(vec!["..."])]), "invalid rest parameter name");
    assert_eq!(error(vec![rest_first(vec!["...a", "b"])]), "rest parameter must be last");
}

#[test]
fn the_first_error_counts() {
    assert_eq!(
        error(vec![stmt(name("first")), stmt(name("second"))]),
        "undefined identifier first"
    );
}

#[test]
fn builtins_are_objects_with_members() {
    let mut realm = formlogic_core::realm::Realm::new();
    let math = Compiler::builtin_global_object_static(&mut realm, "Math").expect("Math");
    if let Object::Hash(h) = &math {
        let pi = h.borrow().get_by_str(&mut realm.symbols, "PI").expect("PI");
        assert_eq!(
            pi,
            formlogic_core::value::Value::Float(std::f64::consts::PI.to_bits())
        );
        let e = h.borrow().get_by_str(&mut realm.symbols, "E").expect("E");
        assert_eq!(e, formlogic_core::value::Value::Float(std::f64::consts::E.to_bits()));
        assert!(h.borrow().contains_str(&mut realm.symbols, "floor"));
        assert!(!h.borrow().contains_str(&mut realm.symbols, "nothing"));
    } else {
        panic!("not a hash");
    }
    assert!(Compiler::builtin_global_object_static(&mut realm, "nothing").is_none());
    let nan = Compiler::builtin_global_object_static(&mut realm, "NaN").expect("NaN");
    assert!(matches!(nan, Object::Float(bits) if f64::from_bits(bits).is_nan()));
    let infinity = Compiler::builtin_global_object_static(&mut realm, "Infinity").expect("Infinity");
    assert!(matches!(infinity, Object::Float(bits) if f64::from_bits(bits) == f64::INFINITY));
}

fn check_whole(code: &[u8], constants: &[Object]) {
    let mut p = 0;
    while p < code.len() {
        let op = Opcode::from_byte(code[p]).expect("opcode");
        p += 1 + lookup(op).operand_widths.iter().sum::<usize>();
    }
    assert_eq!(p, code.len());
    for c in constants {
        if let Object::CompiledFunction(f) = c {
            check_whole(&f.instructions, &f.constants);
        }
    }
}

#[test]
fn stack_code_consists_of_whole_instructions() {
    let body = vec![
        stmt(assign(name("x"), "||=", num(3))),
        stmt(assign(prop(name("o"), "p"), "=", name("x"))),
        stmt(assign(name("x"), "=", num(1))),
        ret(name("x")),
    ];
    let b = compile(vec![
        let_("x", num(0)),
        let_("o", hash(vec![("p", num(1))])),
        Statement::While {
            condition: infix(name("x"), "<", num(3)),
            body: vec![stmt(assign(name("x"), "+=", num(1)))],
        },
        Statement::FunctionDecl {
            name: "f".to_string(),
            parameters: vec!["o".to_string()],
            body,
            is_async: false,
            is_generator: false,
        },
        stmt(assign(prop(name("o"), "p"), "=", num(2))),
        stmt(assign(name("x"), "&&=", num(4))),
        stmt(infix(name("x"), "??", num(5))),
    ]);
    check_whole(&b.instructions, &b.constants);
    assert_eq!(b.instructions.last(), Some(&(Opcode::OpHalt as u8)));
}

fn const_(n: &str, value: Expression) -> Statement {
    Statement::Let { name: n.to_string(), value, kind: VariableKind::Const }
}

fn key_value(key: &str, value: Expression) -> HashEntry {
    HashEntry::KeyValue { key: Expression::String(key.to_string()), value }
}

// The ways in which an assignment can reach a constant `c`.
fn constant_targets() -> Vec<Expression> {
    let spread = |e: Expression| Expression::Spread { value: boxed(e) };
    let default = || assign(name("c"), "=", num(1));
    vec![
        Expression::Array(vec![name("c")]),
        Expression::Array(vec![default()]),
        Expression::Array(vec![spread(name("c"))]),
        Expression::Array(vec![Expression::Array(vec![name("c")])]),
        Expression::Hash(vec![key_value("k", name("c"))]),
        Expression::Hash(vec![key_value("k", default())]),
        Expression::Hash(vec![HashEntry::Spread(name("c"))]),
        Expression::Hash(vec![key_value("k", Expression::Array(vec![name("c")]))]),
    ]
}

fn step(n: &str) -> Expression {
    Expression::Update { target: boxed(name(n)), operator: "++".to_string(), prefix: false }
}

#[test]
fn constants_are_not_assigned_to() {
    let message = "Assignment to constant variable 'c'";
    for target in constant_targets() {
        let program = vec![const_("c", num(1)), stmt(assign(target, "=", num(2)))];
        assert_eq!(error(program), message);
    }
    assert_eq!(error(vec![const_("c", num(1)), stmt(step("c"))]), message);
    let sum = assign(name("c"), "=", infix(name("c"), "+", num(1)));
    assert_eq!(error(vec![const_("c", num(1)), stmt(sum)]), message);
    let sum = assign(name("c"), "+=", name("d"));
    assert_eq!(error(vec![let_("d", num(2)), const_("c", num(1)), stmt(sum)]), message);
    let looped = Statement::For {
        init: Some(Box::new(const_("c", num(0)))),
        condition: Some(infix(name("c"), "<", num(9))),
        update: Some(step("c")),
        body: vec![],
    };
    assert_eq!(error(vec![looped]), message);
}

#[test]
fn elements_of_any_object_are_changed() {
    let inner = || prop(prop(name("o"), "a"), "b");
    let program = |e: Expression| {
        compile(vec![let_("o", hash(vec![("a", hash(vec![("b", num(1))]))])), stmt(e)])
    };
    let step = |prefix: bool| Expression::Update {
        target: boxed(inner()),
        operator: "++".to_string(),
        prefix,
    };
    let sum = program(assign(inner(), "+=", num(2)));
    assert!(has(&sum, Opcode::OpAdd) && has(&sum, Opcode::OpSetIndex));
    for prefix in [true, false] {
        let b = program(step(prefix));
        assert!(has(&b, Opcode::OpAdd) && has(&b, Opcode::OpSetIndex));
    }
    // The key is called for once.
    let key = || call(name("f"), vec![]);
    let element = Expression::Index { left: boxed(name("o")), index: boxed(key()) };
    let b = compile(vec![
        let_("o", num(1)),
        let_("f", num(2)),
        stmt(Expression::Update { target: boxed(element), operator: "--".to_string(), prefix: false }),
    ]);
    let calls = b.instructions.iter().filter(|x| **x == Opcode::OpCallGlobal as u8).count();
    assert_eq!(calls, 1);
    let switch = Statement::Switch {
        discriminant: num(1),
        cases: vec![SwitchCase { test: None, consequent: vec![Statement::Continue { label: None }] }],
    };
    assert_eq!(error(vec![switch]), "loop control outside loop");
}
