use formlogic_core::ast::{
    ArrayBindingItem, BindingPattern, BindingTarget, ClassMember, ClassMethod, Expression,
    ForBinding, HashEntry, ObjectBindingItem, Program, Statement, SwitchCase, VariableKind,
};
use formlogic_core::bytecode::Bytecode;
use formlogic_core::captures::scan_captured_names;
use formlogic_core::names::NameMap;
use formlogic_core::object::Object;
use formlogic_core::rcode::ROp;
use formlogic_core::rcompiler::RCompiler;
use formlogic_core::realm::Realm;

fn num(v: i64) -> Expression {
    Expression::Integer(v)
}

fn name(v: &str) -> Expression {
    Expression::Identifier(v.to_string())
}

fn boxed(e: Expression) -> Box<Expression> {
    Box::new(e)
}

fn infix(left: Expression, operator: &str, right: Expression) -> Expression {
    Expression::Infix { left: boxed(left), operator: operator.to_string(), right: boxed(right) }
}

fn assign(left: Expression, operator: &str, right: Expression) -> Expression {
    Expression::Assign { left: boxed(left), operator: operator.to_string(), right: boxed(right) }
}

fn prop(object: Expression, key: &str) -> Expression {
    Expression::Index {
        left: boxed(object),
        index: boxed(Expression::String(key.to_string())),
    }
}

fn let_(n: &str, value: Expression) -> Statement {
    Statement::Let { name: n.to_string(), value, kind: VariableKind::Let }
}

fn stmt(e: Expression) -> Statement {
    Statement::Expression(e)
}

fn arrow(parameters: &[&str], body: Vec<Statement>) -> Expression {
    Expression::Function {
        parameters: parameters.iter().map(|p| p.to_string()).collect(),
        body,
        is_async: false,
        is_generator: false,
        is_arrow: true,
    }
}

fn compile(statements: Vec<Statement>) -> Bytecode {
    RCompiler::new().compile_program(&Program { statements }).expect("compile")
}

fn persistent(statements: Vec<Statement>) -> Bytecode {
    RCompiler::new().compile_program_persistent(&Program { statements }).expect("compile")
}

fn error(statements: Vec<Statement>) -> String {
    RCompiler::new().compile_program(&Program { statements }).expect_err("rejected")
}

fn has(bytecode: &Bytecode, op: ROp) -> bool {
    bytecode.instructions.iter().any(|b| *b == op as u8)
}

#[test]
fn variables_are_registers() {
    let b = compile(vec![let_("x", num(5)), stmt(infix(name("x"), "+", num(2)))]);
    assert_eq!(
        b.instructions,
        vec![
            ROp::LoadConst as u8, 0, 0, 0, 0,
            // the sum goes to register 1, its operands to 2 and 3
            ROp::Move as u8, 0, 2, 0, 0,
            ROp::LoadConst as u8, 0, 3, 0, 1,
            ROp::Add as u8, 0, 1, 0, 2, 0, 3,
            ROp::HaltValue as u8, 0, 1,
        ]
    );
    assert_eq!(b.register_count, 4);
    assert_eq!(b.constants.len(), 2);
    assert_eq!(b.globals_table.len(), 0);
}

#[test]
fn loops_are_fused() {
    let b = compile(vec![
        let_("i", num(0)),
        Statement::While {
            condition: infix(name("i"), "<", num(3)),
            body: vec![stmt(assign(name("i"), "=", infix(name("i"), "+", num(1))))],
        },
    ]);
    assert_eq!(
        b.instructions,
        vec![
            ROp::LoadConst as u8, 0, 0, 0, 0,
            ROp::TestLtConstJump as u8, 0, 0, 0, 1, 0, 19,
            ROp::IncrementRegAndJump as u8, 0, 0, 0, 2, 0, 5,
            ROp::Halt as u8,
        ]
    );
}

#[test]
fn persistent_programs_keep_their_variables() {
    let b = persistent(vec![let_("x", num(5)), let_("y", num(6))]);
    assert_eq!(b.globals_table.len(), 2);
    assert_eq!(b.globals_table.get("x"), Some(&0));
    assert_eq!(b.globals_table.get("y"), Some(&1));
    assert_eq!(
        b.instructions,
        vec![
            ROp::LoadConst as u8, 0, 0, 0, 0,
            ROp::SetGlobal as u8, 0, 0, 0, 0,
            ROp::LoadConst as u8, 0, 1, 0, 1,
            ROp::SetGlobal as u8, 0, 1, 0, 1,
            ROp::Halt as u8,
        ]
    );
}

#[test]
fn only_captured_variables_get_global_slots() {
    let b = compile(vec![
        let_("seen", num(1)),
        let_("unseen", num(2)),
        stmt(arrow(&[], vec![Statement::Return { value: name("seen") }])),
    ]);
    assert!(b.globals_table.contains_key("seen"));
    assert!(!b.globals_table.contains_key("unseen"));
}

#[test]
fn captured_names_are_those_of_nested_functions() {
    let captured = scan_captured_names(&vec![
        stmt(name("outer")),
        stmt(arrow(&[], vec![stmt(name("inner")), stmt(Expression::This)])),
    ]);
    assert!(!captured.contains("outer"));
    assert!(captured.contains("inner"));
    assert!(captured.contains("this"));
}

#[test]
fn a_shadowed_parameter_is_taken_along_by_closures() {
    // (i => () => i)
    let b = compile(vec![
        let_("i", num(0)),
        stmt(arrow(
            &["i"],
            vec![Statement::Return {
                value: arrow(&[], vec![Statement::Return { value: name("i") }]),
            }],
        )),
    ]);
    let outer = b
        .constants
        .iter()
        .find_map(|c| if let Object::CompiledFunction(f) = c { Some(f) } else { None })
        .expect("function");
    assert!(outer.instructions.iter().any(|x| *x == ROp::MakeClosure as u8));
    let inner = outer
        .constants
        .iter()
        .find_map(|c| if let Object::CompiledFunction(f) = c { Some(f) } else { None })
        .expect("inner function");
    assert_eq!(inner.closure_captures.len(), 1);
    assert!(outer.closure_captures.is_empty());
}

#[test]
fn properties_are_added_to_in_place() {
    let b = compile(vec![
        let_("o", Expression::Hash(vec![])),
        stmt(assign(prop(name("o"), "n"), "+=", num(1))),
        stmt(assign(prop(name("o"), "n"), "=", infix(prop(name("o"), "n"), "+", num(1)))),
        stmt(assign(prop(name("o"), "n"), "=", infix(num(1), "+", prop(name("o"), "n")))),
    ]);
    let count = |op: ROp| b.instructions.iter().filter(|x| **x == op as u8).count();
    assert!(count(ROp::AddConstToRegProp) >= 3);
    assert_eq!(b.num_cache_slots, 6);
    let sum = compile(vec![
        let_("o", Expression::Hash(vec![])),
        stmt(assign(
            prop(name("o"), "z"),
            "=",
            infix(prop(name("o"), "x"), "+", prop(name("o"), "y")),
        )),
    ]);
    assert!(has(&sum, ROp::AddRegPropsToRegProp));
}

#[test]
fn statements_of_all_kinds_compile() {
    let b = compile(vec![
        Statement::ForOf {
            binding: ForBinding::Pattern(BindingPattern::Array(vec![
                ArrayBindingItem::Binding {
                    target: BindingTarget::Identifier("a".to_string()),
                    default_value: Some(num(1)),
                },
                ArrayBindingItem::Hole,
                ArrayBindingItem::Rest { name: "rest".to_string() },
            ])),
            iterable: Expression::Array(vec![num(1)]),
            body: vec![Statement::Continue { label: None }],
        },
        Statement::ForIn {
            var_name: "k".to_string(),
            iterable: Expression::Hash(vec![HashEntry::Spread(name("a"))]),
            body: vec![Statement::Break { label: None }],
        },
        Statement::Switch {
            discriminant: num(1),
            cases: vec![
                SwitchCase { test: Some(num(1)), consequent: vec![Statement::Break { label: None }] },
                SwitchCase { test: None, consequent: vec![stmt(num(2))] },
            ],
        },
        Statement::Try {
            try_block: vec![Statement::Throw { value: num(1) }],
            catch_param: Some("e".to_string()),
            catch_block: Some(vec![stmt(name("e"))]),
            finally_block: Some(vec![stmt(num(3))]),
        },
    ]);
    for op in [ROp::CallMethod, ROp::IteratorRest, ROp::GetKeysIter, ROp::StrictEqual, ROp::JumpIfTruthy]
    {
        assert!(has(&b, op));
    }
}

fn jump_targets(b: &Bytecode) -> Vec<usize> {
    let jumps = [ROp::Jump, ROp::JumpIfNot, ROp::JumpIfTruthy].map(|op| op as u8);
    let code = &b.instructions;
    let word = |p: usize| code[p] as usize * 256 + code[p + 1] as usize;
    let at = starts(code).into_iter().filter(|p| *p < code.len() && jumps.contains(&code[*p]));
    at.map(|p| word(p + if code[p] == ROp::Jump as u8 { 1 } else { 3 })).collect()
}

#[test]
fn every_jump_lands_in_the_code() {
    let switch = |inner: Statement| Statement::Switch {
        discriminant: num(1),
        cases: vec![SwitchCase { test: Some(num(1)), consequent: vec![inner] }],
    };
    let next = || Statement::Continue { label: None };
    let looped = Statement::While {
        condition: Expression::Boolean(true),
        body: vec![switch(switch(next())), stmt(num(2))],
    };
    let thrown = Statement::Try {
        try_block: vec![Statement::Throw { value: num(1) }],
        catch_param: Some("e".to_string()),
        catch_block: Some(vec![Statement::Throw { value: name("e") }]),
        finally_block: Some(vec![stmt(num(3))]),
    };
    for program in [looped, thrown] {
        let b = compile(vec![program]);
        for target in jump_targets(&b) {
            assert!(target <= b.instructions.len(), "{}", target);
        }
    }
    assert_eq!(error(vec![switch(next())]), "loop control outside loop");
}

#[test]
fn a_return_waits_for_the_finally_block() {
    let b = compile(vec![Statement::FunctionDecl {
        name: "f".to_string(),
        parameters: vec![],
        body: vec![Statement::Try {
            try_block: vec![Statement::Return { value: num(1) }],
            catch_param: None,
            catch_block: None,
            finally_block: Some(vec![]),
        }],
        is_async: false,
        is_generator: false,
    }]);
    let f = b
        .constants
        .iter()
        .find_map(|c| if let Object::CompiledFunction(f) = c { Some(f) } else { None })
        .expect("function");
    // one return, after the test of the flag
    let returns = f.instructions.iter().filter(|x| **x == ROp::JumpIfNot as u8).count();
    assert!(returns >= 1);
    assert!(f.instructions.iter().any(|x| *x == ROp::LoadTrue as u8));
}

#[test]
fn a_return_waits_for_all_finally_blocks() {
    let inner = |catch_block: Option<Vec<Statement>>, finally_block: Option<Vec<Statement>>| {
        Statement::Try {
            try_block: vec![Statement::Return { value: num(1) }],
            catch_param: None,
            catch_block,
            finally_block,
        }
    };
    for nested in [inner(None, Some(vec![])), inner(Some(vec![]), None)] {
        let b = compile(vec![Statement::FunctionDecl {
            name: "f".to_string(),
            parameters: vec![],
            body: vec![Statement::Try {
                try_block: vec![nested],
                catch_param: None,
                catch_block: None,
                finally_block: Some(vec![]),
            }],
            is_async: false,
            is_generator: false,
        }]);
        let f = b
            .constants
            .iter()
            .find_map(|c| if let Object::CompiledFunction(f) = c { Some(f) } else { None })
            .expect("function");
        let code = &f.instructions;
        let at = starts(code).into_iter();
        // The only return is the one after the outer block.
        let returns = at.filter(|p| *p < code.len() && code[*p] == ROp::Return as u8).count();
        assert_eq!(returns, 1);
    }
}

#[test]
fn code_in_context_sees_the_globals() {
    let mut globals: NameMap<u16> = NameMap::new();
    globals.insert("count".to_string(), 7);
    let b = RCompiler::with_globals(Realm::new(), &globals)
        .compile_program(&Program { statements: vec![stmt(name("count")), stmt(name("other"))] })
        .expect("compile");
    assert_eq!(&b.instructions[0..5], &[ROp::GetGlobal as u8, 0, 0, 0, 7]);
    assert_eq!(b.globals_table.get("other"), Some(&8));
}

#[test]
fn wrong_programs_are_rejected_with_a_reason() {
    assert_eq!(
        error(vec![
            Statement::Let { name: "c".to_string(), value: num(1), kind: VariableKind::Const },
            stmt(assign(name("c"), "+=", num(2))),
        ]),
        "Assignment to constant variable 'c'"
    );
    assert_eq!(error(vec![Statement::Break { label: None }]), "loop control outside loop");
    assert_eq!(
        error(vec![stmt(assign(name("x"), "@=", num(1)))]),
        "unsupported assignment operator @="
    );
    assert_eq!(
        error(vec![stmt(assign(prop(name("x"), "y"), "@=", num(1)))]),
        "unsupported assignment operator @= for index target"
    );
    assert_eq!(
        error(vec![stmt(Expression::Update {
            target: boxed(name("x")),
            operator: "**".to_string(),
            prefix: true,
        })]),
        "unsupported update operator **"
    );
    assert_eq!(
        error(vec![stmt(Expression::Hash(vec![HashEntry::Getter {
            key: name("k"),
            body: vec![],
        }]))]),
        "computed getter keys not yet supported"
    );
    assert_eq!(
        error(vec![stmt(assign(
            Expression::Array(vec![Expression::Spread { value: boxed(name("a")) }, name("b")]),
            "=",
            num(1),
        ))]),
        "array rest element in assignment must be last"
    );
}

// Where the instructions of code start, and where it ends.
fn starts(code: &[u8]) -> Vec<usize> {
    let mut starts = vec![];
    let mut p = 0;
    while p < code.len() {
        starts.push(p);
        let op = ROp::from_byte(code[p]).expect("opcode");
        p += op.size();
        if op == ROp::MakeClosure {
            p += 2 * code[p - 1] as usize;
        }
    }
    assert_eq!(p, code.len());
    starts.push(p);
    starts
}

fn check_layout(code: &[u8], constants: &[Object], registers: u16) {
    let places = starts(code);
    for &p in &places[..places.len() - 1] {
        let op = ROp::from_byte(code[p]).unwrap();
        let word = |offset: usize| code[p + offset] as usize * 256 + code[p + offset + 1] as usize;
        match op {
            ROp::LoadConst => {
                assert!(word(1) < registers as usize);
                assert!(word(3) < constants.len());
            }
            ROp::Add | ROp::Index => {
                assert!([1, 3, 5].iter().all(|&k| word(k) < registers as usize));
            }
            ROp::CallMethod => {
                assert!(word(3) + (code[p + 5] as usize) < registers as usize);
                assert!(word(6) < constants.len());
            }
            ROp::Array => assert!(word(5) == 0 || word(3) + word(5) <= registers as usize),
            _ => {}
        }
        let offset = match op {
            ROp::Jump => 1,
            ROp::JumpIfNot | ROp::JumpIfTruthy => 3,
            ROp::TestLtConstJump | ROp::TestLeConstJump | ROp::IncrementRegAndJump => 5,
            ROp::ModRegConstStrictEqConstJump => 7,
            _ => continue,
        };
        assert!(places.contains(&word(offset)));
    }
    for c in constants {
        if let Object::CompiledFunction(f) = c {
            check_layout(&f.instructions, &f.constants, f.register_count);
        }
        if let Object::Class(class) = c {
            let f = class.methods.get("twice").expect("method");
            check_layout(&f.instructions, &f.constants, f.register_count);
        }
    }
}

#[test]
fn code_consists_of_whole_instructions() {
    let body = vec![
        stmt(Expression::If {
            condition: boxed(infix(name("i"), "===", num(2))),
            consequence: vec![Statement::Continue { label: None }],
            alternative: Some(vec![Statement::Break { label: None }]),
        }),
        stmt(assign(name("i"), "+=", num(1))),
    ];
    let program = vec![
        let_("i", num(0)),
        Statement::While { condition: infix(name("i"), "<", num(10)), body },
        let_("f", arrow(&["a"], vec![stmt(arrow(&[], vec![stmt(name("a"))]))])),
        Statement::Switch {
            discriminant: name("i"),
            cases: vec![
                SwitchCase { test: Some(num(1)), consequent: vec![stmt(num(5))] },
                SwitchCase { test: None, consequent: vec![Statement::Break { label: None }] },
                SwitchCase { test: Some(num(2)), consequent: vec![stmt(num(6))] },
            ],
        },
        Statement::ForOf {
            binding: ForBinding::Identifier("x".to_string()),
            iterable: Expression::Array(vec![num(1), num(2)]),
            body: vec![stmt(name("x"))],
        },
        Statement::ClassDecl {
            name: Some("C".to_string()),
            extends: None,
            members: vec![ClassMember::Method(ClassMethod {
                name: "twice".to_string(),
                parameters: vec!["x".to_string()],
                body: vec![Statement::Return { value: infix(name("x"), "*", num(2)) }],
                is_static: false,
                is_getter: false,
                is_setter: false,
            })],
        },
        stmt(infix(name("i"), "&&", infix(name("f"), "??", num(3)))),
    ];
    let b = compile(program);
    check_layout(&b.instructions, &b.constants, b.register_count);
    assert_eq!(b.instructions[b.instructions.len() - 3], ROp::HaltValue as u8);
    let b = compile(vec![let_("x", num(1))]);
    check_layout(&b.instructions, &b.constants, b.register_count);
    assert_eq!(b.instructions.last(), Some(&(ROp::Halt as u8)));
}

fn const_(n: &str, value: Expression) -> Statement {
    Statement::Let { name: n.to_string(), value, kind: VariableKind::Const }
}

fn key_value(key: &str, value: Expression) -> HashEntry {
    HashEntry::KeyValue { key: Expression::String(key.to_string()), value }
}

// The ways in which an assignment can reach a constant `c`.
fn constant_targets() -> Vec<Expression> {
    let spread = |e: Expression| Expression::Spread { value: boxed(e) };
    let default = || assign(name("c"), "=", num(1));
    vec![
        Expression::Array(vec![name("c")]),
        Expression::Array(vec![default()]),
        Expression::Array(vec![spread(name("c"))]),
        Expression::Array(vec![Expression::Array(vec![name("c")])]),
        Expression::Hash(vec![key_value("k", name("c"))]),
        Expression::Hash(vec![key_value("k", default())]),
        Expression::Hash(vec![HashEntry::Spread(name("c"))]),
        Expression::Hash(vec![key_value("k", Expression::Array(vec![name("c")]))]),
    ]
}

fn step(n: &str) -> Expression {
    Expression::Update { target: boxed(name(n)), operator: "++".to_string(), prefix: false }
}

#[test]
fn constants_are_not_assigned_to_in_registers() {
    let message = "Assignment to constant variable 'c'";
    for target in constant_targets() {
        let program = vec![const_("c", num(1)), stmt(assign(target, "=", num(2)))];
        assert_eq!(error(program), message);
    }
    assert_eq!(error(vec![const_("c", num(1)), stmt(step("c"))]), message);
    let sum = assign(name("c"), "=", infix(name("c"), "+", num(1)));
    assert_eq!(error(vec![const_("c", num(1)), stmt(sum)]), message);
    let sum = assign(name("c"), "+=", name("d"));
    assert_eq!(error(vec![let_("d", num(2)), const_("c", num(1)), stmt(sum)]), message);
    let looped = Statement::For {
        init: Some(Box::new(const_("c", num(0)))),
        condition: Some(infix(name("c"), "<", num(9))),
        update: Some(step("c")),
        body: vec![],
    };
    assert_eq!(error(vec![looped]), message);
}

#[test]
fn captured_names_are_found_in_patterns_and_classes() {
    let target = |n: &str| BindingTarget::Identifier(n.to_string());
    let read = |n: &str| arrow(&[], vec![Statement::Return { value: name(n) }]);
    let items = |default: Expression, key: Expression| {
        let array = BindingPattern::Array(vec![ArrayBindingItem::Binding {
            target: target("a"),
            default_value: Some(default),
        }]);
        BindingPattern::Object(vec![ObjectBindingItem {
            key,
            target: BindingTarget::Pattern(Box::new(array)),
            default_value: Some(read("third")),
            is_rest: false,
        }])
    };
    let captured = scan_captured_names(&vec![
        Statement::LetPattern {
            pattern: items(read("first"), read("second")),
            value: num(1),
            kind: VariableKind::Let,
        },
        Statement::ForOf {
            binding: ForBinding::Pattern(items(read("fourth"), num(1))),
            iterable: num(1),
            body: vec![],
        },
        stmt(arrow(&[], vec![Statement::ClassDecl {
            name: Some("C".to_string()),
            extends: Some(boxed(name("Parent"))),
            members: vec![],
        }])),
        Statement::ClassDecl {
            name: Some("D".to_string()),
            extends: None,
            members: vec![ClassMember::Field {
                name: "f".to_string(),
                initializer: Some(name("field")),
                is_static: false,
            }],
        },
    ]);
    for n in ["first", "second", "third", "fourth", "Parent", "field"] {
        assert!(captured.contains(n), "{}", n);
    }
    assert!(!captured.contains("a"));
}

#[test]
fn a_variable_in_a_default_of_a_function_gets_a_global_slot() {
    let pattern = BindingPattern::Array(vec![ArrayBindingItem::Binding {
        target: BindingTarget::Identifier("a".to_string()),
        default_value: Some(name("seen")),
    }]);
    let b = compile(vec![
        let_("seen", num(1)),
        stmt(arrow(&["p"], vec![Statement::LetPattern {
            pattern,
            value: name("p"),
            kind: VariableKind::Let,
        }])),
    ]);
    assert!(b.globals_table.contains_key("seen"));
}

#[test]
fn this_is_found_in_every_kind_of_statement() {
    let bodies = vec![
        Statement::While { condition: prop(Expression::This, "x"), body: vec![] },
        Statement::Throw { value: Expression::This },
        Statement::ForOf {
            binding: ForBinding::Identifier("k".to_string()),
            iterable: Expression::This,
            body: vec![],
        },
        stmt(Expression::New { callee: boxed(name("C")), arguments: vec![Expression::This] }),
        stmt(arrow(&[], vec![stmt(Expression::This)])),
        stmt(Expression::Hash(vec![key_value("k", Expression::This)])),
    ];
    for body in bodies {
        let captured = scan_captured_names(&vec![stmt(arrow(&[], vec![body]))]);
        assert!(captured.contains("this"));
    }
    let own = Expression::Function {
        parameters: vec![],
        body: vec![stmt(Expression::This)],
        is_async: false,
        is_generator: false,
        is_arrow: false,
    };
    assert!(!scan_captured_names(&vec![stmt(own)]).contains("this"));
}
