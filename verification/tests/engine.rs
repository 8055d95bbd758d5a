// Programs from source text to result, with a small parser and a small interpreter.
use std::rc::Rc;

use formlogic_core::ast::{
    Expression, ForBinding, HashEntry, Program, Statement, VariableKind,
};
use formlogic_core::engine::FormLogicEngine;
use formlogic_core::hash::HashObject;
use formlogic_core::heap::{obj_into_val, val_to_obj};
use formlogic_core::key::HashKey;
use formlogic_core::machine::Machine;
use formlogic_core::object::{make_array, make_hash, CompiledFunctionObject, Object};
use formlogic_core::rcode::ROp;
use formlogic_core::realm::Realm;
use formlogic_core::script::ScriptState;
use formlogic_core::session::{Callee, Ended};
use formlogic_core::value::Value;

// Parsing

struct Parser {
    tokens: Vec<String>,
    pos: usize,
}

fn tokens(source: &str) -> Vec<String> {
    let c: Vec<char> = source.chars().collect();
    let mut out = vec![];
    let mut i = 0;
    while i < c.len() {
        let start = i;
        if c[i].is_whitespace() {
            i += 1;
        } else if c[i] == '/' && c.get(i + 1) == Some(&'/') {
            while i < c.len() && c[i] != '\n' {
                i += 1;
            }
        } else if c[i].is_alphanumeric() || c[i] == '_' {
            while i < c.len() && (c[i].is_alphanumeric() || c[i] == '_') {
                i += 1;
            }
            out.push(c[start..i].iter().collect());
        } else if c[i] == '"' {
            i += 1;
            while c[i] != '"' {
                i += 1;
            }
            i += 1;
            out.push(c[start..i].iter().collect());
        } else {
            let known = [
                "...", "||=", "&&=", "??=", "<=", ">=", "==", "&&", "||", "??", "=>", "++", "--",
                "+=", "-=",
            ];
            let found = known.iter().find(|k| {
                let end = (i + k.len()).min(c.len());
                c[i..end].iter().collect::<String>() == **k
            });
            i += found.map_or(1, |k| k.len());
            out.push(c[start..i].iter().collect());
        }
    }
    out
}

fn identifier(s: &str) -> Expression {
    Expression::Identifier(s.to_string())
}

impl Parser {
    fn peek(&self) -> &str {
        self.tokens.get(self.pos).map_or("", |t| t.as_str())
    }

    fn next(&mut self) -> String {
        let t = self.peek().to_string();
        self.pos += 1;
        t
    }

    fn take(&mut self, t: &str) -> bool {
        let found = self.peek() == t;
        if found {
            self.pos += 1;
        }
        found
    }

    fn expect(&mut self, t: &str) {
        assert!(self.take(t), "expected {} but found {}", t, self.peek());
    }

    fn block(&mut self) -> Vec<Statement> {
        if !self.take("{") {
            return vec![self.statement()];
        }
        let mut list = vec![];
        while !self.take("}") {
            list.push(self.statement());
        }
        list
    }

    fn declaration(&mut self) -> Statement {
        let name = self.next();
        self.expect("=");
        let value = self.expression(0);
        Statement::Let { name, value, kind: VariableKind::Let }
    }

    fn statement(&mut self) -> Statement {
        let s = if self.take("let") {
            self.declaration()
        } else if self.take("return") {
            Statement::Return { value: self.expression(0) }
        } else if self.take("function") {
            let name = self.next();
            self.expect("(");
            let mut parameters = vec![];
            while !self.take(")") {
                parameters.push(self.next());
                self.take(",");
            }
            let body = self.block();
            let (is_async, is_generator) = (false, false);
            Statement::FunctionDecl { name, parameters, body, is_async, is_generator }
        } else if self.take("while") {
            self.expect("(");
            let condition = self.expression(0);
            self.expect(")");
            Statement::While { condition, body: self.block() }
        } else if self.take("for") {
            self.expect("(");
            self.expect("let");
            if self.tokens[self.pos + 1] == "of" {
                let name = self.next();
                self.expect("of");
                let iterable = self.expression(0);
                self.expect(")");
                let binding = ForBinding::Identifier(name);
                Statement::ForOf { binding, iterable, body: self.block() }
            } else {
                let init = Some(Box::new(self.declaration()));
                self.expect(";");
                let condition = Some(self.expression(0));
                self.expect(";");
                let update = Some(self.expression(0));
                self.expect(")");
                Statement::For { init, condition, update, body: self.block() }
            }
        } else if self.take("throw") {
            Statement::Throw { value: self.expression(0) }
        } else if self.take("try") {
            let try_block = self.block();
            let (mut catch_param, mut catch_block) = (None, None);
            if self.take("catch") {
                self.expect("(");
                catch_param = Some(self.next());
                self.expect(")");
                catch_block = Some(self.block());
            }
            let finally_block = if self.take("finally") { Some(self.block()) } else { None };
            Statement::Try { try_block, catch_param, catch_block, finally_block }
        } else if self.take("if") {
            self.expect("(");
            let condition = Box::new(self.expression(0));
            self.expect(")");
            let consequence = self.block();
            let alternative = if self.take("else") { Some(self.block()) } else { None };
            Statement::Expression(Expression::If { condition, consequence, alternative })
        } else {
            Statement::Expression(self.expression(0))
        };
        self.take(";");
        s
    }

    fn expression(&mut self, min: u8) -> Expression {
        let mut left = self.unary();
        loop {
            let operator = self.peek().to_string();
            let power = match operator.as_str() {
                "=" | "+=" | "-=" | "||=" | "&&=" | "??=" => 1,
                "||" | "&&" | "??" => 2,
                "<" | "<=" | ">" | ">=" | "==" => 3,
                "+" | "-" => 4,
                "*" | "/" | "%" => 5,
                _ => 0,
            };
            if power == 0 || power <= min {
                return left;
            }
            self.pos += 1;
            let is_assignment = power == 1;
            let right = Box::new(self.expression(if is_assignment { 0 } else { power }));
            left = if is_assignment {
                Expression::Assign { left: Box::new(left), operator, right }
            } else {
                Expression::Infix { left: Box::new(left), operator, right }
            };
        }
    }

    fn unary(&mut self) -> Expression {
        if self.take("!") {
            let right = Box::new(self.unary());
            return Expression::Prefix { operator: "!".to_string(), right };
        }
        let mut e = self.primary();
        loop {
            if self.take("(") {
                let mut arguments = vec![];
                while !self.take(")") {
                    arguments.push(self.expression(0));
                    self.take(",");
                }
                e = Expression::Call { function: Box::new(e), arguments };
            } else if self.take(".") {
                let index = Box::new(Expression::String(self.next()));
                e = Expression::Index { left: Box::new(e), index };
            } else if self.take("[") {
                let index = Box::new(self.expression(0));
                self.expect("]");
                e = Expression::Index { left: Box::new(e), index };
            } else if self.peek() == "++" || self.peek() == "--" {
                let operator = self.next();
                e = Expression::Update { target: Box::new(e), operator, prefix: false };
            } else {
                return e;
            }
        }
    }

    fn primary(&mut self) -> Expression {
        let t = self.next();
        if let Ok(v) = t.parse() {
            return Expression::Integer(v);
        }
        if t.starts_with('"') {
            return Expression::String(t.trim_matches('"').to_string());
        }
        match t.as_str() {
            "null" => Expression::Null,
            "true" => Expression::Boolean(true),
            "false" => Expression::Boolean(false),
            "..." => Expression::Spread { value: Box::new(self.expression(0)) },
            "(" if self.take(")") => self.arrow(vec![]),
            "(" => {
                let e = self.expression(0);
                self.expect(")");
                e
            }
            "[" => {
                let mut items = vec![];
                while !self.take("]") {
                    items.push(self.expression(0));
                    self.take(",");
                }
                Expression::Array(items)
            }
            "{" => {
                let mut entries = vec![];
                while !self.take("}") {
                    let key = Expression::String(self.next());
                    self.expect(":");
                    entries.push(HashEntry::KeyValue { key, value: self.expression(0) });
                    self.take(",");
                }
                Expression::Hash(entries)
            }
            _ if self.peek() == "=>" => self.arrow(vec![t]),
            _ => identifier(&t),
        }
    }

    fn arrow(&mut self, parameters: Vec<String>) -> Expression {
        self.expect("=>");
        let body = vec![Statement::Return { value: self.expression(0) }];
        let (is_async, is_generator, is_arrow) = (false, false, true);
        Expression::Function { parameters, body, is_async, is_generator, is_arrow }
    }
}

fn parse(source: &str) -> (Program, Vec<String>) {
    let mut p = Parser { tokens: tokens(source), pos: 0 };
    let mut statements = vec![];
    while p.pos < p.tokens.len() {
        statements.push(p.statement());
    }
    (Program { statements }, vec![])
}

// Running

struct Run {
    m: Machine,
    realm: Realm,
}

fn truthy(v: Value) -> bool {
    !matches!(v, Value::Undefined | Value::Null | Value::Bool(false) | Value::Int(0))
}

impl Run {
    fn number(&self, v: Value) -> i64 {
        match v {
            Value::Int(n) => n,
            _ => panic!("not a number: {:?}", v),
        }
    }

    fn text(&self, obj: &Object) -> String {
        match obj {
            Object::String(s) => s.clone(),
            _ => panic!("not a string: {:?}", obj),
        }
    }

    fn items(&self, v: Value) -> Result<Vec<Value>, String> {
        match val_to_obj(v, &self.m.heap) {
            Object::Array(items) => Ok(items.value.clone()),
            _ => Err("NoElement".to_string()),
        }
    }

    fn put(&mut self, place: Value, obj: Object) {
        match place {
            Value::Heap(k) => self.m.heap.objects[k as usize] = obj,
            _ => panic!("not on the heap: {:?}", place),
        }
    }

    fn property(&mut self, v: Value, name: &Object) -> Result<Value, String> {
        let name = self.text(name);
        match val_to_obj(v, &self.m.heap) {
            Object::Array(items) if name == "length" => Ok(Value::Int(items.value.len() as i64)),
            Object::Hash(h) => {
                h.value.get_by_str(&mut self.realm.symbols, &name).ok_or("NoProperty".to_string())
            }
            _ => Err("NoProperty".to_string()),
        }
    }

    fn set_property(&mut self, v: Value, name: &Object, value: Value) -> Result<(), String> {
        let name = self.text(name);
        let old = match val_to_obj(v, &self.m.heap) {
            Object::Hash(h) => h,
            _ => return Err("NoProperty".to_string()),
        };
        let mut h = HashObject::new(&mut self.realm);
        for (i, key) in old.value.ordered_keys().into_iter().enumerate() {
            h.insert_pair(key, old.value.values[i]);
        }
        h.set_by_str(&mut self.realm.symbols, Rc::new(name), value);
        self.put(v, make_hash(h));
        Ok(())
    }

    fn call(&mut self, callee: Value, args: &[Value]) -> Result<Value, String> {
        let f = match val_to_obj(callee, &self.m.heap) {
            Object::CompiledFunction(f) => f,
            _ => return Err("NotCallable".to_string()),
        };
        self.call_function(&f, args)
    }

    fn call_function(
        &mut self,
        f: &CompiledFunctionObject,
        args: &[Value],
    ) -> Result<Value, String> {
        let mut regs = vec![];
        if f.takes_this {
            regs.push(Value::Undefined);
        }
        for i in 0..f.num_parameters {
            regs.push(args.get(i).copied().unwrap_or(Value::Undefined));
        }
        regs.resize(regs.len().max(f.register_count as usize), Value::Undefined);
        for c in &f.captured_values {
            self.m.globals.set(c.slot as usize, c.value);
        }
        self.run(&f.instructions, &f.constants, regs)
    }

    fn run(
        &mut self,
        code: &[u8],
        constants: &[Object],
        mut regs: Vec<Value>,
    ) -> Result<Value, String> {
        let mut ip = 0;
        loop {
            let op = ROp::from_byte(code[ip]).ok_or("BadOpcode")?;
            let byte = |k: usize| code[ip + 1 + k] as usize;
            let word = |k: usize| byte(k) * 256 + byte(k + 1);
            let at = [0, 2, 4, 6].map(|k| if k + 2 <= op.operand_bytes() { word(k) } else { 0 });
            let [a, b, c, d] = at;
            let mut next = ip + op.size();
            let constant = |run: &mut Run, k: usize| {
                obj_into_val(constants[k].dup(), &mut run.m.heap)
            };
            match op {
                ROp::LoadConst => regs[a] = constant(self, b),
                ROp::LoadTrue => regs[a] = Value::Bool(true),
                ROp::LoadFalse => regs[a] = Value::Bool(false),
                ROp::LoadNull => regs[a] = Value::Null,
                ROp::LoadUndef => regs[a] = Value::Undefined,
                ROp::Move => regs[a] = regs[b],
                ROp::GetGlobal => regs[a] = self.m.globals.get(b),
                ROp::SetGlobal => self.m.globals.set(a, regs[b]),
                ROp::Add => {
                    regs[a] = Value::Int(self.number(regs[b]) + self.number(regs[c]));
                }
                ROp::Sub => {
                    regs[a] = Value::Int(self.number(regs[b]) - self.number(regs[c]));
                }
                ROp::Mul => {
                    regs[a] = Value::Int(self.number(regs[b]) * self.number(regs[c]));
                }
                ROp::LessThan => {
                    regs[a] = Value::Bool(self.number(regs[b]) < self.number(regs[c]));
                }
                ROp::LessOrEqual => {
                    regs[a] = Value::Bool(self.number(regs[b]) <= self.number(regs[c]));
                }
                ROp::Equal => {
                    let [left, right] = [regs[b], regs[c]].map(|v| val_to_obj(v, &self.m.heap));
                    regs[a] = Value::Bool(self.text(&left) == self.text(&right));
                }
                ROp::Typeof => {
                    let kind = if regs[b] == Value::Undefined { "undefined" } else { "object" };
                    regs[a] = obj_into_val(Object::String(kind.to_string()), &mut self.m.heap);
                }
                ROp::IsNullish => {
                    regs[a] = Value::Bool(matches!(regs[b], Value::Null | Value::Undefined));
                }
                ROp::Not => regs[a] = Value::Bool(!truthy(regs[b])),
                ROp::Jump => next = a,
                ROp::JumpIfNot => {
                    if !truthy(regs[a]) {
                        next = b;
                    }
                }
                ROp::JumpIfTruthy => {
                    if truthy(regs[a]) {
                        next = b;
                    }
                }
                ROp::Call => {
                    let args = regs[b + 1..b + 1 + byte(4)].to_vec();
                    regs[a] = self.call(regs[b], &args)?;
                }
                ROp::CallGlobal => {
                    let args = regs[c + 1..c + 1 + byte(6)].to_vec();
                    regs[a] = self.call(self.m.globals.get(b), &args)?;
                }
                ROp::CallMethod => {
                    // Of all methods, only `Array.from`.
                    assert_eq!(self.text(&constants[byte(5) * 256 + byte(6)]), "from");
                    assert_eq!(byte(4), 1);
                    regs[a] = regs[b + 1];
                }
                ROp::Throw => {
                    let thrown = self.number(regs[a]);
                    return Err(format!("thrown {}", thrown));
                }
                ROp::Return => return Ok(regs[a]),
                ROp::ReturnUndef | ROp::Halt => return Ok(Value::Undefined),
                ROp::HaltValue => {
                    self.m.last_popped = Some(regs[a]);
                    return Ok(regs[a]);
                }
                ROp::Array => {
                    let items = regs[b..b + c].to_vec();
                    regs[a] = obj_into_val(make_array(items), &mut self.m.heap);
                }
                ROp::Hash => {
                    let mut h = HashObject::new(&mut self.realm);
                    for pair in regs[b..b + c].chunks(2) {
                        let name = self.text(&val_to_obj(pair[0], &self.m.heap));
                        let key = HashKey::from_string(&mut self.realm.symbols, &name);
                        h.insert_pair(key, pair[1]);
                    }
                    regs[a] = obj_into_val(make_hash(h), &mut self.m.heap);
                }
                ROp::AppendElement => {
                    let mut items = self.items(regs[a])?;
                    items.push(regs[b]);
                    self.put(regs[a], make_array(items));
                }
                ROp::AppendSpread => {
                    let mut items = self.items(regs[a])?;
                    items.extend(self.items(regs[b])?);
                    self.put(regs[a], make_array(items));
                }
                ROp::GetProp => {
                    assert!(d < 100);
                    regs[a] = self.property(regs[b], &constants[c])?;
                }
                ROp::SetProp => self.set_property(regs[a], &constants[b], regs[c])?,
                ROp::AddConstToRegProp => {
                    let k = constant(self, c);
                    let old = self.property(regs[a], &constants[b])?;
                    let sum = Value::Int(self.number(old) + self.number(k));
                    self.set_property(regs[a], &constants[b], sum)?;
                }
                ROp::AddRegPropsToRegProp => {
                    let first = self.property(regs[a], &constants[b])?;
                    let second = self.property(regs[a], &constants[d])?;
                    let sum = Value::Int(self.number(first) + self.number(second));
                    self.set_property(regs[a], &constants[word(10)], sum)?;
                }
                ROp::Index => {
                    let items = self.items(regs[b])?;
                    let found = items.get(self.number(regs[c]) as usize);
                    regs[a] = found.copied().unwrap_or(Value::Undefined);
                }
                ROp::SetIndex => {
                    let mut items = self.items(regs[a])?;
                    items[self.number(regs[b]) as usize] = regs[c];
                    self.put(regs[a], make_array(items));
                }
                ROp::AddRegConst => {
                    let k = constant(self, c);
                    regs[a] = Value::Int(self.number(regs[b]) + self.number(k));
                }
                ROp::TestLtConstJump => {
                    let k = constant(self, b);
                    if self.number(regs[a]) >= self.number(k) {
                        next = c;
                    }
                }
                ROp::TestLeConstJump => {
                    let k = constant(self, b);
                    if self.number(regs[a]) > self.number(k) {
                        next = c;
                    }
                }
                ROp::IncrementRegAndJump => {
                    let k = constant(self, b);
                    regs[a] = Value::Int(self.number(regs[a]) + self.number(k));
                    next = c;
                }
                _ => return Err("NotSupported".to_string()),
            }
            ip = next;
        }
    }
}

fn run(m: Machine, realm: Realm) -> Ended<()> {
    let (code, constants) = (m.instructions.clone(), m.constants.clone());
    let regs = vec![Value::Undefined; m.register_count as usize];
    let mut r = Run { m, realm };
    let outcome = r.run(&code, &constants, regs).map(|_| ());
    Ended { machine: r.m, realm: r.realm, outcome }
}

fn invoke(m: Machine, realm: Realm, callee: Callee, start: usize) -> Ended<Value> {
    let args = m.stack[start..m.sp].to_vec();
    let mut r = Run { m, realm };
    let outcome = match callee {
        Callee::Function(f) => r.call_function(&f, &args),
        Callee::Value(v) => r.call(v, &args),
    };
    Ended { machine: r.m, realm: r.realm, outcome }
}

fn eval(source: &str) -> Object {
    FormLogicEngine::default().eval(source, &parse, &run).expect("eval")
}

fn init_script(source: &str) -> ScriptState {
    FormLogicEngine::default().init_script(source, &parse, &run).expect("init_script")
}

fn assert_int(obj: Object, expected: i64) {
    match obj {
        Object::Integer(v) => assert_eq!(v, expected),
        Object::Float(v) => assert_eq!(f64::from_bits(v) as i64, expected),
        other => panic!("expected Integer({}), got {:?}", expected, other),
    }
}

fn call(state: &mut ScriptState, name: &str, args: Vec<Object>) -> Object {
    state.call_function(name, &args, &invoke).expect(name)
}

#[test]
fn evaluates_basic_arithmetic() {
    match eval("1 + 2;") {
        Object::Integer(v) => assert_eq!(v, 3),
        Object::Float(v) => assert!((f64::from_bits(v) - 3.0).abs() < 1e-9),
        _ => panic!("expected numeric output"),
    }
}

#[test]
fn evaluates_let_binding_and_reference() {
    match eval("let x = 7; x + 5;") {
        Object::Integer(v) => assert_eq!(v, 12),
        Object::Float(v) => assert!((f64::from_bits(v) - 12.0).abs() < 1e-9),
        _ => panic!("expected numeric output"),
    }
}

#[test]
fn test_init_script_and_call() {
    let mut state = init_script("let count = 0; function inc() { count = count + 1; }");
    assert_int(state.get_global("count").unwrap(), 0);
    call(&mut state, "inc", vec![]);
    assert_int(state.get_global("count").unwrap(), 1);
    call(&mut state, "inc", vec![]);
    assert_int(state.get_global("count").unwrap(), 2);
}

#[test]
fn test_init_script_function_with_args() {
    let mut state = init_script("let total = 0; function add(x) { total = total + x; }");
    call(&mut state, "add", vec![Object::Integer(5)]);
    assert_int(state.get_global("total").unwrap(), 5);
    call(&mut state, "add", vec![Object::Integer(3)]);
    assert_int(state.get_global("total").unwrap(), 8);
}

#[test]
fn test_init_script_set_global() {
    let mut state = init_script("let count = 0; function read() { return count; }");
    state.set_global("count", Object::Integer(42)).unwrap();
    assert_int(state.get_global("count").unwrap(), 42);
}

#[test]
fn test_init_script_function_return_value() {
    let mut state = init_script("let x = 10; function double() { return x * 2; }");
    assert_int(call(&mut state, "double", vec![]), 20);
}

#[test]
fn test_init_script_undefined_var_error() {
    let state = init_script("let x = 1;");
    assert!(state.get_global("nonexistent").is_err());
}

#[test]
fn test_self_recursion_for_loop() {
    let out = eval(
        r#"
                function recurse(depth) {
                    if (depth <= 0) return 1;
                    let items = [10, 20, 30];
                    let sum = 0;
                    for (let i = 0; i < items.length; i++) {
                        sum = sum + recurse(depth - 1);
                    }
                    return sum;
                }
                recurse(3);
                "#,
    );
    assert_int(out, 27);
}

#[test]
fn test_self_recursion_for_of_loop() {
    let out = eval(
        r#"
                function recurse(depth) {
                    if (depth <= 0) return 1;
                    let items = ["a", "b", "c"];
                    let sum = 0;
                    for (let item of items) {
                        sum = sum + recurse(depth - 1);
                    }
                    return sum;
                }
                recurse(3);
                "#,
    );
    assert_int(out, 27);
}

#[test]
fn test_self_recursion_depth_1() {
    let out = eval(
        r#"
                function recurse(depth) {
                    if (depth <= 0) return 1;
                    let items = [10, 20, 30];
                    let sum = 0;
                    for (let i = 0; i < items.length; i++) {
                        sum = sum + recurse(depth - 1);
                    }
                    return sum;
                }
                recurse(1);
                "#,
    );
    assert_int(out, 3);
}

#[test]
fn test_self_recursion_while_loop() {
    let out = eval(
        r#"
                function recurse(depth) {
                    if (depth <= 0) return 1;
                    let items = [10, 20, 30];
                    let sum = 0;
                    let i = 0;
                    while (i < items.length) {
                        sum = sum + recurse(depth - 1);
                        i = i + 1;
                    }
                    return sum;
                }
                recurse(3);
                "#,
    );
    assert_int(out, 27);
}

#[test]
fn test_self_recursion_depth_2() {
    let out = eval(
        r#"
                function recurse(depth) {
                    if (depth <= 0) return 1;
                    let sum = 0;
                    for (let i = 0; i < 3; i++) {
                        sum = sum + recurse(depth - 1);
                    }
                    return sum;
                }
                recurse(2);
                "#,
    );
    assert_int(out, 9);
}

#[test]
fn test_self_recursion_hardcoded_bound() {
    let out = eval(
        r#"
                function recurse(depth) {
                    if (depth <= 0) return 1;
                    let sum = 0;
                    for (let i = 0; i < 3; i++) {
                        sum = sum + recurse(depth - 1);
                    }
                    return sum;
                }
                recurse(3);
                "#,
    );
    assert_int(out, 27);
}

#[test]
fn test_init_script_forward_call() {
    let mut state = init_script(
        r#"
                function A() {
                    return B();
                }
                function B() {
                    return 42;
                }
                "#,
    );
    assert_int(call(&mut state, "A", vec![]), 42);
}

#[test]
fn test_init_script_forward_call_with_let() {
    let mut state = init_script(
        r#"
                let counter = 10;
                function A() {
                    return B() + counter;
                }
                function B() {
                    return 5;
                }
                "#,
    );
    assert_int(call(&mut state, "A", vec![]), 15);
}

#[test]
fn test_init_script_multiple_forward_refs() {
    let mut state = init_script(
        r#"
                let state = 0;
                function render() {
                    dispatchEvents();
                    let result = buildLayout();
                    return result + state;
                }
                function setBuilderFn(fn_ref) {
                    state = 100;
                }
                function dispatchEvents() {
                    state = state + 1;
                }
                function buildLayout() {
                    return 7;
                }
                setBuilderFn(null);
                "#,
    );
    assert_int(call(&mut state, "render", vec![]), 108);
}

#[test]
fn test_init_script_callback_in_let() {
    let mut state = init_script(
        r#"
                let _builderFn = null;
                let _rootNode = null;

                function _render() {
                    if (_builderFn) {
                        _rootNode = _builderFn();
                    }
                    if (!_rootNode) return 0;
                    return _rootNode;
                }

                function setBuilderFn(fn) {
                    _builderFn = fn;
                }

                function buildApp() {
                    return 42;
                }

                setBuilderFn(buildApp);
                "#,
    );
    assert_int(call(&mut state, "_render", vec![]), 42);
}

#[test]
fn test_init_script_code_between_functions() {
    let mut state = init_script(
        r#"
                let _needsRebuild = true;
                let _rootNode = null;
                let _builderFn = null;

                function buildLayout(node) {
                    return 1;
                }

                function computeLayout(node, w, h) {
                    return 2;
                }

                function renderTree(node) {
                    return 3;
                }

                function _render() {
                    if (_builderFn) {
                        _rootNode = _builderFn();
                        _needsRebuild = true;
                    }
                    if (!_rootNode) return 0;
                    _dispatchEvents();
                    if (_needsRebuild) {
                        buildLayout(_rootNode);
                        _needsRebuild = false;
                    }
                    computeLayout(_rootNode, 100, 100);
                    renderTree(_rootNode);
                    return 99;
                }

                // Simulated imported code (goes between _render and _dispatchEvents)
                let importedVar1 = "hello";
                let importedVar2 = "world";
                function importedFn1() { return 10; }
                function importedFn2() { return 20; }
                let importedVar3 = importedFn1() + importedFn2();

                function _dispatchEvents() {
                    // does nothing for this test
                }

                function buildApp() {
                    return { type: "Box" };
                }

                function setBuilderFn(fn) {
                    _builderFn = fn;
                }

                setBuilderFn(buildApp);
                "#,
    );
    assert_int(call(&mut state, "_render", vec![]), 99);
}

#[test]
fn engines_are_stateful_between_calls() {
    let mut state = init_script("let count = 0; function increment() { count++; return count; }");
    assert!(matches!(state.eval_in_context("increment()", &parse, &run), Ok(Object::Integer(1))));
    assert!(matches!(state.eval_in_context("increment()", &parse, &run), Ok(Object::Integer(2))));
    assert_int(state.get_global("count").unwrap(), 2);
}

#[test]
fn programs_print_their_result() {
    let mut engine = FormLogicEngine::default();
    let number = |bits: u64| f64::from_bits(bits).to_string();
    let out = engine.eval("let x = 7; x * 6;", &parse, &run).unwrap();
    assert_eq!(out.inspect(&engine.realm.symbols, &number), "42");
    let json = engine.eval_to_json("let x = [1, [2, null]]; x;", &parse, &run, &number);
    assert_eq!(json, Ok(Some("[1, [2, null]]".to_string())));
    let json = engine.eval_to_json("let o = { a: 1, b: [] }; o;", &parse, &run, &number);
    assert_eq!(json, Ok(Some("{\"a\": 1, \"b\": []}".to_string())));
}

#[test]
fn logical_assignment_to_an_element_has_a_value() {
    assert_int(eval("let a = [0, 7]; let x = (a[0] ||= 5); x;"), 5);
    assert_int(eval("let a = [0, 7]; a[0] ||= 5; a[0];"), 5);
    assert_int(eval("let a = [3]; let x = (a[0] ||= 5); x;"), 3);
    assert_int(eval("let a = [3]; let x = (a[0] &&= 5); x + a[0];"), 10);
    assert_int(eval("let a = [0]; let x = (a[0] &&= 5); x + a[0];"), 0);
    assert_int(eval("let a = [null]; let x = (a[0] ??= 5); x + a[0];"), 10);
    assert_int(eval("let a = [4]; let x = (a[0] ??= 5); x + a[0];"), 8);
}

#[test]
fn assignment_to_a_property_has_a_value() {
    assert_int(eval("let o = { x: 1, y: 2, z: 0 }; let v = (o.z = o.x + o.y); v;"), 3);
    assert_int(eval("let o = { x: 1, y: 2, z: 0 }; o.z = o.x + o.y; o.z;"), 3);
    assert_int(eval("let o = { x: 1 }; let v = (o.x += 4); v + o.x;"), 10);
    assert_int(eval("let o = { x: 1 }; let v = (o.x = 4); v + o.x;"), 8);
}

#[test]
fn an_assigned_variable_is_read_on_the_right() {
    assert_int(eval("let x = [1, 2]; x = [...x, 3]; x.length;"), 3);
    assert_int(eval("let x = [1, 2]; x = [9, ...x]; x[0] * 10 + x[2];"), 92);
    assert_int(eval("let x = 4; let a = 0; x = a || x; x;"), 4);
    assert_int(eval("let x = 4; let a = null; x = a ?? x; x;"), 4);
    assert_int(eval("let x = 4; let a = 1; x = a && x; x;"), 4);
    assert_int(eval("let x = 4; let y = 0; y = (x = x + 1) || x; y * 10 + x;"), 55);
    assert_int(eval("let x = 4; x = (x = 0) || x + 2; x;"), 2);
}

#[test]
fn nested_targets_take_the_value_and_not_the_default() {
    assert_int(eval("let a = 1; let v = [[8]]; [[a] = [9]] = v; a;"), 8);
    assert_int(eval("let a = 1; let v = []; [[a] = [9]] = v; a;"), 9);
    assert_int(eval("let a = 1; let b = 2; [[a], b] = [[5], 6]; a * 10 + b;"), 56);
}

#[test]
fn a_new_global_takes_no_slot_that_is_in_use() {
    let mut state = init_script("let i = 0; let f = i => () => i; let b = 5;");
    let taken: Vec<u16> = {
        let t = state.globals_table();
        (0..t.len()).map(|k| *t.value_at(k)).collect()
    };
    state.set_global("z", Object::Integer(9)).unwrap();
    assert_int(state.get_global("z").unwrap(), 9);
    assert_int(state.get_global("b").unwrap(), 5);
    assert_int(state.get_global("i").unwrap(), 0);
    assert!(!taken.contains(state.globals_table().get("z").unwrap()));
}

#[test]
fn a_local_takes_no_register_that_is_in_use() {
    let list = "let a = 1; let b = 2; let c = 0;";
    assert_int(eval(&format!("{} c = 5 + ([[a], b] = [[3], 4]).length; c * 100 + a * 10 + b;", list)), 734);
    assert_int(eval(&format!("{} let v = ([[a], b] = [[3], 4]); v.length * 100 + a * 10 + b;", list)), 234);
}

#[test]
fn keys_are_evaluated_once() {
    assert_int(eval("let i = 0; let p = [5, 6, 7]; let x = p[i++]++; x * 100 + p[0] * 10 + i;"), 561);
    assert_int(eval("let i = 0; let p = [5, 6, 7]; p[i++] += 3; p[0] * 10 + i;"), 81);
}

fn thrown(source: &str) -> String {
    FormLogicEngine::default().eval(source, &parse, &run).expect_err("thrown")
}

#[test]
fn an_exception_is_caught_once() {
    let all = "let x = 0; try { throw 3; } catch (e) { x = e; } finally { x = x * 10 + 1; }";
    assert_int(eval(&format!("{} x;", all)), 31);
    let none = "let x = 4; try { x = 5; } catch (e) { x = e; } finally { x = x * 10 + 1; }";
    assert_int(eval(&format!("{} x;", none)), 51);
    assert!(thrown("throw 7;").contains("thrown 7"));
}

#[test]
fn a_throw_in_a_catch_block_goes_on_after_the_finally_block() {
    let inner = "try { throw 1; } catch (e) { throw e + 1; } finally { x = x + 10; }";
    assert!(thrown(&format!("let x = 0; {}", inner)).contains("thrown 2"));
    // Another handler sees it, once the block has run.
    let outer = format!("let x = 0; try {{ {} x = 100; }} catch (e) {{ x = x + e; }}", inner);
    assert_int(eval(&format!("{} x;", outer)), 12);
    // What follows is not run.
    let f = format!("let x = 0; function f() {{ {} return 5; }} f();", inner);
    assert!(thrown(&f).contains("thrown 2"));
}

#[test]
fn what_is_not_caught_goes_on_after_the_finally_block() {
    let inner = "try { throw 1; } finally { x = x + 10; }";
    assert!(thrown(&format!("let x = 0; {}", inner)).contains("thrown 1"));
    let outer = format!("let x = 0; try {{ {} x = 100; }} catch (e) {{ x = x + e; }}", inner);
    assert_int(eval(&format!("{} x;", outer)), 11);
    let twice = format!("let x = 0; let i = 0; while (i < 2) {{ {} i = i + 1; }} x;",
        "try { if (i < 1) { throw 1; } } catch (e) { x = x + e; } finally { x = x + 10; }");
    assert_int(eval(&twice), 21);
    // A throw in the block itself takes the place of the one that waits.
    let other = "let x = 0; try { throw 1; } finally { throw 2; }";
    assert!(thrown(other).contains("thrown 2"));
    // So does a return.
    let ended = "function f() { try { throw 1; } finally { return 6; } } f();";
    assert_int(eval(ended), 6);
}

#[test]
fn a_return_and_an_exception_wait_for_the_finally_block() {
    let f = "let x = 0; function f() { try { return 4; } finally { x = x + 10; } }";
    assert_int(eval(&format!("{} let y = f(); x + y;", f)), 14);
    let g = "let x = 0; function g() { try { throw 1; } catch (e) { return e; } finally { x = 10; } }";
    assert_int(eval(&format!("{} let y = g(); x + y;", g)), 11);
}
