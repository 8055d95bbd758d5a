//! Functions, classes and programs of the register compiler.
use vstd::prelude::*;

use crate::ast::{ClassMember, Expression, Program, Statement};
use crate::bytecode::Bytecode;
use crate::captures::{scan_captured_names, scan_expr_captures};
use crate::compile_functions::find_parent_name;
use crate::compiler::{blank, make_derived_class, texts};
use crate::names::NameSet;
use crate::object::{
    class_view, copy_functions, copy_levels, field_initializers_view, function_view,
    insert_function, static_initializer_view, static_initializers_view, super_level_view,
    super_levels_view, ClassObject, CompiledFunctionObject, FieldInitializer, StaticInitializer,
    SuperLevel,
};
use crate::rcode::ROp;
use crate::rcompile_statements::freeing;
use crate::rcompiler::{rprogram_bytecode, RCompiler};
use crate::realm::Realm;
use crate::rrules::{
    Pick, Walk, body_rrule, class_rrule, field_captures, field_rrule, function_rrule,
    members_rrule, persistent_start, plain_start, rderived_class, rgen_body, rgen_class,
    rgen_field, rgen_function, rgen_members, rgen_program,
};
use crate::rules::{effective_parameters, parent_class, with_field, with_method};
use crate::scope_names::normalize_parameters;
use crate::text::str_eq;

verus! {

impl RCompiler {
    pub(crate) fn compile_function_literal(
        &mut self,
        list: &Vec<String>,
        body: &Vec<Statement>,
        takes_this: bool,
        is_async: bool,
        is_generator: bool,
    ) -> (r: CompiledFunctionObject)
        ensures
            (final(self)@, function_view(r)) == rgen_function(
                old(self)@,
                *list,
                *body,
                takes_this,
                is_async,
                is_generator,
            ),
        decreases *body, 4int, 0int,
    {
        proof {
            reveal(function_rrule);
            assert(rgen_function(
                old(self)@,
                *list,
                *body,
                takes_this,
                is_async,
                is_generator,
            ) == function_rrule(
                old(self)@,
                *list,
                *body,
                takes_this,
                is_async,
                is_generator,
            ));
        }
        if self.failed() {
            return blank();
        }
        match normalize_parameters(list) {
            Ok((names, rest)) => self.compile_body(
                names,
                rest,
                body,
                takes_this,
                is_async,
                is_generator,
            ),
            Err(e) => {
                self.fail(e);
                blank()
            },
        }
    }

    /// Compile a function with the given parameter names. Its function
    /// declarations come first.
    pub(crate) fn compile_body(
        &mut self,
        names: Vec<String>,
        rest: Option<usize>,
        body: &Vec<Statement>,
        takes_this: bool,
        is_async: bool,
        is_generator: bool,
    ) -> (r: CompiledFunctionObject)
        ensures
            (final(self)@, function_view(r)) == rgen_body(
                old(self)@,
                texts(names@),
                rest,
                *body,
                takes_this,
                is_async,
                is_generator,
            ),
        decreases *body, 3int, 0int,
    {
        proof {
            reveal(body_rrule);
            assert(rgen_body(
                old(self)@,
                texts(names@),
                rest,
                *body,
                takes_this,
                is_async,
                is_generator,
            ) == body_rrule(
                old(self)@,
                texts(names@),
                rest,
                *body,
                takes_this,
                is_async,
                is_generator,
            ));
        }
        let ghost given = texts(names@);
        let num_parameters: usize = match rest {
            Some(i) => i,
            None => names.len(),
        };
        let mut effective: Vec<String> = Vec::new();
        if takes_this {
            effective.push("this".to_owned());
        }
        let mut names = names;
        effective.append(&mut names);
        assert(texts(effective@) =~= effective_parameters(given, takes_this));
        let captured = scan_captured_names(body);
        let mut inner = self.enter_function(&effective, captured);
        inner.mirror_parameters(&effective);
        inner.hoist_var_declarations(body);
        let functions = Walk { pick: Pick::Functions, free: true, keep: false };
        let others = Walk { pick: Pick::Others, free: true, keep: false };
        inner.compile_walk(body, body.len(), functions, None);
        let last = inner.compile_walk(body, body.len(), others, None);
        inner.finish_function(last);
        self.leave_function(inner, num_parameters, rest, takes_this, is_async, is_generator)
    }

    pub(crate) fn compile_field(&mut self, initializer: &Option<Expression>) -> (r:
        CompiledFunctionObject)
        ensures
            (final(self)@, function_view(r)) == rgen_field(old(self)@, *initializer),
        decreases *initializer, 3int, 0int,
    {
        proof {
            reveal(field_rrule);
            assert(rgen_field(old(self)@, *initializer) == field_rrule(old(self)@, *initializer));
        }
        let mut effective: Vec<String> = Vec::new();
        effective.push("this".to_owned());
        assert(texts(effective@) =~= seq!["this"@]);
        let mut captured = NameSet::new();
        if let Some(value) = initializer {
            scan_expr_captures(value, &mut captured, false);
        }
        assert(captured@ =~= field_captures(*initializer));
        let mut inner = self.enter_function(&effective, captured);
        inner.mirror_parameters(&effective);
        let r: u16 = match initializer {
            Some(value) => inner.compile_expression(value),
            None => inner.load_identifier("undefined"),
        };
        inner.emit1(ROp::Return, r);
        inner.free_temps();
        inner.finish_function(None);
        self.leave_function(inner, 0, None, true, false, false)
    }

    /// A class that has only what it inherits.
    fn make_bare_class(&self, name: &str, extends: Option<&String>) -> (c: ClassObject)
        ensures
            class_view(c) == rderived_class(
                name@,
                parent_class(
                    match extends {
                        Some(n) => Some(n@),
                        None => None,
                    },
                    self@.class_defs,
                ),
            ),
    {
        proof {
            reveal(rderived_class);
        }
        let (parent_name, parent) = match extends {
            Some(n) => match self.class_of(n.as_str()) {
                Some(p) => (n, p),
                None => {
                    return make_derived_class(name, None);
                },
            },
            None => {
                return make_derived_class(name, None);
            },
        };
        let mut c = make_derived_class(name, Some((parent_name, parent)));
        if parent.super_methods.len() > 0 {
            let first = SuperLevel {
                methods: copy_functions(&parent.super_methods),
                getters: copy_functions(&parent.super_getters),
                setters: copy_functions(&parent.super_setters),
            };
            let ghost first_view = super_level_view(first);
            let mut chain: Vec<SuperLevel> = Vec::new();
            chain.push(first);
            let mut inherited = copy_levels(&parent.super_constructor_chain);
            let ghost tail = super_levels_view(inherited);
            chain.append(&mut inherited);
            assert(super_levels_view(chain) =~= seq![first_view] + tail);
            c.super_constructor_chain = chain;
        }
        c
    }

    /// Compile a class, and file it under its name if it has one.
    pub(crate) fn compile_class(
        &mut self,
        name: &Option<String>,
        extends: &Option<Box<Expression>>,
        members: &Vec<ClassMember>,
    ) -> (r: ClassObject)
        ensures
            (final(self)@, class_view(r)) == rgen_class(old(self)@, *name, *extends, *members),
        decreases *members, 4int, 0int,
    {
        proof {
            reveal(class_rrule);
            assert(rgen_class(
                old(self)@,
                *name,
                *extends,
                *members,
            ) == class_rrule(
                old(self)@,
                *name,
                *extends,
                *members,
            ));
        }
        let own_name = match name {
            Some(n) => n.as_str(),
            None => "",
        };
        let bare = self.make_bare_class(own_name, find_parent_name(extends));
        let class = self.compile_class_literal(bare, members);
        if let Some(n) = name {
            self.define_class(n, class.dup());
        }
        class
    }

    /// Add members to a class.
    fn compile_class_literal(&mut self, bare: ClassObject, members: &Vec<ClassMember>) -> (r:
        ClassObject)
        ensures
            (final(self)@, class_view(r)) == rgen_members(
                old(self)@,
                class_view(bare),
                *members,
                0,
            ),
        decreases *members, 1int, members@.len() as int,
    {
        proof {
            reveal(members_rrule);
            assert(rgen_members(
                old(self)@,
                class_view(bare),
                *members,
                0,
            ) == members_rrule(
                old(self)@,
                class_view(bare),
                *members,
                0,
            ));
        }
        let ghost want = rgen_members(self@, class_view(bare), *members, 0);
        let mut class = bare;
        let mut i: usize = 0;
        while i < members.len()
            invariant
                0 <= i <= members@.len(),
                rgen_members(self@, class_view(class), *members, i as int) == want,
            decreases members@.len() - i,
        {
            proof {
                reveal(members_rrule);
                assert(rgen_members(
                    self@,
                    class_view(class),
                    *members,
                    i as int,
                ) == members_rrule(
                    self@,
                    class_view(class),
                    *members,
                    i as int,
                ));
            }
            assert(decreases_to!(*members => members@[i as int]));
            let ghost before = class_view(class);
            match &members[i] {
                ClassMember::Method(m) => {
                    let f = self.compile_function_literal(
                        &m.parameters,
                        &m.body,
                        true,
                        false,
                        false,
                    );
                    let ghost view = function_view(f);
                    if str_eq(m.name.as_str(), "constructor") {
                        class.constructor = Some(f);
                    } else if m.is_static {
                        insert_function(&mut class.static_methods, m.name.clone(), f);
                    } else if m.is_getter {
                        insert_function(&mut class.getters, m.name.clone(), f);
                    } else if m.is_setter {
                        insert_function(&mut class.setters, m.name.clone(), f);
                    } else {
                        insert_function(&mut class.methods, m.name.clone(), f);
                    }
                    assert(class_view(class) == with_method(
                        before,
                        m.name@,
                        m.is_static,
                        m.is_getter,
                        m.is_setter,
                        view,
                    ));
                },
                ClassMember::Field { name: field, initializer, is_static } => {
                    let f = self.compile_field(initializer);
                    let ghost view = function_view(f);
                    if *is_static {
                        let ghost list = class.static_initializers;
                        class.static_initializers.push(
                            StaticInitializer::Field { name: field.clone(), thunk: f },
                        );
                        assert(static_initializers_view(class.static_initializers)
                            =~= static_initializers_view(list).push(
                            static_initializer_view(class.static_initializers@.last()),
                        ));
                    } else {
                        let ghost list = class.field_initializers;
                        class.field_initializers.push(
                            FieldInitializer { name: field.clone(), thunk: f },
                        );
                        assert(field_initializers_view(class.field_initializers)
                            =~= field_initializers_view(list).push((field@, view)));
                    }
                    assert(class_view(class) == with_field(before, field@, *is_static, view));
                },
                ClassMember::StaticBlock { body } => {
                    let none: Vec<String> = Vec::new();
                    assert(texts(none@) =~= Seq::empty());
                    let f = self.compile_body(none, None, body, true, false, false);
                    let ghost list = class.static_initializers;
                    class.static_initializers.push(StaticInitializer::Block { thunk: f });
                    assert(static_initializers_view(class.static_initializers)
                        =~= static_initializers_view(list).push(
                        static_initializer_view(class.static_initializers@.last()),
                    ));
                },
            }
            i += 1;
        }
        proof {
            assert(rgen_members(
                self@,
                class_view(class),
                *members,
                i as int,
            ) == members_rrule(
                self@,
                class_view(class),
                *members,
                i as int,
            ));
        }
        class
    }

    /// Compile a program. Its variables become registers, so that fused opcodes
    /// apply to them; only those that nested functions refer to get global
    /// slots as well.
    pub fn compile_program(self, program: &Program) -> (r: Result<Bytecode, String>)
        ensures
            ({
                let s = rgen_program(plain_start(self@, *program), *program);
                match s.err {
                    None => r matches Ok(b) && b@ == rprogram_bytecode(s),
                    Some(message) => r matches Err(e) && e@ == message,
                }
            }),
    {
        match self.compile_in(program, false) {
            Ok(b) => Ok(b),
            Err((e, _)) => Err(e),
        }
    }

    /// Compile a program whose variables stay accessible after it has run: all
    /// of them get global slots.
    pub fn compile_program_persistent(self, program: &Program) -> (r: Result<Bytecode, String>)
        ensures
            ({
                let s = rgen_program(persistent_start(self@), *program);
                match s.err {
                    None => r matches Ok(b) && b@ == rprogram_bytecode(s),
                    Some(message) => r matches Err(e) && e@ == message,
                }
            }),
    {
        match self.compile_in(program, true) {
            Ok(b) => Ok(b),
            Err((e, _)) => Err(e),
        }
    }

    /// Compile a program. If it is rejected, the realm is given back.
    pub(crate) fn compile_in(self, program: &Program, persistent: bool) -> (r: Result<
        Bytecode,
        (String, Realm),
    >)
        ensures
            ({
                let s = rgen_program(
                    if persistent {
                        persistent_start(self@)
                    } else {
                        plain_start(self@, *program)
                    },
                    *program,
                );
                match s.err {
                    None => r matches Ok(b) && b@ == rprogram_bytecode(s),
                    Some(message) => r matches Err(e) && e.0@ == message && e.1@ == s.realm,
                }
            }),
    {
        proof {
            reveal(rgen_program);
        }
        let mut c = self;
        if persistent {
            c.as_function(None);
        } else {
            let captured = scan_captured_names(&program.statements);
            c.as_function(Some(captured));
        }
        let stmts = &program.statements;
        c.hoist_var_declarations(stmts);
        match c.compile_walk(stmts, stmts.len(), freeing(), None) {
            Some(r) => {
                c.emit1(ROp::HaltValue, r);
            },
            None => {
                c.emit0(ROp::Halt);
            },
        }
        c.into_bytecode()
    }
}

} // verus!
