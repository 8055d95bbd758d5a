//! Functions, classes and programs of the stack compiler.
use vstd::prelude::*;

use crate::ast::{
    ClassMember, Expression, Program, Statement,
};
use crate::builtins::{
    builtin_global_object, global_member, member_object,
};
use crate::bytecode::Bytecode;
use crate::code::Opcode;

use crate::compiler::{
    Compiler, blank, program_bytecode, texts,
};

use crate::object::{
    ClassObject, CompiledFunctionObject, FieldInitializer, Object, StaticInitializer, class_view,
    field_initializers_view, function_view, insert_function, object_view, static_initializer_view,
    static_initializers_view,
};
use crate::realm::Realm;
use crate::rules::{
    bare_class, body_rule, class_value_rule, effective_parameters, field_rule, function_rule,
    gen_body, gen_class_value, gen_field, gen_function, gen_members, gen_program, members_rule,
    parent_name, with_field, with_method,
};
use crate::scope_names::normalize_parameters;
use crate::text::str_eq;

verus! {

impl Compiler {
    pub(crate) fn compile_function_literal(
        &mut self,
        list: &Vec<String>,
        body: &Vec<Statement>,
        takes_this: bool,
        is_async: bool,
        is_generator: bool,
    ) -> (r: CompiledFunctionObject)
        ensures
            (final(self)@, function_view(r)) == gen_function(old(self)@, *list, *body, takes_this, is_async, is_generator),
        decreases *body, 4int, 0int,
    {
        proof {
            reveal(function_rule);
            assert(gen_function(old(self)@, *list, *body, takes_this, is_async, is_generator) == function_rule(old(self)@, *list, *body, takes_this, is_async, is_generator));
        }
        if self.failed() {
            return blank();
        }
        match normalize_parameters(list) {
            Ok((names, rest)) => self.compile_body(
                names,
                rest,
                body,
                takes_this,
                is_async,
                is_generator,
            ),
            Err(e) => {
                self.fail(e);
                blank()
            },
        }
    }

    pub(crate) fn compile_body(
        &mut self,
        names: Vec<String>,
        rest: Option<usize>,
        body: &Vec<Statement>,
        takes_this: bool,
        is_async: bool,
        is_generator: bool,
    ) -> (r: CompiledFunctionObject)
        ensures
            (final(self)@, function_view(r)) == gen_body(
                    old(self)@,
                    texts(names@),
                    rest,
                    *body,
                    takes_this,
                    is_async,
                    is_generator,
                ),
        decreases *body, 3int, 0int,
    {
        proof {
            reveal(body_rule);
            assert(gen_body(old(self)@, texts(names@), rest, *body, takes_this, is_async, is_generator) == body_rule(old(self)@, texts(names@), rest, *body, takes_this, is_async, is_generator));
        }
        let ghost given = texts(names@);
        let num_parameters: usize = match rest {
            Some(i) => i,
            None => names.len(),
        };
        let mut effective: Vec<String> = Vec::new();
        if takes_this {
            effective.push("this".to_owned());
        }
        let ghost first = effective@;
        let mut names = names;
        effective.append(&mut names);
        assert(texts(effective@) =~= effective_parameters(given, takes_this));
        let mut inner = self.enter_function(&effective);
        inner.hoist_var_declarations(body);
        inner.compile_statements(body);
        inner.finish_function();
        self.leave_function(inner, num_parameters, rest, takes_this, is_async, is_generator)
    }

    pub(crate) fn compile_field(&mut self, initializer: &Option<Expression>) -> (r: CompiledFunctionObject)
        ensures
            (final(self)@, function_view(r)) == gen_field(old(self)@, *initializer),
        decreases *initializer, 3int, 0int,
    {
        proof {
            reveal(field_rule);
            assert(gen_field(old(self)@, *initializer) == field_rule(old(self)@, *initializer));
        }
        let mut effective: Vec<String> = Vec::new();
        effective.push("this".to_owned());
        assert(texts(effective@) =~= seq!["this"@]);
        let mut inner = self.enter_function(&effective);
        match initializer {
            Some(value) => inner.compile_expression(value),
            None => inner.compile_identifier("undefined"),
        }
        inner.emit0(Opcode::OpReturnValue);
        inner.finish_function();
        self.leave_function(inner, 0, None, true, false, false)
    }

    pub(crate) fn compile_class_literal(
        &mut self,
        name: &str,
        extends: &Option<Box<Expression>>,
        members: &Vec<ClassMember>,
    ) -> (r: ClassObject)
        ensures
            (final(self)@, class_view(r)) == gen_members(
                    old(self)@,
                    bare_class(name@, parent_name(*extends), old(self)@.class_defs),
                    *members,
                    0,
                ),
        decreases *members, 1int, members@.len(),
    {
        proof {
            reveal(members_rule);
            assert(gen_members(old(self)@, bare_class(name@, parent_name(*extends), old(self)@.class_defs), *members, 0) == members_rule(old(self)@, bare_class(name@, parent_name(*extends), old(self)@.class_defs), *members, 0));
        }
        let mut class = self.make_bare_class(name, find_parent_name(extends));
        let ghost want = gen_members(self@, class_view(class), *members, 0);
        let mut i: usize = 0;
        while i < members.len()
            invariant
                0 <= i <= members@.len(),
                gen_members(self@, class_view(class), *members, i as int) == want,
                want == gen_members(
                    old(self)@,
                    bare_class(name@, parent_name(*extends), old(self)@.class_defs),
                    *members,
                    0,
                ),
            decreases members@.len() - i,
        {
            proof {
                reveal(members_rule);
                assert(gen_members(self@, class_view(class), *members, 0) == members_rule(self@, class_view(class), *members, 0));
            }
            assert(decreases_to!(*members => members@[i as int]));
            let ghost before = class_view(class);
            match &members[i] {
                ClassMember::Method(m) => {
                    let f = self.compile_function_literal(
                        &m.parameters,
                        &m.body,
                        true,
                        false,
                        false,
                    );
                    let ghost view = function_view(f);
                    if str_eq(m.name.as_str(), "constructor") {
                        class.constructor = Some(f);
                    } else if m.is_static {
                        insert_function(&mut class.static_methods, m.name.clone(), f);
                    } else if m.is_getter {
                        insert_function(&mut class.getters, m.name.clone(), f);
                    } else if m.is_setter {
                        insert_function(&mut class.setters, m.name.clone(), f);
                    } else {
                        insert_function(&mut class.methods, m.name.clone(), f);
                    }
                    assert(class_view(class) == with_method(
                        before,
                        m.name@,
                        m.is_static,
                        m.is_getter,
                        m.is_setter,
                        view,
                    ));
                },
                ClassMember::Field { name: field, initializer, is_static } => {
                    let f = self.compile_field(initializer);
                    let ghost view = function_view(f);
                    if *is_static {
                        let ghost list = class.static_initializers;
                        class.static_initializers.push(
                            StaticInitializer::Field { name: field.clone(), thunk: f },
                        );
                        assert(static_initializers_view(class.static_initializers)
                            =~= static_initializers_view(list).push(
                            static_initializer_view(class.static_initializers@.last()),
                        ));
                    } else {
                        let ghost list = class.field_initializers;
                        class.field_initializers.push(
                            FieldInitializer { name: field.clone(), thunk: f },
                        );
                        assert(field_initializers_view(class.field_initializers)
                            =~= field_initializers_view(list).push((field@, view)));
                    }
                    assert(class_view(class) == with_field(before, field@, *is_static, view));
                },
                ClassMember::StaticBlock { body } => {
                    let none: Vec<String> = Vec::new();
                    assert(texts(none@) =~= Seq::empty());
                    let f = self.compile_body(none, None, body, true, false, false);
                    let ghost list = class.static_initializers;
                    class.static_initializers.push(StaticInitializer::Block { thunk: f });
                    assert(static_initializers_view(class.static_initializers)
                        =~= static_initializers_view(list).push(
                        static_initializer_view(class.static_initializers@.last()),
                    ));
                },
            }
            i += 1;
        }
        proof {
            assert(gen_members(self@, class_view(class), *members, 0) == members_rule(self@, class_view(class), *members, 0));
        }
        class
    }

    pub(crate) fn compile_class_value(
        &mut self,
        name: &Option<String>,
        extends: &Option<Box<Expression>>,
        members: &Vec<ClassMember>,
    )
        ensures
            final(self)@ == gen_class_value(old(self)@, *name, *extends, *members),
        decreases *members, 4int, 0int,
    {
        proof {
            reveal(class_value_rule);
            assert(gen_class_value(old(self)@, *name, *extends, *members) == class_value_rule(old(self)@, *name, *extends, *members));
        }
        let own_name = match name {
            Some(n) => n.as_str(),
            None => "",
        };
        let class = self.compile_class_literal(own_name, extends, members);
        if let Some(n) = name {
            self.define_class(n, class.dup());
        }
        let has_static: bool = class.static_initializers.len() > 0;
        self.push_object(Object::Class(Box::new(class)));
        if has_static {
            self.emit0(Opcode::OpInitClass);
        }
    }

    /// Compile a whole program.
    pub fn compile_program(self, program: &Program) -> (r: Result<Bytecode, String>)
        ensures
            match gen_program(self@, *program).err {
                None => r matches Ok(b) && b@ == program_bytecode(
                    gen_program(self@, *program),
                ),
                Some(message) => r matches Err(e) && e@ == message,
            },
    {
        proof {
            reveal(gen_program);
        }
        let mut c = self;
        c.hoist_var_declarations(&program.statements);
        c.compile_statements(&program.statements);
        c.emit0(Opcode::OpHalt);
        c.into_bytecode()
    }

    /// The object that a global builtin name stands for, if it is one.
    pub fn builtin_global_object_static(realm: &mut Realm, name: &str) -> (r: Option<Object>)
        ensures
            match global_member(name@) {
                None => r is None && final(realm)@ == old(realm)@,
                Some(m) => r matches Some(obj) && object_view(obj) == member_object(
                    old(realm)@,
                    m,
                ).1 && final(realm)@ == member_object(old(realm)@, m).0,
            },
    {
        builtin_global_object(realm, name)
    }
}

/// The name of the class that is extended.
pub(crate) fn find_parent_name(extends: &Option<Box<Expression>>) -> (r: Option<&String>)
    ensures
        match r {
            Some(name) => parent_name(*extends) == Some(name@),
            None => parent_name(*extends) is None,
        },
{
    match extends {
        Some(e) => match &**e {
            Expression::Identifier(name) => Some(name),
            _ => None,
        },
        None => None,
    }
}

} // verus!
