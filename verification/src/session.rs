//! Running programs: evaluating source text, and calls into scripts that stay
//! loaded. What interprets the code is handed in.
use std::rc::Rc;

use vstd::prelude::*;

use crate::ast::Program;
use crate::bytecode::Bytecode;
use crate::engine::{loads, script_compiles, CachedBytecode, FormLogicEngine};
use crate::heap::{resolves, val_to_obj, value_object, Heap};
use crate::intern::Interner;
use crate::json::{json_source, value_fits, value_json, value_to_json};
use crate::machine::{fresh_cache, is_ready, ExecutionQuota, Machine};
use crate::object::{function_view, object_view, CompiledFunctionObject, Object};
use crate::realm::Realm;
use crate::render::writes;
use crate::script::{
    compiles_in_context, global_function, has_finished, has_pushed, is_live, suspended,
    takes_callback, ScriptState,
};
use crate::text::concat;
use crate::value::Value;

verus! {

/// A machine whose run has ended, with the symbols that there are by then, and
/// what the run came to: a result, or the text of an error.
#[derive(Debug)]
pub struct Ended<T> {
    pub machine: Machine,
    pub realm: Realm,
    pub outcome: Result<T, String>,
}

/// The value that a run has left.
pub open spec fn last_value(m: Machine) -> Value {
    match m.last_popped {
        Some(v) => v,
        None => Value::Undefined,
    }
}

/// The message for an error of the machine.
pub open spec fn machine_error(e: Seq<char>) -> Seq<char> {
    "VM error: "@ + e
}

/// Whether each run leaves a value that is there.
pub open spec fn leaves_values<T, R: Fn(Machine, Realm) -> Ended<T>>(run: R) -> bool {
    &&& forall|m: Machine, realm: Realm| #[trigger] call_requires(run, (m, realm))
    &&& forall|m: Machine, realm: Realm, end: Ended<T>| #[trigger]
        call_ensures(run, (m, realm), end) ==> resolves(
            last_value(end.machine),
            end.machine.heap,
        )
}

/// Whether a run of a program that was loaded ended like this. The symbols are those
/// of the engine that loaded it.
pub open spec fn ends<T, R: Fn(Machine, Realm) -> Ended<T>>(
    code: CachedBytecode,
    loaded: FormLogicEngine,
    run: R,
    end: Ended<T>,
) -> bool {
    exists|m: Machine| #[trigger]
        call_ensures(run, (m, loaded.realm), end) && is_ready(
            m,
            code.instructions,
            code.constants,
            code.num_cache_slots,
            code.max_stack_depth,
            code.register_count,
            loaded.config,
        )
}

/// The value that a run has left as JSON text. There is none if it refers to itself.
pub open spec fn is_last_json<F: Fn(u64) -> String>(
    text: Option<String>,
    m: Machine,
    table: Interner,
    float_text: F,
) -> bool {
    let depth = m.heap.objects@.len();
    match text {
        Some(t) => value_fits(last_value(m), m.heap, table, depth) && forall|
            texts: spec_fn(u64) -> Seq<char>,
        | #[trigger]
            writes(float_text, texts) ==> t@ == value_json(
                last_value(m),
                json_source(m.heap, table, texts),
                depth,
            ),
        None => !value_fits(last_value(m), m.heap, table, depth),
    }
}

/// What it means that source text was loaded, and run if that succeeded.
pub open spec fn runs<
    T,
    P: Fn(&str) -> (Program, Vec<String>),
    R: Fn(Machine, Realm) -> Ended<T>,
>(
    before: FormLogicEngine,
    after: FormLogicEngine,
    source: &str,
    parse: P,
    run: R,
    r: Result<Ended<T>, String>,
) -> bool {
    exists|loaded: FormLogicEngine, code: Result<CachedBytecode, String>| #[trigger]
        loads(before, loaded, source, parse, code) && match code {
            Err(e) => r == Err::<Ended<T>, String>(e) && after == loaded,
            Ok(code) => r matches Ok(end) && ends(code, loaded, run, end) && after.config
                == loaded.config && after.bytecode_cache == loaded.bytecode_cache,
        }
}

fn last_of(m: &mut Machine) -> (v: Value)
    ensures
        v == last_value(*old(m)),
        *final(m) == (Machine { last_popped: None, ..*old(m) }),
{
    let v = match m.last_popped {
        Some(v) => v,
        None => Value::Undefined,
    };
    m.last_popped = None;
    v
}

impl FormLogicEngine {
    /// Load source text and run it. The engine takes over the symbols that the run
    /// has left.
    fn run_source<T, P: Fn(&str) -> (Program, Vec<String>), R: Fn(Machine, Realm) -> Ended<T>>(
        &mut self,
        source: &str,
        parse: &P,
        run: &R,
    ) -> (r: Result<(Machine, Result<T, String>), String>)
        requires
            old(self).wf(),
            forall|text: &str| #[trigger] call_requires(*parse, (text,)),
            leaves_values(*run),
        ensures
            final(self).wf(),
            exists|ended: Result<Ended<T>, String>| #[trigger]
                runs(*old(self), *final(self), source, *parse, *run, ended) && match ended {
                    Err(e) => r == Err::<(Machine, Result<T, String>), String>(e),
                    Ok(end) => r == Ok::<(Machine, Result<T, String>), String>(
                        (end.machine, end.outcome),
                    ) && final(self).realm == end.realm && resolves(
                        last_value(end.machine),
                        end.machine.heap,
                    ),
                },
    {
        let code = match self.load(source, parse) {
            Ok(code) => code,
            Err(e) => {
                assert(runs(*old(self), *self, source, *parse, *run, Err(e)));
                return Err(e);
            },
        };
        let ghost loaded = *self;
        let machine = Machine::new(
            code.instructions.clone(),
            code.constants.clone(),
            code.num_cache_slots,
            code.max_stack_depth,
            code.register_count,
            self.config,
        );
        let mut realm = Realm::new();
        core::mem::swap(&mut self.realm, &mut realm);
        let end = run(machine, realm);
        self.realm = end.realm;
        proof {
            assert(ends(code, loaded, *run, end));
            assert(loads(*old(self), loaded, source, *parse, Ok(code)));
            assert(runs(*old(self), *self, source, *parse, *run, Ok(end)));
        }
        Ok((end.machine, end.outcome))
    }

    /// Evaluate source text. The result is the value that the run has left, if it
    /// succeeded.
    pub fn eval<P: Fn(&str) -> (Program, Vec<String>), R: Fn(Machine, Realm) -> Ended<()>>(
        &mut self,
        source: &str,
        parse: &P,
        run: &R,
    ) -> (r: Result<Object, String>)
        requires
            old(self).wf(),
            forall|text: &str| #[trigger] call_requires(*parse, (text,)),
            leaves_values(*run),
        ensures
            final(self).wf(),
            exists|ended: Result<Ended<()>, String>| #[trigger]
                runs(*old(self), *final(self), source, *parse, *run, ended) && match ended {
                    Err(e) => r == Err::<Object, String>(e),
                    Ok(end) => final(self).realm == end.realm && match end.outcome {
                        Ok(_) => r matches Ok(obj) && object_view(obj) == value_object(
                            last_value(end.machine),
                            end.machine.heap,
                        ),
                        Err(e) => r matches Err(message) && message@ == machine_error(e@),
                    },
                },
    {
        let (machine, outcome) = match self.run_source(source, parse, run) {
            Ok(end) => end,
            Err(e) => {
                return Err(e);
            },
        };
        let mut machine = machine;
        let last = last_of(&mut machine);
        match outcome {
            Ok(_) => Ok(val_to_obj(last, &machine.heap)),
            Err(e) => Err(concat("VM error: ", e.as_str())),
        }
    }

    fn run_to_json<
        T,
        P: Fn(&str) -> (Program, Vec<String>),
        R: Fn(Machine, Realm) -> Ended<T>,
        F: Fn(u64) -> String,
    >(&mut self, source: &str, parse: &P, run: &R, float_text: &F) -> (r: Result<
        (Option<String>, T),
        String,
    >)
        requires
            old(self).wf(),
            forall|text: &str| #[trigger] call_requires(*parse, (text,)),
            leaves_values(*run),
            forall|bits: u64| #[trigger] call_requires(*float_text, (bits,)),
        ensures
            final(self).wf(),
            exists|ended: Result<Ended<T>, String>| #[trigger]
                runs(*old(self), *final(self), source, *parse, *run, ended) && match ended {
                    Err(e) => r == Err::<(Option<String>, T), String>(e),
                    Ok(end) => final(self).realm == end.realm && match end.outcome {
                        Ok(t) => r matches Ok(pair) && pair.1 == t && is_last_json(
                            pair.0,
                            end.machine,
                            end.realm.symbols,
                            *float_text,
                        ),
                        Err(e) => r matches Err(message) && message@ == machine_error(e@),
                    },
                },
    {
        let (machine, outcome) = match self.run_source(source, parse, run) {
            Ok(end) => end,
            Err(e) => {
                return Err(e);
            },
        };
        let mut machine = machine;
        let last = last_of(&mut machine);
        match outcome {
            Ok(t) => Ok((value_to_json(last, &machine.heap, &self.realm.symbols, float_text), t)),
            Err(e) => Err(concat("VM error: ", e.as_str())),
        }
    }

    /// Evaluate source text, and return the result as JSON text with all references
    /// to the heap looked up. There is no text if the result refers to itself.
    pub fn eval_to_json<
        P: Fn(&str) -> (Program, Vec<String>),
        R: Fn(Machine, Realm) -> Ended<()>,
        F: Fn(u64) -> String,
    >(&mut self, source: &str, parse: &P, run: &R, float_text: &F) -> (r: Result<
        Option<String>,
        String,
    >)
        requires
            old(self).wf(),
            forall|text: &str| #[trigger] call_requires(*parse, (text,)),
            leaves_values(*run),
            forall|bits: u64| #[trigger] call_requires(*float_text, (bits,)),
        ensures
            final(self).wf(),
            exists|ended: Result<Ended<()>, String>| #[trigger]
                runs(*old(self), *final(self), source, *parse, *run, ended) && match ended {
                    Err(e) => r == Err::<Option<String>, String>(e),
                    Ok(end) => final(self).realm == end.realm && match end.outcome {
                        Ok(_) => r matches Ok(text) && is_last_json(
                            text,
                            end.machine,
                            end.realm.symbols,
                            *float_text,
                        ),
                        Err(e) => r matches Err(message) && message@ == machine_error(e@),
                    },
                },
    {
        match self.run_to_json(source, parse, run, float_text) {
            Ok((text, _)) => Ok(text),
            Err(e) => Err(e),
        }
    }

    /// Evaluate source text, and return the result as JSON text together with a trace
    /// of the run. Each step of the trace holds its number, the position and the code
    /// of the instruction, the two operands, the result, the constant, and one more
    /// value.
    pub fn eval_with_trace<
        P: Fn(&str) -> (Program, Vec<String>),
        R: Fn(Machine, Realm) -> Ended<Vec<(u64, u64, u8, u64, u64, u64, u64, u64)>>,
        F: Fn(u64) -> String,
    >(&mut self, source: &str, parse: &P, run: &R, float_text: &F) -> (r: Result<
        (Option<String>, Vec<(u64, u64, u8, u64, u64, u64, u64, u64)>),
        String,
    >)
        requires
            old(self).wf(),
            forall|text: &str| #[trigger] call_requires(*parse, (text,)),
            leaves_values(*run),
            forall|bits: u64| #[trigger] call_requires(*float_text, (bits,)),
        ensures
            final(self).wf(),
            exists|
                ended: Result<Ended<Vec<(u64, u64, u8, u64, u64, u64, u64, u64)>>, String>,
            | #[trigger]
                runs(*old(self), *final(self), source, *parse, *run, ended) && match ended {
                    Err(e) => r matches Err(message) && message == e,
                    Ok(end) => final(self).realm == end.realm && match end.outcome {
                        Ok(trace) => r matches Ok(pair) && pair.1 == trace && is_last_json(
                            pair.0,
                            end.machine,
                            end.realm.symbols,
                            *float_text,
                        ),
                        Err(e) => r matches Err(message) && message@ == machine_error(e@),
                    },
                },
    {
        self.run_to_json(source, parse, run, float_text)
    }

    /// Compile a script and run its top-level code. The script stays loaded.
    pub fn init_script<
        P: Fn(&str) -> (Program, Vec<String>),
        R: Fn(Machine, Realm) -> Ended<()>,
    >(&self, source: &str, parse: &P, run: &R) -> (r: Result<ScriptState, String>)
        requires
            forall|text: &str| #[trigger] call_requires(*parse, (text,)),
            forall|m: Machine, realm: Realm| #[trigger] call_requires(*run, (m, realm)),
        ensures
            exists|compiled: Result<ScriptState, String>| #[trigger]
                script_compiles(*self, source, *parse, compiled) && match compiled {
                    Err(e) => r == Err::<ScriptState, String>(e),
                    Ok(script) => exists|end: Ended<()>| #[trigger]
                        call_ensures(*run, (script.machine, script.realm), end)
                            && match end.outcome {
                            Ok(_) => r == Ok::<ScriptState, String>(script_after(script, end)),
                            Err(e) => r matches Err(message) && message@ == machine_error(e@),
                        },
                },
    {
        match self.compile_script(source, parse) {
            Err(e) => Err(e),
            Ok(script) => {
                let mut script = script;
                match script.run_init(run) {
                    Ok(_) => Ok(script),
                    Err(e) => Err(e),
                }
            },
        }
    }
}

/// A script after a run.
pub open spec fn script_after<T>(s: ScriptState, end: Ended<T>) -> ScriptState {
    ScriptState { machine: end.machine, realm: end.realm, ..s }
}

/// What a call into a script invokes.
#[derive(Debug)]
pub enum Callee {
    Function(CompiledFunctionObject),
    Value(Value),
}

impl ScriptState {
    /// Hand the machine out. Another one takes its place meanwhile.
    fn lend(&mut self) -> (lent: (Machine, Realm))
        ensures
            lent.0 == old(self).machine,
            lent.1 == old(self).realm,
            final(self).globals_table == old(self).globals_table,
            final(self).gc_threshold == old(self).gc_threshold,
    {
        let config = self.machine.config;
        let mut machine = Machine::new(Rc::new(Vec::new()), Rc::new(Vec::new()), 0, 0, 0, config);
        let mut realm = Realm::new();
        core::mem::swap(&mut self.machine, &mut machine);
        core::mem::swap(&mut self.realm, &mut realm);
        (machine, realm)
    }

    /// Whether a script is in order, and there is room for arguments.
    pub open spec fn takes_arguments(self, args: Seq<Object>) -> bool {
        &&& self.wf()
        &&& self.machine.heap.objects@.len() + args.len() <= u32::MAX
        &&& self.machine.stack@.len() + args.len() <= usize::MAX
    }

    /// Whether a script is in order, and there is room for that many arguments.
    pub fn has_room(&self, count: usize) -> (r: bool)
        ensures
            r == (self.wf() && self.machine.heap.objects@.len() + count <= u32::MAX
                && self.machine.stack@.len() + count <= usize::MAX),
    {
        is_in_order(&self.machine) && count <= u32::MAX as usize - self.machine.heap.objects.len()
            && count <= usize::MAX - self.machine.stack.len()
    }

    /// Run the top-level code of a script.
    pub fn run_init<R: Fn(Machine, Realm) -> Ended<()>>(&mut self, run: &R) -> (r: Result<
        (),
        String,
    >)
        requires
            forall|m: Machine, realm: Realm| #[trigger] call_requires(*run, (m, realm)),
        ensures
            exists|end: Ended<()>| #[trigger]
                call_ensures(*run, (old(self).machine, old(self).realm), end) && *final(self)
                    == script_after(*old(self), end) && match end.outcome {
                    Ok(_) => r is Ok,
                    Err(e) => r matches Err(message) && message@ == machine_error(e@),
                },
    {
        let (machine, realm) = self.lend();
        let end = run(machine, realm);
        self.machine = end.machine;
        self.realm = end.realm;
        match end.outcome {
            Ok(_) => Ok(()),
            Err(e) => Err(concat("VM error: ", e.as_str())),
        }
    }

    fn call<C: Fn(Machine, Realm, Callee, usize) -> Ended<Value>>(
        &mut self,
        callee: Callee,
        args: &Vec<Object>,
        invoke: &C,
    ) -> (r: Result<Object, String>)
        requires
            old(self).takes_arguments(args@),
            returns_in_order(*invoke),
        ensures
            calls(*old(self), *final(self), callee, args@, *invoke, r),
            r is Ok ==> final(self).wf(),
    {
        let start: usize = self.push_arguments(args);
        let ghost pushed = *self;
        let (machine, realm) = self.lend();
        let end = invoke(machine, realm, callee, start);
        self.machine = end.machine;
        self.realm = end.realm;
        let ghost ended = script_after(pushed, end);
        assert(*self == ended);
        match end.outcome {
            Ok(v) => {
                let obj = self.finish_call(start, v);
                assert(has_finished(ended, *self, start, v, obj));
                assert(call_ends(pushed, *self, start, end, Ok(obj)));
                Ok(obj)
            },
            Err(e) => {
                let message = concat("VM error: ", e.as_str());
                assert(call_ends(pushed, *self, start, end, Err(message)));
                Err(message)
            },
        }
    }

    /// Call a named function of the script, within a fresh quota.
    pub fn call_function<C: Fn(Machine, Realm, Callee, usize) -> Ended<Value>>(
        &mut self,
        name: &str,
        args: &Vec<Object>,
        invoke: &C,
    ) -> (r: Result<Object, String>)
        requires
            old(self).takes_arguments(args@),
            returns_in_order(*invoke),
        ensures
            ({
                let fresh = with_fresh_quota(*old(self));
                match old(self).globals_table@.get(name@) {
                    None => r matches Err(e) && e@ == "undefined function: "@ + name@
                        && *final(self) == fresh,
                    Some(slot) => match global_function(*old(self), slot) {
                        None => r matches Err(e) && e@ == name@ + " is not a function"@
                            && *final(self) == fresh,
                        Some(f) => exists|g: CompiledFunctionObject| #[trigger]
                            function_view(g) == function_view(f) && calls(
                                fresh,
                                *final(self),
                                Callee::Function(g),
                                args@,
                                *invoke,
                                r,
                            ),
                    },
                }
            }),
            r is Ok ==> final(self).wf(),
    {
        self.machine.quota = ExecutionQuota { instructions: 0 };
        assert(*self == with_fresh_quota(*old(self)));
        assert(self.wf()) by {
            assert forall|i: int| is_live(
                #[trigger] self.machine.globals@.at(i),
                self.machine.heap,
            ) by {
                assert(is_live(old(self).machine.globals@.at(i), old(self).machine.heap));
            }
        }
        match self.find_function(name) {
            Ok(f) => self.call(Callee::Function(f), args, invoke),
            Err(e) => Err(e),
        }
    }

    /// Call a function by its value, such as a handler of an event.
    pub fn call_value<C: Fn(Machine, Realm, Callee, usize) -> Ended<Value>>(
        &mut self,
        callee: Value,
        args: &Vec<Object>,
        invoke: &C,
    ) -> (r: Result<Object, String>)
        requires
            old(self).takes_arguments(args@),
            returns_in_order(*invoke),
        ensures
            calls(*old(self), *final(self), Callee::Value(callee), args@, *invoke, r),
            r is Ok ==> final(self).wf(),
    {
        self.call(Callee::Value(callee), args, invoke)
    }

    /// Call a compiled function, such as one that a hash holds.
    pub fn call_compiled_function<C: Fn(Machine, Realm, Callee, usize) -> Ended<Value>>(
        &mut self,
        func: &CompiledFunctionObject,
        args: &Vec<Object>,
        invoke: &C,
    ) -> (r: Result<Object, String>)
        requires
            old(self).takes_arguments(args@),
            returns_in_order(*invoke),
        ensures
            exists|g: CompiledFunctionObject| #[trigger]
                function_view(g) == function_view(*func) && calls(
                    *old(self),
                    *final(self),
                    Callee::Function(g),
                    args@,
                    *invoke,
                    r,
                ),
            r is Ok ==> final(self).wf(),
    {
        let f = func.dup();
        assert(function_view(f) == function_view(*func));
        self.call(Callee::Function(f), args, invoke)
    }

    /// Evaluate an expression that sees the script's variables and functions. The
    /// script's own code is put aside meanwhile.
    pub fn eval_in_context<
        P: Fn(&str) -> (Program, Vec<String>),
        R: Fn(Machine, Realm) -> Ended<()>,
    >(&mut self, source: &str, parse: &P, run: &R) -> (r: Result<Object, String>)
        requires
            forall|text: &str| #[trigger] call_requires(*parse, (text,)),
            leaves_values(*run),
        ensures
            suspended(final(self).machine) == suspended(old(self).machine),
            final(self).globals_table == old(self).globals_table,
            evaluates_in_context(*old(self), *final(self), source, *parse, *run, r),
    {
        let parsed = parse(source);
        let code = self.compile_in_context(&parsed.0, &parsed.1);
        let ghost compiled = *self;
        match code {
            Err(e) => {
                assert(compiles_in_context(
                    *old(self),
                    compiled,
                    parsed.0,
                    parsed.1@,
                    Err(e),
                ));
                Err(e)
            },
            Ok(b) => {
                let ghost bytecode = b;
                let saved = self.begin_eval(
                    Rc::new(b.instructions),
                    Rc::new(b.constants),
                    b.num_cache_slots,
                    b.register_count,
                    b.max_stack_depth,
                );
                let ghost begun = *self;
                let (machine, realm) = self.lend();
                let end = run(machine, realm);
                self.machine = end.machine;
                self.realm = end.realm;
                let last = self.end_eval(saved);
                proof {
                    assert(compiles_in_context(
                        *old(self),
                        compiled,
                        parsed.0,
                        parsed.1@,
                        Ok(bytecode),
                    ));
                    assert(has_begun(compiled, begun, bytecode));
                    assert(call_ensures(*run, (begun.machine, begun.realm), end));
                    assert(*self == resumed(compiled, end));
                }
                let obj = val_to_obj(last, &self.machine.heap);
                match end.outcome {
                    Ok(_) => Ok(obj),
                    Err(e) => Err(concat("VM error: ", e.as_str())),
                }
            },
        }
    }

    /// Hand the result of a host call to the callback that waits for it.
    pub fn resolve_host_callback<C: Fn(Machine, Realm, Callee, usize) -> Ended<Value>>(
        &mut self,
        id: u32,
        result: Object,
        invoke: &C,
    ) -> (r: Result<Object, String>)
        requires
            old(self).takes_arguments(seq![result]),
            old(self).callbacks_in_order(),
            returns_in_order(*invoke),
        ensures
            exists|taken: ScriptState, callback: Result<Value, String>| #[trigger]
                takes_callback(*old(self), taken, id, callback) && match callback {
                    Err(e) => r == Err::<Object, String>(e) && *final(self) == taken,
                    Ok(v) => calls(
                        taken,
                        *final(self),
                        Callee::Value(v),
                        seq![result],
                        *invoke,
                        r,
                    ),
                },
            r is Ok ==> final(self).wf(),
    {
        let callback = self.take_host_callback(id);
        let ghost taken = *self;
        assert(takes_callback(*old(self), taken, id, callback));
        match callback {
            Err(e) => Err(e),
            Ok(v) => {
                assert(self.wf()) by {
                    assert forall|i: int| is_live(
                        #[trigger] self.machine.globals@.at(i),
                        self.machine.heap,
                    ) by {
                        assert(is_live(old(self).machine.globals@.at(i), old(self).machine.heap));
                    }
                }
                let args = vec![result];
                assert(args@ =~= seq![result]);
                self.call(Callee::Value(v), &args, invoke)
            },
        }
    }
}

/// Whether a script is about to run other code than its own.
pub open spec fn has_begun(before: ScriptState, begun: ScriptState, code: Bytecode) -> bool {
    &&& begun.machine.instructions@ == code.instructions@
    &&& *begun.machine.constants == code.constants
    &&& begun.machine.inline_cache@ == fresh_cache(code.num_cache_slots)
    &&& begun == (ScriptState {
        machine: Machine {
            instructions: begun.machine.instructions,
            constants: begun.machine.constants,
            inline_cache: begun.machine.inline_cache,
            ip: 0,
            register_count: code.register_count,
            max_stack_depth: code.max_stack_depth as usize,
            ..before.machine
        },
        ..before
    })
}

/// The script after a run of other code: its own code is back in place.
pub open spec fn resumed<T>(before: ScriptState, end: Ended<T>) -> ScriptState {
    ScriptState {
        machine: Machine {
            instructions: before.machine.instructions,
            constants: before.machine.constants,
            ip: before.machine.ip,
            sp: before.machine.sp,
            register_count: before.machine.register_count,
            max_stack_depth: before.machine.max_stack_depth,
            inline_cache: before.machine.inline_cache,
            last_popped: None,
            ..end.machine
        },
        realm: end.realm,
        ..before
    }
}

/// What it means to evaluate an expression in a script.
pub open spec fn evaluates_in_context<
    P: Fn(&str) -> (Program, Vec<String>),
    R: Fn(Machine, Realm) -> Ended<()>,
>(
    before: ScriptState,
    after: ScriptState,
    source: &str,
    parse: P,
    run: R,
    r: Result<Object, String>,
) -> bool {
    exists|parsed: (Program, Vec<String>), compiled: ScriptState, code: Result<Bytecode, String>|
        call_ensures(parse, (source,), parsed) && #[trigger] compiles_in_context(
            before,
            compiled,
            parsed.0,
            parsed.1@,
            code,
        ) && match code {
            Err(e) => r == Err::<Object, String>(e) && after == compiled,
            Ok(code) => exists|begun: ScriptState, end: Ended<()>|
                has_begun(compiled, begun, code) && #[trigger] call_ensures(
                    run,
                    (begun.machine, begun.realm),
                    end,
                ) && after == resumed(compiled, end) && match end.outcome {
                    Ok(_) => r matches Ok(obj) && object_view(obj) == value_object(
                        last_value(end.machine),
                        end.machine.heap,
                    ),
                    Err(e) => r matches Err(message) && message@ == machine_error(e@),
                },
        }
}

/// The script with nothing used up of its quota.
pub open spec fn with_fresh_quota(s: ScriptState) -> ScriptState {
    ScriptState {
        machine: Machine { quota: ExecutionQuota { instructions: 0 }, ..s.machine },
        ..s
    }
}

/// Whether each call that succeeds leaves the machine in order, and returns a value
/// that is there.
pub open spec fn returns_in_order<C: Fn(Machine, Realm, Callee, usize) -> Ended<Value>>(
    invoke: C,
) -> bool {
    &&& forall|m: Machine, realm: Realm, callee: Callee, start: usize| #[trigger]
        call_requires(invoke, (m, realm, callee, start))
    &&& forall|m: Machine, realm: Realm, callee: Callee, start: usize, end: Ended<Value>|
        #[trigger] call_ensures(invoke, (m, realm, callee, start), end) ==> (
        end.outcome matches Ok(v) ==> machine_in_order(end.machine) && start
            <= end.machine.stack@.len() && resolves(v, end.machine.heap))
}

/// Whether a machine is in order, and its globals refer to objects that are there.
pub open spec fn machine_in_order(m: Machine) -> bool {
    m.wf() && forall|i: int| is_live(#[trigger] m.globals@.at(i), m.heap)
}

/// Whether the value that a run has left is there.
pub fn leaves_value(m: &Machine) -> (r: bool)
    ensures
        r == resolves(last_value(*m), m.heap),
{
    match m.last_popped {
        Some(v) => is_there(v, &m.heap),
        None => true,
    }
}

/// Whether a value refers to nothing, or to an object of the heap.
pub fn is_there(v: Value, heap: &Heap) -> (r: bool)
    ensures
        r == resolves(v, *heap),
{
    match v {
        Value::Heap(k) => (k as usize) < heap.objects.len(),
        _ => true,
    }
}

/// Whether a machine is in order, and its globals refer to objects that are there.
pub fn is_in_order(m: &Machine) -> (r: bool)
    ensures
        r == machine_in_order(*m),
{
    if m.sp > m.stack.len() || m.heap.objects.len() > u32::MAX as usize {
        return false;
    }
    let free: Vec<bool> = match m.heap.free_positions() {
        Some(free) => free,
        None => {
            return false;
        },
    };
    let globals: &Vec<Value> = m.globals.all();
    let mut i: usize = 0;
    while i < globals.len()
        invariant
            0 <= i <= globals@.len(),
            globals@ == m.globals@.slots,
            m.heap.objects@.len() <= u32::MAX,
            free@.len() == m.heap.objects@.len(),
            forall|k: int|
                0 <= k < free@.len() && k <= u32::MAX ==> (#[trigger] free@[k]
                    <==> m.heap.free@.contains(k as u32)),
            forall|k: int| 0 <= k < i ==> is_live(#[trigger] m.globals@.at(k), m.heap),
        decreases globals@.len() - i,
    {
        if let Value::Heap(k) = globals[i] {
            let live: bool = (k as usize) < free.len() && !free[k as usize] && !matches!(
                m.heap.get(k),
                Object::Null
            );
            if !live {
                assert(!is_live(m.globals@.at(i as int), m.heap));
                return false;
            }
        }
        assert(is_live(m.globals@.at(i as int), m.heap));
        i += 1;
    }
    assert forall|k: int| is_live(#[trigger] m.globals@.at(k), m.heap) by {}
    true
}

/// What a call comes to once its arguments are on the stack, from `start` on.
pub open spec fn call_ends(
    pushed: ScriptState,
    after: ScriptState,
    start: usize,
    end: Ended<Value>,
    r: Result<Object, String>,
) -> bool {
    match end.outcome {
        Ok(v) => r matches Ok(obj) && has_finished(
            script_after(pushed, end),
            after,
            start,
            v,
            obj,
        ),
        Err(e) => r matches Err(message) && message@ == machine_error(e@) && after
            == script_after(pushed, end),
    }
}

/// What it means to call into a script: the arguments are put on the stack, the
/// callee is invoked on them, and the call is ended.
pub open spec fn calls<C: Fn(Machine, Realm, Callee, usize) -> Ended<Value>>(
    before: ScriptState,
    after: ScriptState,
    callee: Callee,
    args: Seq<Object>,
    invoke: C,
    r: Result<Object, String>,
) -> bool {
    exists|pushed: ScriptState, end: Ended<Value>| #[trigger]
        call_ensures(
            invoke,
            (pushed.machine, pushed.realm, callee, before.machine.sp),
            end,
        ) && has_pushed(before, pushed, args) && call_ends(
            pushed,
            after,
            before.machine.sp,
            end,
            r,
        )
}

} // verus!
