//! Scripts that stay loaded: their globals, calls into them, and the memory they
//! use.
use std::rc::Rc;

use vstd::prelude::*;

use crate::ast::Program;
use crate::bytecode::{Bytecode, BytecodeView};
use crate::config::FormLogicConfig;
use crate::engine::parser_errors;
use crate::heap::{
    freed, keeps_objects, lemma_freed_is_unmarked, obj_into_val, resolves, swept, used_length,
    val_to_obj, value_object, with_object, Heap,
};
use crate::host_bridge::PendingHostCall;
use crate::machine::{
    fresh_cache, is_collected, is_ready, law_collection_keeps_what_is_referred_to,
    law_global_write_is_local, GlobalsView, Machine,
};
use crate::marking::{safe_rule, value_ok};
use crate::names::NameMap;
use crate::object::{function_view, object_view, CompiledFunctionObject, Object, ObjectView};
use crate::rcodegen::{lemma_slots_lie_below, next_free_slot, RView};
use crate::rcompiler::{find_free_slot, rprogram_bytecode, RCompiler};
use crate::realm::Realm;
use crate::rrules::{plain_start, rgen_program};
use crate::text::{concat, decimal, to_decimal};
use crate::value::Value;

verus! {

/// The number of objects below which memory is not reclaimed.
pub const GC_INITIAL_THRESHOLD: usize = 4096;

/// The number of global variables that there can be.
pub const MAX_GLOBALS: usize = 65536;

/// A script whose top-level code has been compiled: the machine that runs it,
/// and the slots of its global variables by name.
#[derive(Debug)]
pub struct ScriptState {
    pub machine: Machine,
    pub globals_table: NameMap<u16>,
    /// The number of objects above which memory is reclaimed: twice the number
    /// that was left the last time, so that reclaiming stays rare.
    pub gc_threshold: usize,
    pub realm: Realm,
}

/// Whether a value refers to nothing, or to an object that is there.
pub open spec fn is_live(v: Value, heap: Heap) -> bool {
    v matches Value::Heap(k) ==> k < heap.objects@.len() && !(heap.objects@[k as int] is Null)
        && !heap.free@.contains(k)
}

/// What was replaced while an expression is evaluated in a script.
#[derive(Debug)]
pub struct SuspendedRun {
    pub instructions: Rc<Vec<u8>>,
    pub constants: Rc<Vec<Object>>,
    pub ip: usize,
    pub sp: usize,
    pub register_count: u16,
    pub max_stack_depth: usize,
    pub inline_cache: Vec<(u32, u32)>,
}

/// The object count at which memory is reclaimed next.
pub open spec fn next_threshold(allocated: int) -> int {
    if allocated * 2 > usize::MAX {
        usize::MAX as int
    } else if allocated * 2 < GC_INITIAL_THRESHOLD {
        GC_INITIAL_THRESHOLD as int
    } else {
        allocated * 2
    }
}

/// The number of positions of a heap that are in use.
pub open spec fn allocated(heap: Heap) -> int {
    if heap.free@.len() <= heap.objects@.len() {
        heap.objects@.len() - heap.free@.len()
    } else {
        0
    }
}

/// The object in a global variable.
pub open spec fn global_object(s: ScriptState, slot: u16) -> ObjectView {
    value_object(s.machine.globals@.at(slot as int), s.machine.heap)
}

/// The function in a global variable, if that is what it holds.
pub open spec fn global_function(s: ScriptState, slot: u16) -> Option<CompiledFunctionObject> {
    match s.machine.globals@.at(slot as int) {
        Value::Heap(k) => match s.machine.heap.objects@[k as int] {
            Object::CompiledFunction(f) => Some(*f),
            _ => None,
        },
        _ => None,
    }
}

/// Whether arguments were put on the stack of a script: they follow what was there,
/// and nothing else has changed but that the heap holds them.
pub open spec fn has_pushed(before: ScriptState, after: ScriptState, args: Seq<Object>) -> bool {
    let start = before.machine.sp;
    let room = before.machine.heap.room();
    &&& after.machine.sp == start + args.len()
    &&& after.machine.stack@.len() == (if start + args.len() > before.machine.stack@.len() {
        start + args.len()
    } else {
        before.machine.stack@.len() as int
    })
    &&& forall|i: int|
        0 <= i < before.machine.stack@.len() && !(start <= i < start + args.len())
            ==> #[trigger] after.machine.stack@[i] == before.machine.stack@[i]
    &&& forall|i: int|
        0 <= i < args.len() ==> #[trigger] after.machine.stack@[start + i] == room.after_all(
            args,
            i,
        ).value_of(args[i])
    &&& forall|i: int|
        0 <= i < args.len() ==> value_object(
            #[trigger] after.machine.stack@[start + i],
            after.machine.heap,
        ) == object_view(args[i])
    &&& after.machine.heap.room() == room.after_all(args, args.len() as int)
    &&& keeps_objects(before.machine.heap, after.machine.heap)
    &&& after == (ScriptState {
        machine: Machine {
            heap: after.machine.heap,
            stack: after.machine.stack,
            sp: after.machine.sp,
            ..before.machine
        },
        ..before
    })
}

/// Whether a call has ended with a result: the stack is as high as before the call,
/// and memory was reclaimed if there were too many objects.
pub open spec fn has_finished(
    before: ScriptState,
    after: ScriptState,
    start: usize,
    result: Value,
    obj: Object,
) -> bool {
    let ended = Machine { sp: start, ..before.machine };
    &&& object_view(obj) == value_object(result, before.machine.heap)
    &&& if allocated(ended.heap) > before.gc_threshold {
        &&& exists|m: Seq<bool>| #[trigger] is_collected(ended, m, after.machine.heap)
        &&& after.machine.constants_values_cache@.len() == 0
        &&& after == (ScriptState {
            machine: Machine {
                heap: after.machine.heap,
                constants_values_cache: after.machine.constants_values_cache,
                ..ended
            },
            gc_threshold: after.gc_threshold,
            ..before
        })
        &&& after.gc_threshold == next_threshold(allocated(after.machine.heap))
    } else {
        after == (ScriptState { machine: ended, ..before })
    }
}

impl ScriptState {
    /// The machine is in order, and global variables refer to objects that are
    /// there.
    pub open spec fn wf(self) -> bool {
        &&& self.machine.wf()
        &&& forall|i: int| is_live(#[trigger] self.machine.globals@.at(i), self.machine.heap)
    }

    /// A script that is ready to run.
    pub fn new(bytecode: Bytecode, config: FormLogicConfig) -> (s: Self)
        ensures
            s.wf(),
            s.globals_table@ == bytecode@.globals_table,
            s.realm@ == bytecode@.realm,
            s.gc_threshold == GC_INITIAL_THRESHOLD,
            is_ready(
                s.machine,
                s.machine.instructions,
                s.machine.constants,
                bytecode.num_cache_slots,
                bytecode.max_stack_depth,
                bytecode.register_count,
                config,
            ),
            s.machine.instructions@ == bytecode@.instructions,
            *s.machine.constants == bytecode.constants,
    {
        let machine = Machine::new(
            Rc::new(bytecode.instructions),
            Rc::new(bytecode.constants),
            bytecode.num_cache_slots,
            bytecode.max_stack_depth,
            bytecode.register_count,
            config,
        );
        ScriptState {
            machine,
            globals_table: bytecode.globals_table,
            gc_threshold: GC_INITIAL_THRESHOLD,
            realm: bytecode.realm,
        }
    }

    /// A copy of the global variables, to go back to later.
    pub fn snapshot_globals(&self) -> (v: Vec<Value>)
        ensures
            v@ == self.machine.globals@.slots,
    {
        self.machine.globals.snapshot()
    }

    /// Go back to the global variables of a snapshot. Any variable written since
    /// is reverted; one that did not exist then is undefined again. All slots that
    /// the snapshot or the script has count as written.
    pub fn restore_globals(&mut self, snapshot: &Vec<Value>)
        ensures
            *final(self) == (ScriptState {
                machine: Machine { globals: final(self).machine.globals, ..old(self).machine },
                ..*old(self)
            }),
            forall|i: int| #[trigger]
                final(self).machine.globals@.at(i) == (GlobalsView {
                    slots: snapshot@,
                    dirty: Seq::empty(),
                }).at(i),
            forall|i: int| #[trigger]
                final(self).machine.globals@.is_dirty(i) == (0 <= i < snapshot@.len() || 0 <= i
                    < old(self).machine.globals@.slots.len() || old(
                    self,
                ).machine.globals@.is_dirty(i)),
            final(self).machine.globals@.slots.len() == (if snapshot@.len() > old(
                self,
            ).machine.globals@.slots.len() {
                snapshot@.len()
            } else {
                old(self).machine.globals@.slots.len()
            }),
    {
        let ghost wanted = GlobalsView { slots: snapshot@, dirty: Seq::empty() };
        let ghost before = self.machine.globals@;
        let len: usize = self.machine.globals.high_water_mark();
        let mut i: usize = 0;
        while i < snapshot.len()
            invariant
                0 <= i <= snapshot@.len(),
                wanted.slots == snapshot@,
                *self == (ScriptState {
                    machine: Machine { globals: self.machine.globals, ..old(self).machine },
                    ..*old(self)
                }),
                forall|k: int| #[trigger]
                    self.machine.globals@.at(k) == (if k < i {
                        wanted.at(k)
                    } else {
                        before.at(k)
                    }),
                forall|k: int| #[trigger]
                    self.machine.globals@.is_dirty(k) == (0 <= k < i || before.is_dirty(k)),
                self.machine.globals@.slots.len() == (if i > before.slots.len() {
                    i as nat
                } else {
                    before.slots.len()
                }),
            decreases snapshot@.len() - i,
        {
            let ghost middle = self.machine.globals@;
            self.machine.globals.set(i, snapshot[i]);
            assert forall|k: int| #[trigger]
                self.machine.globals@.at(k) == (if k < i + 1 {
                    wanted.at(k)
                } else {
                    before.at(k)
                }) by {
                law_global_write_is_local(middle, i as int, snapshot@[i as int], k);
                assert(middle.at(k) == (if k < i {
                    wanted.at(k)
                } else {
                    before.at(k)
                }));
            }
            assert forall|k: int| #[trigger]
                self.machine.globals@.is_dirty(k) == (0 <= k < i + 1 || before.is_dirty(k)) by {
                law_global_write_is_local(middle, i as int, snapshot@[i as int], k);
                assert(middle.is_dirty(k) == (0 <= k < i || before.is_dirty(k)));
            }
            i += 1;
        }
        while i < len
            invariant
                snapshot@.len() <= i,
                i == snapshot@.len() || i <= len,
                len == before.slots.len(),
                wanted.slots == snapshot@,
                *self == (ScriptState {
                    machine: Machine { globals: self.machine.globals, ..old(self).machine },
                    ..*old(self)
                }),
                forall|k: int| #[trigger]
                    self.machine.globals@.at(k) == (if k < i {
                        wanted.at(k)
                    } else {
                        before.at(k)
                    }),
                forall|k: int| #[trigger]
                    self.machine.globals@.is_dirty(k) == (0 <= k < i || before.is_dirty(k)),
                self.machine.globals@.slots.len() == (if i > before.slots.len() {
                    i as nat
                } else {
                    before.slots.len()
                }),
            decreases len - i,
        {
            let ghost middle = self.machine.globals@;
            self.machine.globals.set(i, Value::Undefined);
            assert forall|k: int| #[trigger]
                self.machine.globals@.at(k) == (if k < i + 1 {
                    wanted.at(k)
                } else {
                    before.at(k)
                }) by {
                law_global_write_is_local(middle, i as int, Value::Undefined, k);
                assert(middle.at(k) == (if k < i {
                    wanted.at(k)
                } else {
                    before.at(k)
                }));
            }
            assert forall|k: int| #[trigger]
                self.machine.globals@.is_dirty(k) == (0 <= k < i + 1 || before.is_dirty(k)) by {
                law_global_write_is_local(middle, i as int, Value::Undefined, k);
                assert(middle.is_dirty(k) == (0 <= k < i || before.is_dirty(k)));
            }
            i += 1;
        }
    }

    /// The slots of global variables by name.
    pub fn globals_table(&self) -> (t: &NameMap<u16>)
        ensures
            *t == self.globals_table,
    {
        &self.globals_table
    }

    /// Whether a global slot has been written since the last `clear_dirty`.
    pub fn is_global_dirty(&self, index: u16) -> (r: bool)
        ensures
            r == self.machine.globals@.is_dirty(index as int),
    {
        self.machine.globals.is_dirty(index as usize)
    }

    /// Count no slot as written any more.
    pub fn clear_dirty(&mut self)
        ensures
            forall|i: int| !#[trigger] final(self).machine.globals@.is_dirty(i),
            final(self).machine.globals@.slots == old(self).machine.globals@.slots,
            *final(self) == (ScriptState {
                machine: Machine { globals: final(self).machine.globals, ..old(self).machine },
                ..*old(self)
            }),
    {
        self.machine.globals.clear_dirty();
    }

    /// Read a global variable by slot.
    pub fn get_global_by_index(&self, index: u16) -> (obj: Object)
        requires
            self.wf(),
        ensures
            object_view(obj) == global_object(*self, index),
    {
        let v = self.machine.globals.get(index as usize);
        assert(is_live(v, self.machine.heap));
        val_to_obj(v, &self.machine.heap)
    }

    /// Write a global variable by slot.
    pub fn set_global_by_index(&mut self, index: u16, value: Object)
        requires
            old(self).wf(),
            old(self).machine.heap.objects@.len() < u32::MAX,
        ensures
            final(self).wf(),
            global_object(*final(self), index) == object_view(value),
            final(self).machine.globals@ == old(self).machine.globals@.with(
                index as int,
                old(self).machine.heap.room().value_of(value),
            ),
            final(self).machine.heap.objects@ == with_object(old(self).machine.heap, value),
            final(self).machine.heap.room() == old(self).machine.heap.room().after(value),
            keeps_objects(old(self).machine.heap, final(self).machine.heap),
            *final(self) == (ScriptState {
                machine: Machine {
                    globals: final(self).machine.globals,
                    heap: final(self).machine.heap,
                    ..old(self).machine
                },
                ..*old(self)
            }),
    {
        let ghost before = self.machine.globals@;
        let ghost old_heap = self.machine.heap;
        let v = obj_into_val(value, &mut self.machine.heap);
        self.machine.globals.set(index as usize, v);
        proof {
            let heap = self.machine.heap;
            assert(keeps_objects(old_heap, heap));
            law_global_write_is_local(before, index as int, v, index as int);
            assert forall|i: int| is_live(#[trigger] self.machine.globals@.at(i), heap) by {
                law_global_write_is_local(before, index as int, v, i);
                assert(is_live(before.at(i), old_heap));
                if i != index as int {
                    lemma_live_stays(before.at(i), old_heap, heap);
                }
            }
        }
    }

    /// Read a global variable by name.
    pub fn get_global(&self, name: &str) -> (r: Result<Object, String>)
        requires
            self.wf(),
        ensures
            match self.globals_table@.get(name@) {
                Some(slot) => r matches Ok(obj) && object_view(obj) == global_object(*self, slot),
                None => r matches Err(e) && e@ == "undefined variable: "@ + name@,
            },
    {
        match self.globals_table.get(name) {
            Some(slot) => Ok(self.get_global_by_index(*slot)),
            None => Err(concat("undefined variable: ", name)),
        }
    }

    /// Write a global variable by name. One that does not exist is created, in
    /// the first slot above those that are taken.
    pub fn set_global(&mut self, name: &str, value: Object) -> (r: Result<(), String>)
        requires
            old(self).wf(),
            old(self).machine.heap.objects@.len() < u32::MAX,
        ensures
            final(self).wf(),
            ({
                let table = old(self).globals_table@;
                let free = next_free_slot(table, table.order.len() as int);
                match table.get(name@) {
                    Some(slot) => r is Ok && final(self).globals_table@ == table && global_object(
                        *final(self),
                        slot,
                    ) == object_view(value),
                    None => if free < MAX_GLOBALS {
                        r is Ok && final(self).globals_table@ == table.set(name@, free as u16)
                            && global_object(*final(self), free as u16) == object_view(value)
                    } else {
                        r matches Err(e) && e@ == "too many global variables"@ && *final(self)
                            == *old(self)
                    },
                }
            }),
            r is Ok ==> ({
                let slot = final(self).globals_table@.map[name@];
                &&& final(self).machine.globals@ == old(self).machine.globals@.with(
                    slot as int,
                    old(self).machine.heap.room().value_of(value),
                )
                &&& final(self).machine.heap.objects@ == with_object(
                    old(self).machine.heap,
                    value,
                )
                &&& final(self).machine.heap.room() == old(self).machine.heap.room().after(value)
            }),
            forall|other: Seq<char>| #[trigger]
                old(self).globals_table@.has(other) && (old(self).globals_table@.has(name@)
                    ==> old(self).globals_table@.map[other] != old(
                    self,
                ).globals_table@.map[name@]) ==> final(self).globals_table@.get(other) == old(
                    self,
                ).globals_table@.get(other) && global_object(
                    *final(self),
                    old(self).globals_table@.map[other],
                ) == global_object(*old(self), old(self).globals_table@.map[other]),
            keeps_objects(old(self).machine.heap, final(self).machine.heap),
            *final(self) == (ScriptState {
                machine: Machine {
                    globals: final(self).machine.globals,
                    heap: final(self).machine.heap,
                    ..old(self).machine
                },
                globals_table: final(self).globals_table,
                ..*old(self)
            }),
    {
        let ghost table = self.globals_table@;
        let ghost before = *self;
        let found = match self.globals_table.get(name) {
            Some(slot) => Some(*slot),
            None => None,
        };
        let slot: u16 = match found {
            Some(slot) => slot,
            None => {
                self.globals_table.facts();
                let next: u32 = find_free_slot(&self.globals_table);
                if next as usize >= MAX_GLOBALS {
                    return Err("too many global variables".to_owned());
                }
                proof {
                    assert forall|other: Seq<char>| #[trigger] table.has(other) implies table.map[other]
                        < next by {
                        let k = self.globals_table.position(other);
                        assert(table.order[k] == other);
                        lemma_slots_lie_below(table, table.order.len() as int, k);
                    }
                }
                self.globals_table.insert(name.to_owned(), next as u16);
                next as u16
            },
        };
        self.set_global_by_index(slot, value);
        proof {
            assert forall|other: Seq<char>| #[trigger]
                table.has(other) && (table.has(name@) ==> table.map[other]
                    != table.map[name@]) implies global_object(*self, table.map[other])
                == global_object(before, table.map[other]) by {
                let at = table.map[other] as int;
                assert(is_live(before.machine.globals@.at(at), before.machine.heap));
                law_global_write_is_local(
                    before.machine.globals@,
                    slot as int,
                    self.machine.globals@.at(slot as int),
                    at,
                );
            }
        }
        Ok(())
    }

    /// The function in a global variable.
    pub fn find_function(&self, name: &str) -> (r: Result<CompiledFunctionObject, String>)
        requires
            self.wf(),
        ensures
            match self.globals_table@.get(name@) {
                None => r matches Err(e) && e@ == "undefined function: "@ + name@,
                Some(slot) => match global_function(*self, slot) {
                    Some(f) => r matches Ok(g) && function_view(g) == function_view(f),
                    None => r matches Err(e) && e@ == name@ + " is not a function"@,
                },
            },
    {
        let slot: u16 = match self.globals_table.get(name) {
            Some(slot) => *slot,
            None => {
                return Err(concat("undefined function: ", name));
            },
        };
        let v = self.machine.globals.get(slot as usize);
        assert(is_live(v, self.machine.heap));
        if let Value::Heap(k) = v {
            if let Object::CompiledFunction(f) = self.machine.heap.get(k) {
                return Ok(f.dup());
            }
        }
        Err(concat(name, " is not a function"))
    }

    /// Put arguments on the stack. Returns where they start.
    pub fn push_arguments(&mut self, args: &Vec<Object>) -> (start: usize)
        requires
            old(self).wf(),
            old(self).machine.heap.objects@.len() + args@.len() <= u32::MAX,
            old(self).machine.stack@.len() + args@.len() <= usize::MAX,
        ensures
            final(self).wf(),
            start == old(self).machine.sp,
            has_pushed(*old(self), *final(self), args@),
    {
        let start: usize = self.machine.sp;
        let ghost first = *self;
        let mut i: usize = 0;
        while i < args.len()
            invariant
                0 <= i <= args@.len(),
                first == *old(self),
                first.wf(),
                first.machine.heap.objects@.len() + args@.len() <= u32::MAX,
                first.machine.stack@.len() + args@.len() <= usize::MAX,
                start == first.machine.sp,
                *self == (ScriptState {
                    machine: Machine {
                        heap: self.machine.heap,
                        stack: self.machine.stack,
                        sp: self.machine.sp,
                        ..first.machine
                    },
                    ..first
                }),
                self.machine.sp == start + i,
                self.machine.sp <= self.machine.stack@.len() <= first.machine.stack@.len() + i,
                self.machine.heap.wf(),
                self.machine.heap.objects@.len() <= first.machine.heap.objects@.len() + i,
                keeps_objects(first.machine.heap, self.machine.heap),
                self.machine.heap.room() == first.machine.heap.room().after_all(args@, i as int),
                self.machine.stack@.len() == (if start + i > first.machine.stack@.len() {
                    start + i
                } else {
                    first.machine.stack@.len() as int
                }),
                forall|k: int|
                    0 <= k < first.machine.stack@.len() && !(start <= k < start + i)
                        ==> #[trigger] self.machine.stack@[k] == first.machine.stack@[k],
                forall|k: int|
                    start <= k < start + i ==> #[trigger] self.machine.stack@[k]
                        == first.machine.heap.room().after_all(args@, k - start).value_of(
                        args@[k - start],
                    ),
                forall|k: int|
                    start <= k < start + i ==> is_live(
                        #[trigger] self.machine.stack@[k],
                        self.machine.heap,
                    ) && value_object(self.machine.stack@[k], self.machine.heap) == object_view(
                        args@[k - start],
                    ),
            decreases args@.len() - i,
        {
            let ghost before = *self;
            let arg = args[i].dup();
            let ghost is_null = arg is Null;
            let v = obj_into_val(arg, &mut self.machine.heap);
            assert(keeps_objects(before.machine.heap, self.machine.heap));
            let sp: usize = self.machine.sp;
            if sp >= self.machine.stack.len() {
                self.machine.stack.push(v);
            } else {
                self.machine.stack[sp] = v;
            }
            self.machine.sp = sp + 1;
            proof {
                let heap = self.machine.heap;
                assert forall|k: int| start <= k < start + i + 1 implies is_live(
                    #[trigger] self.machine.stack@[k],
                    heap,
                ) && value_object(self.machine.stack@[k], heap) == object_view(
                    args@[k - start],
                ) by {
                    if k < start + i {
                        assert(self.machine.stack@[k] == before.machine.stack@[k]);
                        lemma_live_stays(
                            before.machine.stack@[k],
                            before.machine.heap,
                            heap,
                        );
                    }
                }
                assert forall|k: int|
                    0 <= k < first.machine.stack@.len() && !(start <= k < start + i
                        + 1) implies #[trigger] self.machine.stack@[k]
                    == first.machine.stack@[k] by {
                    assert(self.machine.stack@[k] == before.machine.stack@[k]);
                }
                assert forall|k: int| start <= k < start + i + 1 implies #[trigger] self.machine.stack@[k]
                    == first.machine.heap.room().after_all(args@, k - start).value_of(
                    args@[k - start],
                ) by {
                    if k < start + i {
                        assert(self.machine.stack@[k] == before.machine.stack@[k]);
                    }
                }
            }
            i += 1;
        }
        proof {
            assert forall|k: int| is_live(
                #[trigger] self.machine.globals@.at(k),
                self.machine.heap,
            ) by {
                assert(is_live(first.machine.globals@.at(k), first.machine.heap));
                lemma_live_stays(
                    first.machine.globals@.at(k),
                    first.machine.heap,
                    self.machine.heap,
                );
            }
            assert forall|k: int| 0 <= k < args@.len() implies value_object(
                #[trigger] self.machine.stack@[start + k],
                self.machine.heap,
            ) == object_view(args@[k]) by {
                assert(is_live(self.machine.stack@[start + k], self.machine.heap));
            }
        }
        start
    }

    /// End a call: take its arguments off the stack, and return its result.
    /// Memory is reclaimed if there are many objects by now.
    pub fn finish_call(&mut self, start: usize, result: Value) -> (obj: Object)
        requires
            old(self).wf(),
            start <= old(self).machine.stack@.len(),
            resolves(result, old(self).machine.heap),
        ensures
            final(self).wf(),
            has_finished(*old(self), *final(self), start, result, obj),
    {
        self.machine.sp = start;
        let obj = val_to_obj(result, &self.machine.heap);
        let count: usize = self.machine.heap.allocated_count();
        if count > self.gc_threshold {
            self.gc_collect();
            let left: usize = self.machine.heap.allocated_count();
            self.gc_threshold = if left > usize::MAX / 2 {
                usize::MAX
            } else if left * 2 < GC_INITIAL_THRESHOLD {
                GC_INITIAL_THRESHOLD
            } else {
                left * 2
            };
        }
        obj
    }

    /// Free the objects that the script no longer refers to.
    pub fn gc_collect(&mut self)
        requires
            old(self).wf(),
        ensures
            final(self).wf(),
            *final(self) == (ScriptState { machine: final(self).machine, ..*old(self) }),
            final(self).machine == (Machine {
                heap: final(self).machine.heap,
                constants_values_cache: final(self).machine.constants_values_cache,
                ..old(self).machine
            }),
            old(self).machine.heap.objects@.len() == 0 ==> *final(self) == *old(self),
            old(self).machine.heap.objects@.len() > 0
                ==> final(self).machine.constants_values_cache@.len() == 0 && exists|m: Seq<bool>|
             #[trigger]
                is_collected(old(self).machine, m, final(self).machine.heap),
    {
        let ghost before = self.machine;
        self.machine.gc_collect();
        proof {
            if before.heap.objects@.len() > 0 {
                let m = choose|m: Seq<bool>| #[trigger]
                    is_collected(before, m, self.machine.heap);
                law_collection_keeps_what_is_referred_to(before, m, self.machine.heap);
                let objects = before.heap.objects@;
                let all = swept(objects, m);
                let list = freed(objects, m, objects.len() as int);
                lemma_freed_is_unmarked(objects, m, used_length(all));
                assert forall|i: int| is_live(
                    #[trigger] self.machine.globals@.at(i),
                    self.machine.heap,
                ) by {
                    let v = before.globals@.at(i);
                    assert(is_live(v, before.heap));
                    if let Value::Heap(k) = v {
                        assert(v == before.globals@.slots[i]);
                        assert(value_ok(v, safe_rule(objects, m)));
                        assert(m[k as int]);
                        assert(!(before.heap.objects@[k as int] is Null));
                    }
                }
            }
        }
    }

    /// Take the calls that the script has queued for the host.
    pub fn drain_pending_host_calls(&mut self) -> (calls: Vec<PendingHostCall>)
        ensures
            calls == old(self).machine.pending_host_calls,
            final(self).machine.pending_host_calls@.len() == 0,
            *final(self) == (ScriptState {
                machine: Machine {
                    pending_host_calls: final(self).machine.pending_host_calls,
                    ..old(self).machine
                },
                ..*old(self)
            }),
    {
        let mut calls: Vec<PendingHostCall> = Vec::new();
        core::mem::swap(&mut self.machine.pending_host_calls, &mut calls);
        calls
    }

    /// Each host call that waits has one callback.
    pub open spec fn callbacks_in_order(self) -> bool {
        &&& self.machine.host_callback_ids@.len() == self.machine.host_callbacks@.len()
        &&& self.machine.host_callback_ids@.no_duplicates()
    }

    /// Take the callback that waits for the result of a host call.
    pub fn take_host_callback(&mut self, id: u32) -> (r: Result<Value, String>)
        requires
            old(self).callbacks_in_order(),
        ensures
            final(self).callbacks_in_order(),
            takes_callback(*old(self), *final(self), id, r),
    {
        let mut i: usize = 0;
        while i < self.machine.host_callback_ids.len()
            invariant
                0 <= i <= self.machine.host_callback_ids@.len(),
                *self == *old(self),
                self.machine.host_callback_ids@.len() == self.machine.host_callbacks@.len(),
                self.machine.host_callback_ids@.no_duplicates(),
                forall|k: int| 0 <= k < i ==> #[trigger] self.machine.host_callback_ids@[k] != id,
            decreases self.machine.host_callback_ids@.len() - i,
        {
            if self.machine.host_callback_ids[i] == id {
                let ghost ids = self.machine.host_callback_ids@;
                let ghost callbacks = self.machine.host_callbacks@;
                self.machine.host_callback_ids.remove(i);
                let v = self.machine.host_callbacks.remove(i);
                assert(callbacks[i as int] == v);
                proof {
                    let left = ids.remove(i as int);
                    assert forall|a: int, b: int|
                        0 <= a < left.len() && 0 <= b < left.len() && a != b implies left[a]
                        != left[b] by {
                        let a0 = if a < i {
                            a
                        } else {
                            a + 1
                        };
                        let b0 = if b < i {
                            b
                        } else {
                            b + 1
                        };
                        assert(left[a] == ids[a0] && left[b] == ids[b0]);
                    }
                    if left.contains(id) {
                        let a = left.index_of(id);
                        let a0 = if a < i {
                            a
                        } else {
                            a + 1
                        };
                        assert(left[a] == ids[a0]);
                        assert(ids[a0] != ids[i as int]);
                    }
                }
                return Ok(v);
            }
            i += 1;
        }
        let digits = to_decimal(id as u64);
        Err(concat("no pending callback for host call id ", digits.as_str()))
    }

    /// Set limits for calls into the script.
    pub fn set_execution_limits(
        &mut self,
        max_instructions: Option<u64>,
        max_wall_time_ms: Option<u64>,
    )
        ensures
            *final(self) == (ScriptState {
                machine: Machine {
                    config: FormLogicConfig {
                        max_instructions,
                        max_wall_time_ms,
                        ..old(self).machine.config
                    },
                    enforce_limits: max_instructions is Some || max_wall_time_ms is Some,
                    ..old(self).machine
                },
                ..*old(self)
            }),
    {
        self.machine.config.max_instructions = max_instructions;
        self.machine.config.max_wall_time_ms = max_wall_time_ms;
        self.machine.enforce_limits = max_instructions.is_some() || max_wall_time_ms.is_some();
    }

    /// Compile an expression that refers to the script's globals. `errors` are
    /// those of the parser.
    pub fn compile_in_context(&mut self, program: &Program, errors: &Vec<String>) -> (r: Result<
        Bytecode,
        String,
    >)
        ensures
            compiles_in_context(*old(self), *final(self), *program, errors@, r),
    {
        if errors.len() > 0 {
            return Err(crate::engine::join_parser_errors(errors));
        }
        let mut realm = Realm::new();
        core::mem::swap(&mut self.realm, &mut realm);
        match RCompiler::with_globals(realm, &self.globals_table).compile_in(program, false) {
            Ok(b) => {
                let mut b = b;
                core::mem::swap(&mut self.realm, &mut b.realm);
                Ok(b)
            },
            Err((e, realm)) => {
                self.realm = realm;
                Err(e)
            },
        }
    }

    /// Replace the code that the machine runs. Returns what was replaced.
    pub fn begin_eval(
        &mut self,
        instructions: Rc<Vec<u8>>,
        constants: Rc<Vec<Object>>,
        num_cache_slots: u16,
        register_count: u16,
        max_stack_depth: u16,
    ) -> (saved: SuspendedRun)
        ensures
            saved == suspended(old(self).machine),
            *final(self) == (ScriptState {
                machine: Machine {
                    instructions,
                    constants,
                    ip: 0,
                    register_count,
                    max_stack_depth: max_stack_depth as usize,
                    inline_cache: final(self).machine.inline_cache,
                    ..old(self).machine
                },
                ..*old(self)
            }),
            final(self).machine.inline_cache@ == fresh_cache(num_cache_slots),
    {
        let mut inline_cache = crate::compiler::empty_cache(num_cache_slots);
        assert(inline_cache@ =~= fresh_cache(num_cache_slots));
        let mut instructions = instructions;
        let mut constants = constants;
        core::mem::swap(&mut self.machine.inline_cache, &mut inline_cache);
        core::mem::swap(&mut self.machine.instructions, &mut instructions);
        core::mem::swap(&mut self.machine.constants, &mut constants);
        let saved = SuspendedRun {
            instructions,
            constants,
            ip: self.machine.ip,
            sp: self.machine.sp,
            register_count: self.machine.register_count,
            max_stack_depth: self.machine.max_stack_depth,
            inline_cache,
        };
        self.machine.ip = 0;
        self.machine.register_count = register_count;
        self.machine.max_stack_depth = max_stack_depth as usize;
        saved
    }

    /// Bring back what `begin_eval` replaced, and return the last value.
    pub fn end_eval(&mut self, saved: SuspendedRun) -> (last: Value)
        ensures
            suspended(final(self).machine) == saved,
            last == (match old(self).machine.last_popped {
                Some(v) => v,
                None => Value::Undefined,
            }),
            *final(self) == (ScriptState {
                machine: Machine {
                    instructions: saved.instructions,
                    constants: saved.constants,
                    ip: saved.ip,
                    sp: saved.sp,
                    register_count: saved.register_count,
                    max_stack_depth: saved.max_stack_depth,
                    inline_cache: saved.inline_cache,
                    last_popped: None,
                    ..old(self).machine
                },
                ..*old(self)
            }),
    {
        let last = match self.machine.last_popped {
            Some(v) => v,
            None => Value::Undefined,
        };
        self.machine.last_popped = None;
        self.machine.instructions = saved.instructions;
        self.machine.constants = saved.constants;
        self.machine.ip = saved.ip;
        self.machine.sp = saved.sp;
        self.machine.register_count = saved.register_count;
        self.machine.max_stack_depth = saved.max_stack_depth;
        self.machine.inline_cache = saved.inline_cache;
        last
    }

    /// Whether each host call that waits has one callback.
    pub fn has_callbacks_in_order(&self) -> (r: bool)
        ensures
            r == self.callbacks_in_order(),
    {
        let ids = &self.machine.host_callback_ids;
        if ids.len() != self.machine.host_callbacks.len() {
            return false;
        }
        let mut i: usize = 0;
        while i < ids.len()
            invariant
                0 <= i <= ids@.len(),
                *ids == self.machine.host_callback_ids,
                forall|a: int, b: int|
                    0 <= a < b < i ==> #[trigger] ids@[a] != #[trigger] ids@[b],
            decreases ids@.len() - i,
        {
            let mut k: usize = 0;
            while k < i
                invariant
                    0 <= k <= i < ids@.len(),
                    *ids == self.machine.host_callback_ids,
                    forall|a: int| 0 <= a < k ==> #[trigger] ids@[a] != ids@[i as int],
                decreases i - k,
            {
                if ids[k] == ids[i] {
                    assert(!ids@.no_duplicates());
                    return false;
                }
                k += 1;
            }
            i += 1;
        }
        assert(ids@.no_duplicates());
        true
    }

    /// The machine.
    pub fn vm(&self) -> (m: &Machine)
        ensures
            *m == self.machine,
    {
        &self.machine
    }

    /// The machine, for changing it.
    pub fn vm_mut(&mut self) -> (m: &mut Machine)
        ensures
            *m == old(self).machine,
            *final(self) == (ScriptState { machine: *final(m), ..*old(self) }),
    {
        &mut self.machine
    }

    /// The heap, for looking up objects.
    pub fn heap(&self) -> (h: &Heap)
        ensures
            *h == self.machine.heap,
    {
        &self.machine.heap
    }

    /// The heap, for adding objects.
    pub fn heap_mut(&mut self) -> (h: &mut Heap)
        ensures
            *h == old(self).machine.heap,
            *final(self) == (ScriptState {
                machine: Machine { heap: *final(h), ..old(self).machine },
                ..*old(self)
            }),
    {
        &mut self.machine.heap
    }
}

/// What it means to compile an expression in a script: names of globals stand for
/// the script's slots, and only the symbols of the script change.
pub open spec fn compiles_in_context(
    before: ScriptState,
    after: ScriptState,
    program: Program,
    errors: Seq<String>,
    r: Result<Bytecode, String>,
) -> bool {
    let table = before.globals_table@;
    let start = RView {
        globals: table,
        next_global: next_free_slot(table, table.order.len() as int),
        ..RView::start(before.realm@)
    };
    let s = rgen_program(plain_start(start, program), program);
    &&& after == (ScriptState { realm: after.realm, ..before })
    &&& if errors.len() > 0 {
        r matches Err(e) && e@ == parser_errors(errors) && after == before
    } else {
        &&& after.realm@ == s.realm
        &&& match s.err {
            None => r matches Ok(b) && (BytecodeView { realm: s.realm, ..b@ })
                == rprogram_bytecode(s),
            Some(message) => r matches Err(e) && e@ == message,
        }
    }
}

/// What it means to take the callback of a host call out of a script.
pub open spec fn takes_callback(
    before: ScriptState,
    after: ScriptState,
    id: u32,
    r: Result<Value, String>,
) -> bool {
    let ids = before.machine.host_callback_ids@;
    let callbacks = before.machine.host_callbacks@;
    &&& !after.machine.host_callback_ids@.contains(id)
    &&& after == (ScriptState {
        machine: Machine {
            host_callback_ids: after.machine.host_callback_ids,
            host_callbacks: after.machine.host_callbacks,
            ..before.machine
        },
        ..before
    })
    &&& match r {
        Ok(v) => exists|i: int|
            0 <= i < callbacks.len() && ids[i] == id && #[trigger] callbacks[i] == v
                && after.machine.host_callbacks@ == callbacks.remove(i)
                && after.machine.host_callback_ids@ == ids.remove(i),
        Err(e) => !ids.contains(id) && e@ == "no pending callback for host call id "@ + decimal(
            id as nat,
        ) && after == before,
    }
}

/// The part of a machine that another run replaces.
pub open spec fn suspended(m: Machine) -> SuspendedRun {
    SuspendedRun {
        instructions: m.instructions,
        constants: m.constants,
        ip: m.ip,
        sp: m.sp,
        register_count: m.register_count,
        max_stack_depth: m.max_stack_depth,
        inline_cache: m.inline_cache,
    }
}

proof fn lemma_live_stays(v: Value, before: Heap, after: Heap)
    requires
        is_live(v, before),
        keeps_objects(before, after),
    ensures
        is_live(v, after),
        value_object(v, after) == value_object(v, before),
{
    if let Value::Heap(k) = v {
        assert(after.objects@[k as int] == before.objects@[k as int]);
    }
}

/// Whatever was written to global variables since a snapshot was taken, each is as it
/// was once the snapshot is restored.
pub proof fn law_restored_globals_are_those_of_the_snapshot(
    taken: ScriptState,
    snapshot: Seq<Value>,
    restored: ScriptState,
    slot: int,
)
    requires
        snapshot == taken.machine.globals@.slots,
        forall|i: int| #[trigger]
            restored.machine.globals@.at(i) == (GlobalsView {
                slots: snapshot,
                dirty: Seq::empty(),
            }).at(i),
    ensures
        restored.machine.globals@.at(slot) == taken.machine.globals@.at(slot),
{
}

/// Writing one global variable leaves the objects in all others as they are.
pub proof fn law_other_globals_keep_their_objects(
    before: ScriptState,
    after: ScriptState,
    slot: u16,
    other: u16,
)
    requires
        before.wf(),
        after.machine.globals@ == before.machine.globals@.with(
            slot as int,
            after.machine.globals@.at(slot as int),
        ),
        keeps_objects(before.machine.heap, after.machine.heap),
        other != slot,
    ensures
        global_object(after, other) == global_object(before, other),
{
    let v = after.machine.globals@.at(slot as int);
    law_global_write_is_local(before.machine.globals@, slot as int, v, other as int);
    assert(is_live(before.machine.globals@.at(other as int), before.machine.heap));
    lemma_live_stays(
        before.machine.globals@.at(other as int),
        before.machine.heap,
        after.machine.heap,
    );
}

} // verus!
