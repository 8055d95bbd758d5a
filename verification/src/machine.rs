//! The state of the virtual machine that outlives a run, and garbage collection
//! on its heap.
use std::rc::Rc;

use vstd::prelude::*;

use crate::config::FormLogicConfig;
use crate::heap::{
    freed, law_sweep_keeps_marked_objects, lemma_used_within, positions_below, swept, used_length,
    Heap,
};
use crate::host_bridge::PendingHostCall;
use crate::marking::{
    both, cover_rule, is_closed, is_settled, law_marked_objects_refer_to_marked_ones,
    law_marking_settles, lemma_next_part, lemma_nothing, lemma_objects_safe, lemma_same_part,
    lemma_then, mark_maybe_value, mark_objects, mark_value, mark_values, marks, maybe_value_part,
    new_ones_within, nothing, object_ok, objects_ok, objects_part, safe_rule, upto, value_ok,
    value_part, values_ok, values_part, within_rule, Rule,
};
use crate::object::Object;
use crate::value::Value;

verus! {

/// Global variables by slot. Slots that were never written are undefined.
#[derive(Debug)]
pub struct Globals {
    slots: Vec<Value>,
    dirty: Vec<bool>,
}

/// What global variables hold, and which slots were written since that was last
/// cleared.
#[verifier::ext_equal]
pub struct GlobalsView {
    pub slots: Seq<Value>,
    pub dirty: Seq<bool>,
}

/// A list with the item at `i` set; where it is too short, it is filled up first.
pub open spec fn with_item<T>(list: Seq<T>, filler: T, i: int, item: T) -> Seq<T> {
    if i < list.len() {
        list.update(i, item)
    } else {
        (list + Seq::new((i - list.len()) as nat, |k: int| filler)).push(item)
    }
}

impl View for Globals {
    type V = GlobalsView;

    closed spec fn view(&self) -> GlobalsView {
        GlobalsView { slots: self.slots@, dirty: self.dirty@ }
    }
}

impl GlobalsView {
    pub open spec fn empty() -> Self {
        GlobalsView { slots: Seq::empty(), dirty: Seq::empty() }
    }

    /// The value in a slot.
    pub open spec fn at(self, i: int) -> Value {
        if 0 <= i < self.slots.len() {
            self.slots[i]
        } else {
            Value::Undefined
        }
    }

    /// Whether a slot was written.
    pub open spec fn is_dirty(self, i: int) -> bool {
        0 <= i < self.dirty.len() && self.dirty[i]
    }

    /// The globals with a slot written.
    pub open spec fn with(self, i: int, value: Value) -> Self {
        GlobalsView {
            slots: with_item(self.slots, Value::Undefined, i, value),
            dirty: with_item(self.dirty, false, i, true),
        }
    }
}

/// Writing a slot changes that slot and no other.
pub proof fn law_global_write_is_local(g: GlobalsView, i: int, value: Value, k: int)
    requires
        0 <= i,
    ensures
        g.with(i, value).at(i) == value,
        g.with(i, value).is_dirty(i),
        k != i ==> g.with(i, value).at(k) == g.at(k),
        k != i ==> g.with(i, value).is_dirty(k) == g.is_dirty(k),
{
}

fn set_item<T: Copy>(list: &mut Vec<T>, filler: T, i: usize, item: T)
    ensures
        final(list)@ == with_item(old(list)@, filler, i as int, item),
{
    if i < list.len() {
        list[i] = item;
        return ;
    }
    let ghost before = list@;
    while list.len() < i
        invariant
            before.len() <= list@.len() <= i,
            list@ =~= before + Seq::new((list@.len() - before.len()) as nat, |k: int| filler),
        decreases i - list@.len(),
    {
        list.push(filler);
    }
    list.push(item);
    assert(list@ =~= with_item(before, filler, i as int, item));
}

impl Globals {
    pub fn new() -> (g: Self)
        ensures
            g@ == GlobalsView::empty(),
    {
        let g = Globals { slots: Vec::new(), dirty: Vec::new() };
        assert(g@ =~= GlobalsView::empty());
        g
    }

    /// The number of slots up to the last one that was written.
    pub fn high_water_mark(&self) -> (n: usize)
        ensures
            n == self@.slots.len(),
    {
        self.slots.len()
    }

    pub fn get(&self, i: usize) -> (v: Value)
        ensures
            v == self@.at(i as int),
    {
        if i < self.slots.len() {
            self.slots[i]
        } else {
            Value::Undefined
        }
    }

    pub fn set(&mut self, i: usize, value: Value)
        ensures
            final(self)@ == old(self)@.with(i as int, value),
    {
        set_item(&mut self.slots, Value::Undefined, i, value);
        set_item(&mut self.dirty, false, i, true);
    }

    /// Whether a slot was written since the last `clear_dirty`.
    pub fn is_dirty(&self, i: usize) -> (r: bool)
        ensures
            r == self@.is_dirty(i as int),
    {
        i < self.dirty.len() && self.dirty[i]
    }

    pub fn clear_dirty(&mut self)
        ensures
            final(self)@ == (GlobalsView { dirty: Seq::empty(), ..old(self)@ }),
    {
        self.dirty = Vec::new();
        assert(self@ =~= GlobalsView { dirty: Seq::empty(), ..old(self)@ });
    }

    /// All slots.
    pub(crate) fn all(&self) -> (v: &Vec<Value>)
        ensures
            v@ == self@.slots,
    {
        &self.slots
    }

    /// A copy of all slots.
    pub fn snapshot(&self) -> (v: Vec<Value>)
        ensures
            v@ == self@.slots,
    {
        let v = self.slots.clone();
        assert(v@ =~= self.slots@);
        v
    }
}

/// A call that is under way.
#[derive(Debug)]
pub struct Frame {
    pub locals: Vec<Object>,
    pub constants: Rc<Vec<Object>>,
}

/// The text of each kind of value, once it was asked for.
#[derive(Clone, Copy, Debug, PartialEq, Eq, Structural)]
pub struct TypeofValues {
    pub undefined: Value,
    pub number: Value,
    pub string: Value,
    pub boolean: Value,
    pub function: Value,
    pub object: Value,
}

/// What a call has used up of its limits.
#[derive(Clone, Copy, Debug, PartialEq, Eq, Structural)]
pub struct ExecutionQuota {
    pub instructions: u64,
}

impl Default for ExecutionQuota {
    fn default() -> (q: Self)
        ensures
            q.instructions == 0,
    {
        ExecutionQuota { instructions: 0 }
    }
}

/// The virtual machine between runs.
#[derive(Debug)]
pub struct Machine {
    pub config: FormLogicConfig,
    pub enforce_limits: bool,
    pub quota: ExecutionQuota,
    pub instructions: Rc<Vec<u8>>,
    pub constants: Rc<Vec<Object>>,
    pub ip: usize,
    pub register_count: u16,
    pub max_stack_depth: usize,
    pub inline_cache: Vec<(u32, u32)>,
    pub heap: Heap,
    pub globals: Globals,
    pub stack: Vec<Value>,
    pub sp: usize,
    pub locals: Vec<Object>,
    pub frames: Vec<Frame>,
    pub last_popped: Option<Value>,
    pub arg_buffer: Vec<Value>,
    /// Handlers registered for window events.
    pub event_listeners: Vec<Vec<Value>>,
    /// Callbacks that wait for the host, by call.
    pub host_callback_ids: Vec<u32>,
    pub host_callbacks: Vec<Value>,
    pub pending_host_calls: Vec<PendingHostCall>,
    /// Constants that were converted to values already.
    pub constants_values_cache: Vec<Vec<Value>>,
    pub constants_values_buf: Vec<Value>,
    pub locals_pool: Vec<Vec<Object>>,
    pub new_target: Value,
    pub typeof_values: TypeofValues,
}

// Roots

pub open spec fn value_lists_ok(v: Seq<Vec<Value>>, r: Rule) -> bool {
    forall|i: int| 0 <= i < v.len() ==> values_ok((#[trigger] v[i])@, r)
}

pub open spec fn object_lists_ok(v: Seq<Vec<Object>>, r: Rule) -> bool {
    forall|i: int| 0 <= i < v.len() ==> objects_ok(#[trigger] v[i], r)
}

pub open spec fn frame_ok(f: Frame, r: Rule) -> bool {
    objects_ok(f.locals, r) && objects_ok(*f.constants, r)
}

pub open spec fn frames_ok(v: Seq<Frame>, r: Rule) -> bool {
    forall|i: int| 0 <= i < v.len() ==> frame_ok(#[trigger] v[i], r)
}

pub open spec fn typeof_ok(t: TypeofValues, r: Rule) -> bool {
    &&& value_ok(t.undefined, r)
    &&& value_ok(t.number, r)
    &&& value_ok(t.string, r)
    &&& value_ok(t.boolean, r)
    &&& value_ok(t.function, r)
    &&& value_ok(t.object, r)
}

/// The cache of property lookups of code that has not run.
pub open spec fn fresh_cache(num_cache_slots: u16) -> Seq<(u32, u32)> {
    Seq::new(num_cache_slots as nat, |i: int| (0u32, 0u32))
}

/// Whether a machine is about to run code for the first time.
pub open spec fn is_ready(
    m: Machine,
    instructions: Rc<Vec<u8>>,
    constants: Rc<Vec<Object>>,
    num_cache_slots: u16,
    max_stack_depth: u16,
    register_count: u16,
    config: FormLogicConfig,
) -> bool {
    &&& m.wf()
    &&& m.config == config
    &&& m.enforce_limits == (config.max_instructions is Some || config.max_wall_time_ms is Some)
    &&& m.quota.instructions == 0
    &&& m.instructions == instructions
    &&& m.constants == constants
    &&& m.ip == 0
    &&& m.register_count == register_count
    &&& m.max_stack_depth == max_stack_depth
    &&& m.inline_cache@ == fresh_cache(num_cache_slots)
    &&& m.heap.objects@.len() == 0
    &&& m.heap.free@.len() == 0
    &&& m.globals@ == GlobalsView::empty()
    &&& m.stack@.len() == 0
    &&& m.sp == 0
    &&& m.locals@.len() == 0
    &&& m.frames@.len() == 0
    &&& m.last_popped is None
    &&& m.event_listeners@.len() == 0
    &&& m.host_callback_ids@.len() == 0
    &&& m.host_callbacks@.len() == 0
    &&& m.pending_host_calls@.len() == 0
    &&& m.arg_buffer@.len() == 0
    &&& m.constants_values_cache@.len() == 0
    &&& m.constants_values_buf@.len() == 0
    &&& m.locals_pool@.len() == 0
    &&& m.new_target is Undefined
    &&& m.typeof_values.undefined is Undefined
    &&& m.typeof_values.number is Undefined
    &&& m.typeof_values.string is Undefined
    &&& m.typeof_values.boolean is Undefined
    &&& m.typeof_values.function is Undefined
    &&& m.typeof_values.object is Undefined
}

/// Whether everything that the machine refers to meets a rule.
pub open spec fn machine_ok(m: Machine, r: Rule) -> bool {
    &&& values_ok(m.globals@.slots, r)
    &&& values_ok(m.stack@.take(m.sp as int), r)
    &&& objects_ok(m.locals, r)
    &&& frames_ok(m.frames@, r)
    &&& objects_ok(*m.constants, r)
    &&& match m.last_popped {
        Some(v) => value_ok(v, r),
        None => true,
    }
    &&& values_ok(m.arg_buffer@, r)
    &&& value_lists_ok(m.event_listeners@, r)
    &&& values_ok(m.host_callbacks@, r)
    &&& value_lists_ok(m.constants_values_cache@, r)
    &&& values_ok(m.constants_values_buf@, r)
    &&& object_lists_ok(m.locals_pool@, r)
    &&& value_ok(m.new_target, r)
    &&& typeof_ok(m.typeof_values, r)
}

/// Everything that the machine refers to.
pub open spec fn machine_part(m: Machine) -> spec_fn(Rule) -> bool {
    |r: Rule| machine_ok(m, r)
}

spec fn value_lists_part(v: Seq<Vec<Value>>) -> spec_fn(Rule) -> bool {
    |r: Rule| value_lists_ok(v, r)
}

spec fn object_lists_part(v: Seq<Vec<Object>>) -> spec_fn(Rule) -> bool {
    |r: Rule| object_lists_ok(v, r)
}

spec fn frame_part(f: Frame) -> spec_fn(Rule) -> bool {
    |r: Rule| frame_ok(f, r)
}

spec fn frames_part(v: Seq<Frame>) -> spec_fn(Rule) -> bool {
    |r: Rule| frames_ok(v, r)
}

spec fn typeof_part(t: TypeofValues) -> spec_fn(Rule) -> bool {
    |r: Rule| typeof_ok(t, r)
}

spec fn value_lists(v: Seq<Vec<Value>>) -> spec_fn(int) -> spec_fn(Rule) -> bool {
    |k: int| values_part(v[k]@)
}

spec fn object_lists(v: Seq<Vec<Object>>) -> spec_fn(int) -> spec_fn(Rule) -> bool {
    |k: int| objects_part(v[k])
}

spec fn frame_list(v: Seq<Frame>) -> spec_fn(int) -> spec_fn(Rule) -> bool {
    |k: int| frame_part(v[k])
}

fn mark_value_lists(v: &Vec<Vec<Value>>, reachable: &mut Vec<bool>, heap: &Heap)
    requires
        old(reachable)@.len() == heap.objects@.len(),
    ensures
        marks(heap.objects@, old(reachable)@, final(reachable)@, value_lists_part(v@)),
{
    let ghost objects = heap.objects@;
    let ghost before = reachable@;
    let ghost list = value_lists(v@);
    proof {
        lemma_nothing(objects, before);
        lemma_same_part(objects, before, before, nothing(), upto(list, 0));
    }
    let mut i: usize = 0;
    while i < v.len()
        invariant
            0 <= i <= v@.len(),
            objects == heap.objects@,
            before.len() == objects.len(),
            before == old(reachable)@,
            list == value_lists(v@),
            marks(objects, before, reachable@, upto(list, i as int)),
        decreases v@.len() - i,
    {
        let ghost middle = reachable@;
        mark_values(&v[i], reachable, heap);
        proof {
            lemma_next_part(objects, before, middle, reachable@, list, i as int);
        }
        i += 1;
    }
    proof {
        assert forall|r: Rule| #[trigger] upto(list, v@.len() as int)(r) == value_lists_part(v@)(r) by {
            if value_lists_part(v@)(r) {
                assert forall|k: int| 0 <= k < v@.len() implies #[trigger] list(k)(r) by {}
            }
            if upto(list, v@.len() as int)(r) {
                assert forall|k: int| 0 <= k < v@.len() implies values_ok(
                    (#[trigger] v@[k])@,
                    r,
                ) by {
                    assert(list(k)(r));
                }
            }
        }
        lemma_same_part(objects, before, reachable@, upto(list, v@.len() as int), value_lists_part(v@));
    }
}

fn mark_object_lists(v: &Vec<Vec<Object>>, reachable: &mut Vec<bool>, heap: &Heap)
    requires
        old(reachable)@.len() == heap.objects@.len(),
    ensures
        marks(heap.objects@, old(reachable)@, final(reachable)@, object_lists_part(v@)),
{
    let ghost objects = heap.objects@;
    let ghost before = reachable@;
    let ghost list = object_lists(v@);
    proof {
        lemma_nothing(objects, before);
        lemma_same_part(objects, before, before, nothing(), upto(list, 0));
    }
    let mut i: usize = 0;
    while i < v.len()
        invariant
            0 <= i <= v@.len(),
            objects == heap.objects@,
            before.len() == objects.len(),
            before == old(reachable)@,
            list == object_lists(v@),
            marks(objects, before, reachable@, upto(list, i as int)),
        decreases v@.len() - i,
    {
        let ghost middle = reachable@;
        mark_objects(&v[i], reachable, heap);
        proof {
            lemma_next_part(objects, before, middle, reachable@, list, i as int);
        }
        i += 1;
    }
    proof {
        assert forall|r: Rule| #[trigger] upto(list, v@.len() as int)(r) == object_lists_part(v@)(r) by {
            if object_lists_part(v@)(r) {
                assert forall|k: int| 0 <= k < v@.len() implies #[trigger] list(k)(r) by {}
            }
            if upto(list, v@.len() as int)(r) {
                assert forall|k: int| 0 <= k < v@.len() implies objects_ok(#[trigger] v@[k], r) by {
                    assert(list(k)(r));
                }
            }
        }
        lemma_same_part(objects, before, reachable@, upto(list, v@.len() as int), object_lists_part(v@));
    }
}

fn mark_frame(f: &Frame, reachable: &mut Vec<bool>, heap: &Heap)
    requires
        old(reachable)@.len() == heap.objects@.len(),
    ensures
        marks(heap.objects@, old(reachable)@, final(reachable)@, frame_part(*f)),
{
    let ghost objects = heap.objects@;
    let ghost m0 = reachable@;
    mark_objects(&f.locals, reachable, heap);
    let ghost m1 = reachable@;
    let ghost p1 = objects_part(f.locals);
    let constants: &Vec<Object> = &f.constants;
    mark_objects(constants, reachable, heap);
    let ghost m2 = reachable@;
    let ghost p2 = both(p1, objects_part(*constants));
    proof {
        lemma_then(objects, m0, m1, m2, p1, objects_part(*constants));
    }
    proof {
        assert forall|r: Rule| #[trigger] p2(r) == frame_part(*f)(r) by {}
        lemma_same_part(objects, m0, reachable@, p2, frame_part(*f));
    }
}

fn mark_frames(v: &Vec<Frame>, reachable: &mut Vec<bool>, heap: &Heap)
    requires
        old(reachable)@.len() == heap.objects@.len(),
    ensures
        marks(heap.objects@, old(reachable)@, final(reachable)@, frames_part(v@)),
{
    let ghost objects = heap.objects@;
    let ghost before = reachable@;
    let ghost list = frame_list(v@);
    proof {
        lemma_nothing(objects, before);
        lemma_same_part(objects, before, before, nothing(), upto(list, 0));
    }
    let mut i: usize = 0;
    while i < v.len()
        invariant
            0 <= i <= v@.len(),
            objects == heap.objects@,
            before.len() == objects.len(),
            before == old(reachable)@,
            list == frame_list(v@),
            marks(objects, before, reachable@, upto(list, i as int)),
        decreases v@.len() - i,
    {
        let ghost middle = reachable@;
        mark_frame(&v[i], reachable, heap);
        proof {
            lemma_next_part(objects, before, middle, reachable@, list, i as int);
        }
        i += 1;
    }
    proof {
        assert forall|r: Rule| #[trigger] upto(list, v@.len() as int)(r) == frames_part(v@)(r) by {
            if frames_part(v@)(r) {
                assert forall|k: int| 0 <= k < v@.len() implies #[trigger] list(k)(r) by {}
            }
            if upto(list, v@.len() as int)(r) {
                assert forall|k: int| 0 <= k < v@.len() implies frame_ok(#[trigger] v@[k], r) by {
                    assert(list(k)(r));
                }
            }
        }
        lemma_same_part(objects, before, reachable@, upto(list, v@.len() as int), frames_part(v@));
    }
}

fn mark_typeof_values(t: &TypeofValues, reachable: &mut Vec<bool>, heap: &Heap)
    requires
        old(reachable)@.len() == heap.objects@.len(),
    ensures
        marks(heap.objects@, old(reachable)@, final(reachable)@, typeof_part(*t)),
{
    let ghost objects = heap.objects@;
    let ghost m0 = reachable@;
    mark_value(&t.undefined, reachable, heap);
    let ghost m1 = reachable@;
    let ghost p1 = value_part(t.undefined);
    mark_value(&t.number, reachable, heap);
    let ghost m2 = reachable@;
    let ghost p2 = both(p1, value_part(t.number));
    proof {
        lemma_then(objects, m0, m1, m2, p1, value_part(t.number));
    }
    mark_value(&t.string, reachable, heap);
    let ghost m3 = reachable@;
    let ghost p3 = both(p2, value_part(t.string));
    proof {
        lemma_then(objects, m0, m2, m3, p2, value_part(t.string));
    }
    mark_value(&t.boolean, reachable, heap);
    let ghost m4 = reachable@;
    let ghost p4 = both(p3, value_part(t.boolean));
    proof {
        lemma_then(objects, m0, m3, m4, p3, value_part(t.boolean));
    }
    mark_value(&t.function, reachable, heap);
    let ghost m5 = reachable@;
    let ghost p5 = both(p4, value_part(t.function));
    proof {
        lemma_then(objects, m0, m4, m5, p4, value_part(t.function));
    }
    mark_value(&t.object, reachable, heap);
    let ghost m6 = reachable@;
    let ghost p6 = both(p5, value_part(t.object));
    proof {
        lemma_then(objects, m0, m5, m6, p5, value_part(t.object));
    }
    proof {
        assert forall|r: Rule| #[trigger] p6(r) == typeof_part(*t)(r) by {}
        lemma_same_part(objects, m0, reachable@, p6, typeof_part(*t));
    }
}

spec fn stack_list(v: Seq<Value>) -> spec_fn(int) -> spec_fn(Rule) -> bool {
    |k: int| value_part(v[k])
}

impl Machine {
    /// The stack pointer lies within the stack, and the heap is in order.
    pub open spec fn wf(self) -> bool {
        &&& self.sp <= self.stack@.len()
        &&& self.heap.wf()
        &&& self.heap.objects@.len() <= u32::MAX
    }

    /// A machine that is about to run code.
    pub fn new(
        instructions: Rc<Vec<u8>>,
        constants: Rc<Vec<Object>>,
        num_cache_slots: u16,
        max_stack_depth: u16,
        register_count: u16,
        config: FormLogicConfig,
    ) -> (m: Self)
        ensures
            is_ready(
                m,
                instructions,
                constants,
                num_cache_slots,
                max_stack_depth,
                register_count,
                config,
            ),
    {
        let none = Value::Undefined;
        let m = Machine {
            config,
            enforce_limits: config.max_instructions.is_some() || config.max_wall_time_ms.is_some(),
            quota: ExecutionQuota { instructions: 0 },
            instructions,
            constants,
            ip: 0,
            register_count,
            max_stack_depth: max_stack_depth as usize,
            inline_cache: crate::compiler::empty_cache(num_cache_slots),
            heap: Heap::new(),
            globals: Globals::new(),
            stack: Vec::new(),
            sp: 0,
            locals: Vec::new(),
            frames: Vec::new(),
            last_popped: None,
            arg_buffer: Vec::new(),
            event_listeners: Vec::new(),
            host_callback_ids: Vec::new(),
            host_callbacks: Vec::new(),
            pending_host_calls: Vec::new(),
            constants_values_cache: Vec::new(),
            constants_values_buf: Vec::new(),
            locals_pool: Vec::new(),
            new_target: none,
            typeof_values: TypeofValues {
                undefined: none,
                number: none,
                string: none,
                boolean: none,
                function: none,
                object: none,
            },
        };
        assert(m.inline_cache@ =~= fresh_cache(num_cache_slots));
        m
    }

    /// Mark what the stack refers to.
    fn mark_stack(&self, reachable: &mut Vec<bool>)
        requires
            self.wf(),
            old(reachable)@.len() == self.heap.objects@.len(),
        ensures
            marks(
                self.heap.objects@,
                old(reachable)@,
                final(reachable)@,
                values_part(self.stack@.take(self.sp as int)),
            ),
    {
        let ghost objects = self.heap.objects@;
        let ghost before = reachable@;
        let ghost used = self.stack@.take(self.sp as int);
        let ghost list = stack_list(used);
        proof {
            lemma_nothing(objects, before);
            lemma_same_part(objects, before, before, nothing(), upto(list, 0));
        }
        let mut i: usize = 0;
        while i < self.sp
            invariant
                0 <= i <= self.sp,
                self.wf(),
                used == self.stack@.take(self.sp as int),
                objects == self.heap.objects@,
                before.len() == objects.len(),
                before == old(reachable)@,
                list == stack_list(used),
                marks(objects, before, reachable@, upto(list, i as int)),
            decreases self.sp - i,
        {
            let ghost middle = reachable@;
            mark_value(&self.stack[i], reachable, &self.heap);
            proof {
                assert(used[i as int] == self.stack@[i as int]);
                lemma_next_part(objects, before, middle, reachable@, list, i as int);
            }
            i += 1;
        }
        proof {
            let part = values_part(used);
            assert forall|r: Rule| #[trigger] upto(list, used.len() as int)(r) == part(r) by {
                if part(r) {
                    assert forall|k: int| 0 <= k < used.len() implies #[trigger] list(k)(r) by {}
                }
                if upto(list, used.len() as int)(r) {
                    assert forall|k: int| 0 <= k < used.len() implies value_ok(
                        #[trigger] used[k],
                        r,
                    ) by {
                        assert(list(k)(r));
                    }
                }
            }
            lemma_same_part(objects, before, reachable@, upto(list, used.len() as int), part);
        }
    }

    /// Mark what the machine refers to.
    fn mark_roots(&self, reachable: &mut Vec<bool>)
        requires
            self.wf(),
            old(reachable)@.len() == self.heap.objects@.len(),
        ensures
            marks(
                self.heap.objects@,
                old(reachable)@,
                final(reachable)@,
                machine_part(*self),
            ),
    {
        let ghost objects = self.heap.objects@;
        let ghost m0 = reachable@;
        mark_values(self.globals.all(), reachable, &self.heap);
        let ghost m1 = reachable@;
        let ghost p1 = values_part(self.globals@.slots);
        self.mark_stack(reachable);
        let ghost m2 = reachable@;
        let ghost p2 = both(p1, values_part(self.stack@.take(self.sp as int)));
        proof {
            lemma_then(objects, m0, m1, m2, p1, values_part(self.stack@.take(self.sp as int)));
        }
        mark_objects(&self.locals, reachable, &self.heap);
        let ghost m3 = reachable@;
        let ghost p3 = both(p2, objects_part(self.locals));
        proof {
            lemma_then(objects, m0, m2, m3, p2, objects_part(self.locals));
        }
        mark_frames(&self.frames, reachable, &self.heap);
        let ghost m4 = reachable@;
        let ghost p4 = both(p3, frames_part(self.frames@));
        proof {
            lemma_then(objects, m0, m3, m4, p3, frames_part(self.frames@));
        }
        let constants: &Vec<Object> = &self.constants;
        mark_objects(constants, reachable, &self.heap);
        let ghost m5 = reachable@;
        let ghost p5 = both(p4, objects_part(*constants));
        proof {
            lemma_then(objects, m0, m4, m5, p4, objects_part(*constants));
        }
        mark_maybe_value(&self.last_popped, reachable, &self.heap);
        let ghost m6 = reachable@;
        let ghost p6 = both(p5, maybe_value_part(self.last_popped));
        proof {
            lemma_then(objects, m0, m5, m6, p5, maybe_value_part(self.last_popped));
        }
        mark_values(&self.arg_buffer, reachable, &self.heap);
        let ghost m7 = reachable@;
        let ghost p7 = both(p6, values_part(self.arg_buffer@));
        proof {
            lemma_then(objects, m0, m6, m7, p6, values_part(self.arg_buffer@));
        }
        mark_value_lists(&self.event_listeners, reachable, &self.heap);
        let ghost m8 = reachable@;
        let ghost p8 = both(p7, value_lists_part(self.event_listeners@));
        proof {
            lemma_then(objects, m0, m7, m8, p7, value_lists_part(self.event_listeners@));
        }
        mark_values(&self.host_callbacks, reachable, &self.heap);
        let ghost m9 = reachable@;
        let ghost p9 = both(p8, values_part(self.host_callbacks@));
        proof {
            lemma_then(objects, m0, m8, m9, p8, values_part(self.host_callbacks@));
        }
        mark_value_lists(&self.constants_values_cache, reachable, &self.heap);
        let ghost m10 = reachable@;
        let ghost p10 = both(p9, value_lists_part(self.constants_values_cache@));
        proof {
            lemma_then(objects, m0, m9, m10, p9, value_lists_part(self.constants_values_cache@));
        }
        mark_values(&self.constants_values_buf, reachable, &self.heap);
        let ghost m11 = reachable@;
        let ghost p11 = both(p10, values_part(self.constants_values_buf@));
        proof {
            lemma_then(objects, m0, m10, m11, p10, values_part(self.constants_values_buf@));
        }
        mark_object_lists(&self.locals_pool, reachable, &self.heap);
        let ghost m12 = reachable@;
        let ghost p12 = both(p11, object_lists_part(self.locals_pool@));
        proof {
            lemma_then(objects, m0, m11, m12, p11, object_lists_part(self.locals_pool@));
        }
        mark_value(&self.new_target, reachable, &self.heap);
        let ghost m13 = reachable@;
        let ghost p13 = both(p12, value_part(self.new_target));
        proof {
            lemma_then(objects, m0, m12, m13, p12, value_part(self.new_target));
        }
        mark_typeof_values(&self.typeof_values, reachable, &self.heap);
        let ghost m14 = reachable@;
        let ghost p14 = both(p13, typeof_part(self.typeof_values));
        proof {
            lemma_then(objects, m0, m13, m14, p13, typeof_part(self.typeof_values));
        }
        proof {
            assert forall|r: Rule| #[trigger] p14(r) == machine_part(*self)(r) by {}
            lemma_same_part(objects, m0, reachable@, p14, machine_part(*self));
        }
    }

    /// Free the objects of the heap that the machine no longer refers to,
    /// directly or through others.
    ///
    /// During a run, objects are only added to the heap; this is what frees
    /// them. The constants that were converted to values are forgotten; they
    /// are converted again when they are needed.
    pub fn gc_collect(&mut self)
        requires
            old(self).wf(),
        ensures
            final(self).wf(),
            *final(self) == (Machine {
                heap: final(self).heap,
                constants_values_cache: final(self).constants_values_cache,
                ..*old(self)
            }),
            old(self).heap.objects@.len() == 0 ==> *final(self) == *old(self),
            old(self).heap.objects@.len() > 0 ==> final(self).constants_values_cache@.len() == 0
                && exists|m: Seq<bool>| #[trigger]
                is_collected(*old(self), m, final(self).heap),
    {
        let heap_len: usize = self.heap.objects.len();
        if heap_len == 0 {
            return ;
        }
        let mut reachable = unmarked_positions(heap_len);
        let ghost none = reachable@;
        self.mark_roots(&mut reachable);
        self.constants_values_cache = Vec::new();
        self.heap.sweep(&reachable);
        proof {
            law_marking_settles(
                old(self).heap.objects@,
                none,
                reachable@,
                machine_part(*old(self)),
            );
            assert(is_collected(*old(self), reachable@, self.heap));
            lemma_used_within(swept(old(self).heap.objects@, reachable@));
        }
    }
}

/// No marks.
pub open spec fn no_marks(n: nat) -> Seq<bool> {
    Seq::new(n, |i: int| false)
}

fn unmarked_positions(n: usize) -> (v: Vec<bool>)
    ensures
        v@ == no_marks(n as nat),
{
    let mut v: Vec<bool> = Vec::new();
    let mut i: usize = 0;
    while i < n
        invariant
            0 <= i <= n,
            v@ =~= no_marks(i as nat),
        decreases n - i,
    {
        v.push(false);
        i += 1;
    }
    v
}

/// Whether a heap is what a collection leaves of a machine's heap, for the marks
/// `m`: what the machine refers to is marked, directly or through others, and
/// nothing else; what is not marked is freed.
pub open spec fn is_collected(before: Machine, m: Seq<bool>, after: Heap) -> bool {
    let objects = before.heap.objects@;
    let all = swept(objects, m);
    let list = freed(objects, m, objects.len() as int);
    &&& marks(objects, no_marks(objects.len()), m, machine_part(before))
    &&& after.objects@ == all.take(used_length(all))
    &&& after.free@ == positions_below(list, used_length(all), list.len() as int)
}

proof fn lemma_values_safe(v: Seq<Value>, objects: Seq<Object>, m: Seq<bool>)
    requires
        values_ok(v, cover_rule(objects, m)),
    ensures
        values_ok(v, safe_rule(objects, m)),
{
    assert forall|i: int| 0 <= i < v.len() implies value_ok(
        #[trigger] v[i],
        safe_rule(objects, m),
    ) by {
        assert(value_ok(v[i], cover_rule(objects, m)));
    }
}

proof fn lemma_value_lists_safe(v: Seq<Vec<Value>>, objects: Seq<Object>, m: Seq<bool>)
    requires
        value_lists_ok(v, cover_rule(objects, m)),
    ensures
        value_lists_ok(v, safe_rule(objects, m)),
{
    assert forall|i: int| 0 <= i < v.len() implies values_ok(
        (#[trigger] v[i])@,
        safe_rule(objects, m),
    ) by {
        lemma_values_safe(v[i]@, objects, m);
    }
}

proof fn lemma_machine_safe(machine: &Machine, objects: Seq<Object>, m: Seq<bool>)
    requires
        is_settled(objects, m),
        machine_ok(*machine, cover_rule(objects, m)),
    ensures
        machine_ok(*machine, safe_rule(objects, m)),
{
    lemma_values_safe(machine.globals@.slots, objects, m);
    lemma_values_safe(machine.stack@.take(machine.sp as int), objects, m);
    lemma_objects_safe(&machine.locals, objects, m);
    assert forall|i: int| 0 <= i < machine.frames@.len() implies frame_ok(
        #[trigger] machine.frames@[i],
        safe_rule(objects, m),
    ) by {
        lemma_objects_safe(&machine.frames@[i].locals, objects, m);
        lemma_objects_safe(&machine.frames@[i].constants, objects, m);
    }
    lemma_objects_safe(&machine.constants, objects, m);
    lemma_values_safe(machine.arg_buffer@, objects, m);
    lemma_value_lists_safe(machine.event_listeners@, objects, m);
    lemma_values_safe(machine.host_callbacks@, objects, m);
    lemma_value_lists_safe(machine.constants_values_cache@, objects, m);
    lemma_values_safe(machine.constants_values_buf@, objects, m);
    assert forall|i: int| 0 <= i < machine.locals_pool@.len() implies objects_ok(
        #[trigger] machine.locals_pool@[i],
        safe_rule(objects, m),
    ) by {
        lemma_objects_safe(&machine.locals_pool@[i], objects, m);
    }
}

/// Everything that the machine refers to, and everything that objects which are
/// kept refer to, is kept; so is each object of the heap that is nested in these.
pub proof fn law_collection_keeps_what_is_referred_to(before: Machine, m: Seq<bool>, after: Heap)
    requires
        is_collected(before, m, after),
    ensures
        machine_ok(before, safe_rule(before.heap.objects@, m)),
        forall|k: int|
            0 <= k < m.len() && m[k] ==> object_ok(
                #[trigger] before.heap.objects@[k],
                safe_rule(before.heap.objects@, m),
            ),
        forall|k: int|
            0 <= k < m.len() && m[k] && !(#[trigger] before.heap.objects@[k] is Null) ==> k
                < after.objects@.len() && after.objects@[k] == before.heap.objects@[k],
{
    let objects = before.heap.objects@;
    law_marking_settles(objects, no_marks(objects.len()), m, machine_part(before));
    lemma_machine_safe(&before, objects, m);
    assert forall|k: int| 0 <= k < m.len() && m[k] implies object_ok(
        #[trigger] objects[k],
        safe_rule(objects, m),
    ) by {
        law_marked_objects_refer_to_marked_ones(objects, m, k);
    }
    lemma_used_within(swept(objects, m));
    assert forall|k: int| 0 <= k < m.len() && m[k] && !(#[trigger] objects[k] is Null) implies k
        < after.objects@.len() && after.objects@[k] == objects[k] by {
        law_sweep_keeps_marked_objects(objects, m, k);
    }
}

/// What the machine and its objects do not refer to is not kept: whatever set of
/// positions holds all that the machine refers to and is closed holds all marked
/// ones.
pub proof fn law_collection_marks_nothing_else(
    before: Machine,
    m: Seq<bool>,
    after: Heap,
    c: Set<int>,
    k: int,
)
    requires
        is_collected(before, m, after),
        is_closed(before.heap.objects@, c),
        machine_ok(before, within_rule(before.heap.objects@, c)),
        0 <= k < m.len(),
        m[k],
    ensures
        c.contains(k),
{
    let objects = before.heap.objects@;
    assert(machine_part(before)(within_rule(objects, c)));
    assert(new_ones_within(no_marks(objects.len()), m, c));
}

} // verus!
