//! Runtime objects: what constants, arrays, hashes, functions and classes are
//! made of.
//!
//! Numbers with a fractional part are held by their IEEE-754 bit pattern.
use std::rc::Rc;

use vstd::prelude::*;

use crate::hash::{hash_view, HashObject, HashView};
use crate::key::HashKey;
use crate::names::{lemma_items_decrease, NameMap, Names};
use crate::value::Value;

verus! {

/// A cell whose contents are shared between the objects that hold it.
#[derive(Clone, Debug)]
pub struct VmCell<T> {
    pub value: T,
}

impl<T> VmCell<T> {
    pub fn new(value: T) -> (r: Self)
        ensures
            r.value == value,
    {
        VmCell { value }
    }

    pub fn borrow(&self) -> (r: &T)
        ensures
            *r == self.value,
    {
        &self.value
    }

    pub fn borrow_mut(&mut self) -> (r: &mut T)
        ensures
            *r == old(self).value,
            final(self).value == *final(r),
    {
        &mut self.value
    }

    pub fn into_inner(self) -> (r: T)
        ensures
            r == self.value,
    {
        self.value
    }
}

#[derive(Clone, Copy, Debug, PartialEq, Eq, Structural, Hash)]
pub enum ObjectType {
    Integer,
    Float,
    Boolean,
    Null,
    Undefined,
    ReturnValue,
    Error,
    Function,
    String,
    Builtin,
    Module,
    Array,
    Hash,
    CompiledFunction,
    Closure,
    Promise,
    Symbol,
    Accessor,
    PropertyDescriptor,
    SuperObject,
    Iterator,
    Cell,
    Regexp,
    JsMap,
    JsSet,
    WeakMap,
    WeakSet,
    Class,
    Instance,
    BoundMethod,
    SuperRef,
    Generator,
}

#[derive(Debug)]
pub enum Object {
    Integer(i64),
    Float(u64),
    Boolean(bool),
    Null,
    Undefined,
    String(String),
    RegExp(Box<RegExpObject>),
    JsMap(Box<MapObject>),
    JsSet(Box<SetObject>),
    Array(Rc<VmCell<Vec<Value>>>),
    Hash(Rc<VmCell<HashObject>>),
    CompiledFunction(Box<CompiledFunctionObject>),
    Class(Box<ClassObject>),
    BuiltinFunction(Box<BuiltinFunctionObject>),
    Instance(Box<InstanceObject>),
    BoundMethod(Box<BoundMethodObject>),
    SuperRef(Box<SuperRefObject>),
    Promise(Box<PromiseObject>),
    Generator(Rc<VmCell<GeneratorObject>>),
    /// A unique symbol value with an optional description and a unique ID.
    Symbol(u32, Option<String>),
    ReturnValue(Box<Object>),
    Error(Box<ErrorObject>),
}

#[derive(Clone, Debug)]
pub struct ErrorObject {
    pub name: String,
    pub message: String,
}

#[derive(Clone, Copy, Debug, PartialEq, Eq, Structural)]
pub enum BuiltinFunction {
    MathAbs,
    MathFloor,
    MathCeil,
    MathRound,
    MathMin,
    MathMax,
    MathPow,
    MathSqrt,
    MathTrunc,
    MathSign,
    MathRandom,
    MathLog,
    MathLog2,
    MathCbrt,
    MathSin,
    MathCos,
    MathTan,
    MathExp,
    MathLog10,
    MathAtan2,
    MathHypot,
    MathImul,
    MathClz32,
    MathFround,
    StringCtor,
    NumberCtor,
    StringFromCharCode,
    StringCharAt,
    StringSplit,
    StringIncludes,
    StringSlice,
    StringToUpperCase,
    StringToLowerCase,
    StringTrim,
    StringStartsWith,
    StringEndsWith,
    StringIndexOf,
    StringLastIndexOf,
    StringSubstring,
    StringRepeat,
    StringPadStart,
    StringPadEnd,
    StringCharCodeAt,
    StringReplace,
    StringReplaceAll,
    NumberToFixed,
    NumberToPrecision,
    NumberToString,
    ParseInt,
    ParseFloat,
    IsNaN,
    IsFinite,
    NumberIsNaN,
    NumberIsFinite,
    NumberIsInteger,
    NumberIsSafeInteger,
    ObjectKeys,
    ObjectValues,
    ObjectEntries,
    ObjectFromEntries,
    ObjectHasOwn,
    ObjectIs,
    ObjectAssign,
    ObjectFreeze,
    ObjectCreate,
    ArrayOf,
    HashHasOwnProperty,
    JsonStringify,
    JsonParse,
    PromiseResolve,
    PromiseReject,
    ArrayMap,
    ArrayForEach,
    ArrayFlatMap,
    ArrayFlat,
    ArrayReverse,
    ArraySome,
    ArrayEvery,
    ArrayFindIndex,
    ArrayIndexOf,
    ArrayLastIndexOf,
    ArrayPop,
    ArrayPush,
    ArraySort,
    ArrayFilter,
    ArrayReduce,
    ArrayReduceRight,
    ArrayFind,
    ArrayIncludes,
    ArrayJoin,
    ArrayToString,
    ArrayValueOf,
    ArraySlice,
    ArrayAt,
    ArrayToSorted,
    ArrayWith,
    ArrayKeys,
    ArrayValues,
    ArrayEntries,
    ArrayShift,
    ArrayUnshift,
    ArraySplice,
    ArrayConcat,
    ArrayFrom,
    ArrayIsArray,
    ArrayFill,
    ArrayCopyWithin,
    ArrayFindLast,
    ArrayFindLastIndex,
    ArrayToReversed,
    RegExpCtor,
    RegExpTest,
    RegExpExec,
    StringMatch,
    StringMatchAll,
    StringSearch,
    StringConcat,
    StringTrimStart,
    StringTrimEnd,
    StringFromCodePoint,
    MapCtor,
    MapSet,
    MapGet,
    MapHas,
    MapDelete,
    MapClear,
    MapKeys,
    MapValues,
    MapEntries,
    MapForEach,
    SetCtor,
    SetAdd,
    SetHas,
    SetDelete,
    SetClear,
    SetKeys,
    SetValues,
    SetEntries,
    SetForEach,
    SymbolCtor,
    GeneratorNext,
    GeneratorReturn,
    GeneratorThrow,
    LocalStorageGetItem,
    LocalStorageSetItem,
    LocalStorageRemoveItem,
    LocalStorageClear,
    DateNow,
    DateToISOString,
    DateGetTime,
    DateGetHours,
    DateGetMinutes,
    DateGetSeconds,
    DateGetMilliseconds,
    DateGetFullYear,
    DateGetMonth,
    DateGetDate,
    DateGetDay,
    DateToLocaleDateString,
    DateToLocaleTimeString,
    DateToLocaleString,
    DateToString,
    DateValueOf,
    DbQuery,
    DbCreate,
    DbUpdate,
    DbDelete,
    DbHardDelete,
    DbGet,
    DbStartSync,
    DbStopSync,
    DbGetSyncStatus,
    DbGetSavedSyncRoom,

    // HTTP bridge
    HttpGet,
    HttpPost,
    HttpPut,
    HttpDelete,

    // FS bridge
    FsReadFile,
    FsWriteFile,
    FsAppendFile,
    FsExists,
    FsListDir,
    FsDeleteFile,
    FsMkdir,

    // Env bridge
    EnvGet,
    EnvKeys,
    EnvLog,

    // Draw bridge
    DrawRect,
    DrawRoundedRect,
    DrawCircle,
    DrawEllipse,
    DrawLine,
    DrawPath,
    DrawText,
    DrawImage,
    DrawLinearGradient,
    DrawRadialGradient,
    DrawShadow,
    DrawPushClip,
    DrawPopClip,
    DrawPushTransform,
    DrawPopTransform,
    DrawPushOpacity,
    DrawPopOpacity,
    DrawArc,
    DrawMeasureText,
    DrawGetViewportWidth,
    DrawGetViewportHeight,

    // Layout bridge
    LayoutCreateNode,
    LayoutUpdateStyle,
    LayoutSetChildren,
    LayoutComputeLayout,
    LayoutGetLayout,
    LayoutRemoveNode,
    LayoutClear,

    // Input bridge
    InputGetMouseX,
    InputGetMouseY,
    InputIsMouseDown,
    InputIsMousePressed,
    InputIsMouseReleased,
    InputGetScrollY,
    InputSetCursor,
    InputGetTextInput,
    InputIsBackspacePressed,
    InputIsEscapePressed,
    InputRequestRedraw,
    InputGetElapsedSecs,
    InputGetPageElapsedSecs,
    InputGetDeltaTime,
    InputGetFocusedInput,
    InputSetFocusedInput,
    InputIsKeyDown,

    // Window event bridge
    WindowAddEventListener,
    WindowRemoveEventListener,
    EventPreventDefault,
    EventStopPropagation,

    // URI encoding
    EncodeURIComponent,
    DecodeURIComponent,
    EncodeURI,
    DecodeURI,

    // Generic host call bridge
    /// host.call(kind, argsArray, callback) - queues an async call to the host.
    HostCall,
    /// host.callSync(kind, argsArray) - synchronous host call, returns JSON result.
    HostCallSync,

    // Error constructor
    ErrorConstructor,
    StringAt,
    StringCodePointAt,
    StringNormalize,
    StringRaw,
    StructuredClone,
}

#[derive(Debug)]
pub struct BuiltinFunctionObject {
    pub function: BuiltinFunction,
    pub receiver: Option<Object>,
}

#[derive(Debug)]
pub struct CompiledFunctionObject {
    pub instructions: Rc<Vec<u8>>,
    pub constants: Rc<Vec<Object>>,
    pub num_locals: usize,
    pub num_parameters: usize,
    pub rest_parameter_index: Option<usize>,
    pub takes_this: bool,
    pub is_async: bool,
    pub is_generator: bool,
    pub num_cache_slots: u16,
    pub max_stack_depth: u16,
    /// Maximum number of registers used by this function.
    pub register_count: u16,
    /// Inline property cache. Entries are `(shape_version, slot_index)` indexed
    /// by `cache_slot`. All clones of a function share the same warm cache.
    pub inline_cache: Rc<VmCell<Vec<(u32, u32)>>>,
    /// Global slot indices that inner closures need to capture at creation time.
    pub closure_captures: Vec<u16>,
    /// Captured global slot values, snapshotted at closure creation time.
    pub captured_values: Vec<CapturedValue>,
}

/// A global slot and the value it held when a closure was made.
#[derive(Clone, Copy, Debug, PartialEq, Eq, Structural)]
pub struct CapturedValue {
    pub slot: u16,
    pub value: Value,
}

#[derive(Debug)]
pub struct PromiseObject {
    pub settled: PromiseState,
}

#[derive(Clone, Debug)]
pub struct RegExpObject {
    pub pattern: String,
    pub flags: String,
}

#[derive(Debug)]
pub struct MapObject {
    pub entries: Rc<VmCell<Vec<(HashKey, Value)>>>,
}

impl Default for MapObject {
    fn default() -> (m: Self)
        ensures
            m.entries.value@.len() == 0,
    {
        MapObject { entries: Rc::new(VmCell::new(Vec::new())) }
    }
}

#[derive(Debug)]
pub struct SetObject {
    pub entries: Rc<VmCell<Vec<HashKey>>>,
}

impl Default for SetObject {
    fn default() -> (m: Self)
        ensures
            m.entries.value@.len() == 0,
    {
        SetObject { entries: Rc::new(VmCell::new(Vec::new())) }
    }
}

#[derive(Debug)]
pub enum PromiseState {
    Fulfilled(Box<Object>),
    Rejected(Box<Object>),
}

/// State of a generator: Created (not yet started), Suspended (yielded),
/// or Completed (returned or threw).
#[derive(Clone, Copy, Debug, PartialEq, Eq, Structural)]
pub enum GeneratorState {
    Created,
    Suspended,
    Completed,
}

/// A generator object created by calling a `function*`: the compiled function
/// and the execution state from which `.next()` resumes it.
#[derive(Debug)]
pub struct GeneratorObject {
    pub function: CompiledFunctionObject,
    /// Saved locals, populated after the first `yield`.
    pub locals: Vec<Object>,
    /// Saved instruction pointer: where to resume.
    pub saved_ip: usize,
    /// Arguments passed to the generator function on initial call.
    pub args: Vec<Value>,
    /// The receiver (`this`) if any.
    pub receiver: Option<Value>,
    pub state: GeneratorState,
}

/// Functions by name.
pub type FunctionTable = NameMap<CompiledFunctionObject>;

/// One level of super methods/getters/setters for multi-level inheritance chains.
#[derive(Debug)]
pub struct SuperLevel {
    pub methods: FunctionTable,
    pub getters: FunctionTable,
    pub setters: FunctionTable,
}

#[derive(Debug)]
pub struct ClassObject {
    pub name: String,
    pub parent_chain: Vec<String>,
    pub constructor: Option<CompiledFunctionObject>,
    pub methods: FunctionTable,
    pub static_methods: FunctionTable,
    pub getters: FunctionTable,
    pub setters: FunctionTable,
    pub super_methods: FunctionTable,
    pub super_getters: FunctionTable,
    pub super_setters: FunctionTable,
    /// Chain of ancestor super levels for multi-level inheritance:
    /// grandparent first, then great-grandparent, and so on.
    pub super_constructor_chain: Vec<SuperLevel>,
    /// Instance field initializers: each is a zero-argument function whose
    /// return value is the field's initial value. Executed in order.
    pub field_initializers: Vec<FieldInitializer>,
    /// Static initializers run once at class definition time, in order.
    pub static_initializers: Vec<StaticInitializer>,
    /// Static field values, populated at class-definition time.
    pub static_fields: NameMap<Object>,
}

/// `name = expr;` in a class body.
#[derive(Debug)]
pub struct FieldInitializer {
    pub name: String,
    pub thunk: CompiledFunctionObject,
}

/// A static initializer: either a field assignment or a static block.
#[derive(Debug)]
pub enum StaticInitializer {
    /// `static name = expr;` where the thunk returns the value to assign.
    Field { name: String, thunk: CompiledFunctionObject },
    /// `static { ... }` where the thunk is executed for side effects.
    Block { thunk: CompiledFunctionObject },
}

#[derive(Debug)]
pub struct InstanceObject {
    pub class_name: String,
    pub parent_chain: Vec<String>,
    pub fields: NameMap<Object>,
    pub methods: FunctionTable,
    pub getters: FunctionTable,
    pub setters: FunctionTable,
    pub super_methods: FunctionTable,
    pub super_getters: FunctionTable,
    pub super_setters: FunctionTable,
    /// Remaining ancestor chain for multi-level super() constructor calls.
    pub super_constructor_chain: Vec<SuperLevel>,
}

#[derive(Debug)]
pub struct BoundMethodObject {
    pub function: CompiledFunctionObject,
    pub receiver: Box<Object>,
}

#[derive(Debug)]
pub struct SuperRefObject {
    pub receiver: Box<Object>,
    pub methods: FunctionTable,
    pub getters: FunctionTable,
    pub setters: FunctionTable,
    /// Remaining ancestor chain so nested super() calls resolve correctly.
    pub constructor_chain: Vec<SuperLevel>,
}

/// What an object holds. Cells that objects share are kept as they are, but for
/// hashes, whose contents matter to compiled code.
#[verifier::ext_equal]
pub enum ObjectView {
    Integer(i64),
    Float(u64),
    Boolean(bool),
    Null,
    Undefined,
    String(Seq<char>),
    RegExp { pattern: Seq<char>, flags: Seq<char> },
    Hash(HashView),
    Function(FunctionView),
    Class(ClassView),
    Builtin(BuiltinFunction, Option<Box<ObjectView>>),
    Instance(InstanceView),
    BoundMethod(FunctionView, Box<ObjectView>),
    SuperRef(SuperRefView),
    Fulfilled(Box<ObjectView>),
    Rejected(Box<ObjectView>),
    ReturnValue(Box<ObjectView>),
    Runtime(Object),
}

/// What a compiled function holds.
#[verifier::ext_equal]
pub struct FunctionView {
    pub instructions: Seq<u8>,
    pub constants: Seq<ObjectView>,
    pub num_locals: usize,
    pub num_parameters: usize,
    pub rest_parameter_index: Option<usize>,
    pub takes_this: bool,
    pub is_async: bool,
    pub is_generator: bool,
    pub num_cache_slots: u16,
    pub max_stack_depth: u16,
    pub register_count: u16,
    pub inline_cache: Seq<(u32, u32)>,
    pub closure_captures: Seq<u16>,
    pub captured_values: Seq<CapturedValue>,
}

/// What one level of an inheritance chain holds.
#[verifier::ext_equal]
pub struct SuperLevelView {
    pub methods: Names<FunctionView>,
    pub getters: Names<FunctionView>,
    pub setters: Names<FunctionView>,
}

/// What a static initializer holds: the field's name, if it sets one, and the
/// function to run.
#[verifier::ext_equal]
pub enum StaticInitializerView {
    Field(Seq<char>, FunctionView),
    Block(FunctionView),
}

/// What a class holds.
#[verifier::ext_equal]
pub struct ClassView {
    pub name: Seq<char>,
    pub parent_chain: Seq<Seq<char>>,
    pub constructor: Option<FunctionView>,
    pub methods: Names<FunctionView>,
    pub static_methods: Names<FunctionView>,
    pub getters: Names<FunctionView>,
    pub setters: Names<FunctionView>,
    pub super_methods: Names<FunctionView>,
    pub super_getters: Names<FunctionView>,
    pub super_setters: Names<FunctionView>,
    pub super_constructor_chain: Seq<SuperLevelView>,
    pub field_initializers: Seq<(Seq<char>, FunctionView)>,
    pub static_initializers: Seq<StaticInitializerView>,
    pub static_fields: Names<ObjectView>,
}

/// What an instance of a class holds.
#[verifier::ext_equal]
pub struct InstanceView {
    pub class_name: Seq<char>,
    pub parent_chain: Seq<Seq<char>>,
    pub fields: Names<ObjectView>,
    pub methods: Names<FunctionView>,
    pub getters: Names<FunctionView>,
    pub setters: Names<FunctionView>,
    pub super_methods: Names<FunctionView>,
    pub super_getters: Names<FunctionView>,
    pub super_setters: Names<FunctionView>,
    pub super_constructor_chain: Seq<SuperLevelView>,
}

/// What a reference to a parent class holds.
#[verifier::ext_equal]
pub struct SuperRefView {
    pub receiver: Box<ObjectView>,
    pub methods: Names<FunctionView>,
    pub getters: Names<FunctionView>,
    pub setters: Names<FunctionView>,
    pub constructor_chain: Seq<SuperLevelView>,
}

pub open spec fn object_view(o: Object) -> ObjectView
    decreases o,
{
    match o {
        Object::Integer(v) => ObjectView::Integer(v),
        Object::Float(bits) => ObjectView::Float(bits),
        Object::Boolean(v) => ObjectView::Boolean(v),
        Object::Null => ObjectView::Null,
        Object::Undefined => ObjectView::Undefined,
        Object::String(s) => ObjectView::String(s@),
        Object::RegExp(r) => ObjectView::RegExp { pattern: r.pattern@, flags: r.flags@ },
        Object::Hash(h) => ObjectView::Hash(hash_view(h.value)),
        Object::CompiledFunction(f) => ObjectView::Function(function_view(*f)),
        Object::Class(c) => ObjectView::Class(class_view(*c)),
        Object::BuiltinFunction(b) => ObjectView::Builtin(
            b.function,
            match b.receiver {
                Some(r) => Some(Box::new(object_view(r))),
                None => None,
            },
        ),
        Object::Instance(i) => ObjectView::Instance(instance_view(*i)),
        Object::BoundMethod(m) => ObjectView::BoundMethod(
            function_view(m.function),
            Box::new(object_view(*m.receiver)),
        ),
        Object::SuperRef(r) => ObjectView::SuperRef(super_ref_view(*r)),
        Object::Promise(p) => match p.settled {
            PromiseState::Fulfilled(v) => ObjectView::Fulfilled(Box::new(object_view(*v))),
            PromiseState::Rejected(v) => ObjectView::Rejected(Box::new(object_view(*v))),
        },
        Object::ReturnValue(v) => ObjectView::ReturnValue(Box::new(object_view(*v))),
        _ => ObjectView::Runtime(o),
    }
}

pub open spec fn instance_view(i: InstanceObject) -> InstanceView
    decreases i,
{
    InstanceView {
        class_name: i.class_name@,
        parent_chain: strings_view(i.parent_chain),
        fields: object_table_view(i.fields),
        methods: function_table_view(i.methods),
        getters: function_table_view(i.getters),
        setters: function_table_view(i.setters),
        super_methods: function_table_view(i.super_methods),
        super_getters: function_table_view(i.super_getters),
        super_setters: function_table_view(i.super_setters),
        super_constructor_chain: super_levels_view(i.super_constructor_chain),
    }
}

pub open spec fn super_ref_view(r: SuperRefObject) -> SuperRefView
    decreases r,
{
    SuperRefView {
        receiver: Box::new(object_view(*r.receiver)),
        methods: function_table_view(r.methods),
        getters: function_table_view(r.getters),
        setters: function_table_view(r.setters),
        constructor_chain: super_levels_view(r.constructor_chain),
    }
}

/// The objects of a table.
pub open spec fn object_table_view(t: NameMap<Object>) -> Names<ObjectView>
    decreases t,
{
    proof {
        assert forall|i: int| 0 <= i < t.items().len() implies decreases_to!(
            t => (#[trigger] t.items()[i]).1
        ) by {
            lemma_items_decrease(t, i);
        }
    }
    Names {
        map: Map::new(
            |name: Seq<char>| t.has(name),
            |name: Seq<char>|
                if 0 <= t.position(name) < t.items().len() {
                    object_view(t.items()[t.position(name)].1)
                } else {
                    arbitrary()
                },
        ),
        order: Seq::new(t.items().len(), |i: int| t.items()[i].0@),
    }
}

pub open spec fn objects_view(v: Vec<Object>) -> Seq<ObjectView>
    decreases v,
{
    Seq::new(
        v@.len(),
        |i: int|
            if 0 <= i < v@.len() {
                object_view(v@[i])
            } else {
                arbitrary()
            },
    )
}

pub open spec fn function_view(f: CompiledFunctionObject) -> FunctionView
    decreases f,
{
    FunctionView {
        instructions: f.instructions@,
        constants: objects_view(*f.constants),
        num_locals: f.num_locals,
        num_parameters: f.num_parameters,
        rest_parameter_index: f.rest_parameter_index,
        takes_this: f.takes_this,
        is_async: f.is_async,
        is_generator: f.is_generator,
        num_cache_slots: f.num_cache_slots,
        max_stack_depth: f.max_stack_depth,
        register_count: f.register_count,
        inline_cache: f.inline_cache.value@,
        closure_captures: f.closure_captures@,
        captured_values: f.captured_values@,
    }
}

pub open spec fn function_table_view(t: FunctionTable) -> Names<FunctionView>
    decreases t,
{
    proof {
        assert forall|i: int| 0 <= i < t.items().len() implies decreases_to!(
            t => (#[trigger] t.items()[i]).1
        ) by {
            lemma_items_decrease(t, i);
        }
    }
    Names {
        map: Map::new(
            |name: Seq<char>| t.has(name),
            |name: Seq<char>|
                if 0 <= t.position(name) < t.items().len() {
                    function_view(t.items()[t.position(name)].1)
                } else {
                    arbitrary()
                },
        ),
        order: Seq::new(t.items().len(), |i: int| t.items()[i].0@),
    }
}

pub open spec fn super_level_view(l: SuperLevel) -> SuperLevelView
    decreases l,
{
    SuperLevelView {
        methods: function_table_view(l.methods),
        getters: function_table_view(l.getters),
        setters: function_table_view(l.setters),
    }
}

pub open spec fn super_levels_view(v: Vec<SuperLevel>) -> Seq<SuperLevelView>
    decreases v,
{
    Seq::new(
        v@.len(),
        |i: int|
            if 0 <= i < v@.len() {
                super_level_view(v@[i])
            } else {
                arbitrary()
            },
    )
}

pub open spec fn field_initializers_view(v: Vec<FieldInitializer>) -> Seq<
    (Seq<char>, FunctionView),
>
    decreases v,
{
    Seq::new(
        v@.len(),
        |i: int|
            if 0 <= i < v@.len() {
                (v@[i].name@, function_view(v@[i].thunk))
            } else {
                arbitrary()
            },
    )
}

pub open spec fn static_initializer_view(s: StaticInitializer) -> StaticInitializerView
    decreases s,
{
    match s {
        StaticInitializer::Field { name, thunk } => StaticInitializerView::Field(
            name@,
            function_view(thunk),
        ),
        StaticInitializer::Block { thunk } => StaticInitializerView::Block(function_view(thunk)),
    }
}

pub open spec fn static_initializers_view(v: Vec<StaticInitializer>) -> Seq<StaticInitializerView>
    decreases v,
{
    Seq::new(
        v@.len(),
        |i: int|
            if 0 <= i < v@.len() {
                static_initializer_view(v@[i])
            } else {
                arbitrary()
            },
    )
}

/// The strings of a vector.
pub open spec fn strings_view(v: Vec<String>) -> Seq<Seq<char>> {
    Seq::new(v@.len(), |i: int| v@[i]@)
}

pub open spec fn class_view(c: ClassObject) -> ClassView
    decreases c,
{
    ClassView {
        name: c.name@,
        parent_chain: strings_view(c.parent_chain),
        constructor: match c.constructor {
            Some(f) => Some(function_view(f)),
            None => None,
        },
        methods: function_table_view(c.methods),
        static_methods: function_table_view(c.static_methods),
        getters: function_table_view(c.getters),
        setters: function_table_view(c.setters),
        super_methods: function_table_view(c.super_methods),
        super_getters: function_table_view(c.super_getters),
        super_setters: function_table_view(c.super_setters),
        super_constructor_chain: super_levels_view(c.super_constructor_chain),
        field_initializers: field_initializers_view(c.field_initializers),
        static_initializers: static_initializers_view(c.static_initializers),
        static_fields: object_table_view(c.static_fields),
    }
}

impl CompiledFunctionObject {
    /// A copy that shares code, constants and cache with this one.
    pub fn dup(&self) -> (r: Self)
        ensures
            function_view(r) == function_view(*self),
            r.instructions == self.instructions,
            r.constants == self.constants,
            r.inline_cache == self.inline_cache,
    {
        let closure_captures = self.closure_captures.clone();
        let captured_values = self.captured_values.clone();
        assert(closure_captures@ =~= self.closure_captures@);
        assert(captured_values@ =~= self.captured_values@);
        CompiledFunctionObject {
            instructions: self.instructions.clone(),
            constants: self.constants.clone(),
            num_locals: self.num_locals,
            num_parameters: self.num_parameters,
            rest_parameter_index: self.rest_parameter_index,
            takes_this: self.takes_this,
            is_async: self.is_async,
            is_generator: self.is_generator,
            num_cache_slots: self.num_cache_slots,
            max_stack_depth: self.max_stack_depth,
            register_count: self.register_count,
            inline_cache: self.inline_cache.clone(),
            closure_captures,
            captured_values,
        }
    }
}

/// A table without functions.
pub fn new_functions() -> (t: FunctionTable)
    ensures
        function_table_view(t) == Names::<FunctionView>::empty(),
{
    let t: FunctionTable = NameMap::new();
    t.facts();
    assert(function_table_view(t) =~= Names::<FunctionView>::empty()) by {
        assert(t@.order =~= Seq::empty());
        assert forall|name: Seq<char>| !t.has(name) by {
            assert(!t@.map.dom().contains(name));
        }
    }
    t
}

/// File a function under a name.
pub fn insert_function(t: &mut FunctionTable, name: String, f: CompiledFunctionObject)
    ensures
        function_table_view(*final(t)) == function_table_view(*old(t)).set(
            name@,
            function_view(f),
        ),
{
    let ghost key = name@;
    t.facts();
    t.insert(name, f);
    t.facts();
    proof {
        let before = function_table_view(*old(t));
        let after = function_table_view(*t);
        lemma_function_table_view(*old(t));
        lemma_function_table_view(*t);
        assert(after.map =~= before.map.insert(key, function_view(f)));
        assert(after =~= before.set(key, function_view(f)));
    }
}

/// Every name of a table has its function's view in the table's view.
proof fn lemma_function_table_view(t: FunctionTable)
    requires
        t.positions_hold(),
    ensures
        function_table_view(t).map.dom() == t@.map.dom(),
        function_table_view(t).order == t@.order,
        forall|name: Seq<char>| #[trigger]
            t@.map.dom().contains(name) ==> function_table_view(t).map[name] == function_view(
                t@.map[name],
            ),
{
    assert(function_table_view(t).map.dom() =~= t@.map.dom());
    assert(function_table_view(t).order =~= t@.order);
}

/// A copy of a table of functions.
pub fn copy_functions(t: &FunctionTable) -> (r: FunctionTable)
    ensures
        function_table_view(r) == function_table_view(*t),
{
    let dup = |f: &CompiledFunctionObject| -> (g: CompiledFunctionObject)
        ensures
            function_view(g) == function_view(*f),
    { f.dup() };
    let r = t.copy_by(dup);
    t.facts();
    r.facts();
    proof {
        lemma_function_table_view(*t);
        lemma_function_table_view(r);
        assert(function_table_view(r).map =~= function_table_view(*t).map);
    }
    r
}

/// A copy of a list of strings.
pub fn copy_strings(v: &Vec<String>) -> (r: Vec<String>)
    ensures
        strings_view(r) == strings_view(*v),
{
    let mut r: Vec<String> = Vec::new();
    let mut i: usize = 0;
    while i < v.len()
        invariant
            0 <= i <= v@.len(),
            r@.len() == i,
            forall|k: int| 0 <= k < i ==> (#[trigger] r@[k])@ == v@[k]@,
        decreases v@.len() - i,
    {
        r.push(v[i].clone());
        i += 1;
    }
    assert(strings_view(r) =~= strings_view(*v));
    r
}

impl SuperLevel {
    pub fn dup(&self) -> (r: Self)
        ensures
            super_level_view(r) == super_level_view(*self),
    {
        SuperLevel {
            methods: copy_functions(&self.methods),
            getters: copy_functions(&self.getters),
            setters: copy_functions(&self.setters),
        }
    }
}

/// A copy of an inheritance chain.
pub fn copy_levels(v: &Vec<SuperLevel>) -> (r: Vec<SuperLevel>)
    ensures
        super_levels_view(r) == super_levels_view(*v),
{
    let mut r: Vec<SuperLevel> = Vec::new();
    let mut i: usize = 0;
    while i < v.len()
        invariant
            0 <= i <= v@.len(),
            r@.len() == i,
            forall|k: int|
                0 <= k < i ==> super_level_view(#[trigger] r@[k]) == super_level_view(v@[k]),
        decreases v@.len() - i,
    {
        r.push(v[i].dup());
        i += 1;
    }
    assert(super_levels_view(r) =~= super_levels_view(*v));
    r
}

/// A copy of a list of field initializers.
pub fn copy_fields(v: &Vec<FieldInitializer>) -> (r: Vec<FieldInitializer>)
    ensures
        field_initializers_view(r) == field_initializers_view(*v),
{
    let mut r: Vec<FieldInitializer> = Vec::new();
    let mut i: usize = 0;
    while i < v.len()
        invariant
            0 <= i <= v@.len(),
            r@.len() == i,
            forall|k: int|
                #![trigger r@[k]]
                0 <= k < i ==> r@[k].name@ == v@[k].name@ && function_view(r@[k].thunk)
                    == function_view(v@[k].thunk),
        decreases v@.len() - i,
    {
        r.push(FieldInitializer { name: v[i].name.clone(), thunk: v[i].thunk.dup() });
        i += 1;
    }
    assert(field_initializers_view(r) =~= field_initializers_view(*v));
    r
}

impl StaticInitializer {
    pub fn dup(&self) -> (r: Self)
        ensures
            static_initializer_view(r) == static_initializer_view(*self),
    {
        match self {
            StaticInitializer::Field { name, thunk } => StaticInitializer::Field {
                name: name.clone(),
                thunk: thunk.dup(),
            },
            StaticInitializer::Block { thunk } => StaticInitializer::Block { thunk: thunk.dup() },
        }
    }
}

/// A copy of a list of static initializers.
pub fn copy_statics(v: &Vec<StaticInitializer>) -> (r: Vec<StaticInitializer>)
    ensures
        static_initializers_view(r) == static_initializers_view(*v),
{
    let mut r: Vec<StaticInitializer> = Vec::new();
    let mut i: usize = 0;
    while i < v.len()
        invariant
            0 <= i <= v@.len(),
            r@.len() == i,
            forall|k: int|
                0 <= k < i ==> static_initializer_view(#[trigger] r@[k])
                    == static_initializer_view(v@[k]),
        decreases v@.len() - i,
    {
        r.push(v[i].dup());
        i += 1;
    }
    assert(static_initializers_view(r) =~= static_initializers_view(*v));
    r
}

/// Every name of a table has its object's view in the table's view.
proof fn lemma_object_table_view(t: NameMap<Object>)
    requires
        t.positions_hold(),
    ensures
        object_table_view(t).map.dom() == t@.map.dom(),
        object_table_view(t).order == t@.order,
        forall|name: Seq<char>| #[trigger]
            t@.map.dom().contains(name) ==> object_table_view(t).map[name] == object_view(
                t@.map[name],
            ),
{
    assert(object_table_view(t).map.dom() =~= t@.map.dom());
    assert(object_table_view(t).order =~= t@.order);
}

/// A table without objects.
pub fn new_objects() -> (t: NameMap<Object>)
    ensures
        object_table_view(t) == Names::<ObjectView>::empty(),
{
    let t: NameMap<Object> = NameMap::new();
    t.facts();
    proof {
        lemma_object_table_view(t);
        assert(object_table_view(t) =~= Names::<ObjectView>::empty());
    }
    t
}

/// File an object under a name.
pub fn insert_object(t: &mut NameMap<Object>, name: String, obj: Object)
    ensures
        object_table_view(*final(t)) == object_table_view(*old(t)).set(name@, object_view(obj)),
{
    let ghost key = name@;
    t.facts();
    t.insert(name, obj);
    t.facts();
    proof {
        let before = object_table_view(*old(t));
        let after = object_table_view(*t);
        lemma_object_table_view(*old(t));
        lemma_object_table_view(*t);
        assert(after.map =~= before.map.insert(key, object_view(obj)));
        assert(after =~= before.set(key, object_view(obj)));
    }
}

/// A copy of a table of objects.
pub fn copy_objects(t: &NameMap<Object>) -> (r: NameMap<Object>)
    ensures
        object_table_view(r) == object_table_view(*t),
    decreases *t,
{
    let mut r = new_objects();
    let mut i: usize = 0;
    t.facts();
    proof {
        lemma_object_table_view(*t);
    }
    let ghost whole = object_table_view(*t);
    while i < t.len()
        invariant
            0 <= i <= t@.order.len(),
            whole == object_table_view(*t),
            whole.order == t@.order,
            t.positions_hold(),
            t.items_are_filed(),
            forall|name: Seq<char>| #[trigger]
                t@.map.dom().contains(name) ==> whole.map[name] == object_view(t@.map[name]),
            object_table_view(r).order =~= t@.order.take(i as int),
            forall|name: Seq<char>| #[trigger]
                object_table_view(r).map.dom().contains(name) ==> t@.has(name) && t.position(name)
                    < i && object_table_view(r).map[name] == whole.map[name],
            forall|k: int|
                0 <= k < i ==> object_table_view(r).map.dom().contains(#[trigger] t@.order[k]),
        decreases t@.order.len() - i,
    {
        let ghost before = object_table_view(r);
        let name = t.name_at(i).clone();
        proof {
            lemma_items_decrease(*t, i as int);
            assert(t.items()[i as int].0@ == t@.order[i as int]);
        }
        let obj = t.value_at(i).dup();
        let ghost key = name@;
        insert_object(&mut r, name, obj);
        assert(!before.has(key));
        i += 1;
    }
    proof {
        assert forall|name: Seq<char>| t@.has(name) implies #[trigger] object_table_view(
            r,
        ).map.dom().contains(name) by {
            assert(t@.order[t.position(name)] == name);
        }
        assert(object_table_view(r).map.dom() =~= whole.map.dom());
        assert(object_table_view(r).map =~= whole.map);
        assert(object_table_view(r) =~= whole);
    }
    r
}

impl ClassObject {
    pub fn dup(&self) -> (r: Self)
        ensures
            class_view(r) == class_view(*self),
        decreases *self,
    {
        ClassObject {
            name: self.name.clone(),
            parent_chain: copy_strings(&self.parent_chain),
            constructor: match &self.constructor {
                Some(f) => Some(f.dup()),
                None => None,
            },
            methods: copy_functions(&self.methods),
            static_methods: copy_functions(&self.static_methods),
            getters: copy_functions(&self.getters),
            setters: copy_functions(&self.setters),
            super_methods: copy_functions(&self.super_methods),
            super_getters: copy_functions(&self.super_getters),
            super_setters: copy_functions(&self.super_setters),
            super_constructor_chain: copy_levels(&self.super_constructor_chain),
            field_initializers: copy_fields(&self.field_initializers),
            static_initializers: copy_statics(&self.static_initializers),
            static_fields: copy_objects(&self.static_fields),
        }
    }
}

impl InstanceObject {
    pub fn dup(&self) -> (r: Self)
        ensures
            instance_view(r) == instance_view(*self),
        decreases *self,
    {
        InstanceObject {
            class_name: self.class_name.clone(),
            parent_chain: copy_strings(&self.parent_chain),
            fields: copy_objects(&self.fields),
            methods: copy_functions(&self.methods),
            getters: copy_functions(&self.getters),
            setters: copy_functions(&self.setters),
            super_methods: copy_functions(&self.super_methods),
            super_getters: copy_functions(&self.super_getters),
            super_setters: copy_functions(&self.super_setters),
            super_constructor_chain: copy_levels(&self.super_constructor_chain),
        }
    }
}

impl SuperRefObject {
    pub fn dup(&self) -> (r: Self)
        ensures
            super_ref_view(r) == super_ref_view(*self),
        decreases *self,
    {
        SuperRefObject {
            receiver: Box::new(self.receiver.dup()),
            methods: copy_functions(&self.methods),
            getters: copy_functions(&self.getters),
            setters: copy_functions(&self.setters),
            constructor_chain: copy_levels(&self.constructor_chain),
        }
    }
}

impl Object {
    /// A copy that shares arrays, hashes, generators, maps and sets with this one.
    pub fn dup(&self) -> (r: Self)
        ensures
            object_view(r) == object_view(*self),
            *self is Hash ==> r == *self,
        decreases *self,
    {
        match self {
            Object::Integer(v) => Object::Integer(*v),
            Object::Float(bits) => Object::Float(*bits),
            Object::Boolean(v) => Object::Boolean(*v),
            Object::Null => Object::Null,
            Object::Undefined => Object::Undefined,
            Object::String(s) => Object::String(s.clone()),
            Object::RegExp(r) => Object::RegExp(
                Box::new(RegExpObject { pattern: r.pattern.clone(), flags: r.flags.clone() }),
            ),
            Object::JsMap(m) => Object::JsMap(Box::new(MapObject { entries: m.entries.clone() })),
            Object::JsSet(m) => Object::JsSet(Box::new(SetObject { entries: m.entries.clone() })),
            Object::Array(items) => Object::Array(items.clone()),
            Object::Hash(h) => Object::Hash(h.clone()),
            Object::CompiledFunction(f) => Object::CompiledFunction(Box::new(f.dup())),
            Object::Class(c) => Object::Class(Box::new(c.dup())),
            Object::BuiltinFunction(b) => Object::BuiltinFunction(
                Box::new(
                    BuiltinFunctionObject {
                        function: b.function,
                        receiver: match &b.receiver {
                            Some(o) => Some(o.dup()),
                            None => None,
                        },
                    },
                ),
            ),
            Object::Instance(i) => Object::Instance(Box::new(i.dup())),
            Object::BoundMethod(m) => Object::BoundMethod(
                Box::new(
                    BoundMethodObject {
                        function: m.function.dup(),
                        receiver: Box::new(m.receiver.dup()),
                    },
                ),
            ),
            Object::SuperRef(s) => Object::SuperRef(Box::new(s.dup())),
            Object::Promise(p) => Object::Promise(
                Box::new(
                    PromiseObject {
                        settled: match &p.settled {
                            PromiseState::Fulfilled(v) => PromiseState::Fulfilled(
                                Box::new(v.dup()),
                            ),
                            PromiseState::Rejected(v) => PromiseState::Rejected(
                                Box::new(v.dup()),
                            ),
                        },
                    },
                ),
            ),
            Object::Generator(g) => Object::Generator(g.clone()),
            Object::Symbol(id, description) => Object::Symbol(
                *id,
                match description {
                    Some(d) => Some(d.clone()),
                    None => None,
                },
            ),
            Object::ReturnValue(v) => Object::ReturnValue(Box::new(v.dup())),
            Object::Error(e) => Object::Error(
                Box::new(ErrorObject { name: e.name.clone(), message: e.message.clone() }),
            ),
        }
    }

    pub fn object_type(&self) -> (t: ObjectType)
        ensures
            t == type_of(*self),
    {
        match self {
            Object::Integer(_) => ObjectType::Integer,
            Object::Float(_) => ObjectType::Float,
            Object::Boolean(_) => ObjectType::Boolean,
            Object::Null => ObjectType::Null,
            Object::Undefined => ObjectType::Undefined,
            Object::String(_) => ObjectType::String,
            Object::RegExp(_) => ObjectType::Regexp,
            Object::JsMap(_) => ObjectType::JsMap,
            Object::JsSet(_) => ObjectType::JsSet,
            Object::Array(_) => ObjectType::Array,
            Object::Hash(_) => ObjectType::Hash,
            Object::CompiledFunction(_) => ObjectType::CompiledFunction,
            Object::Class(_) => ObjectType::Class,
            Object::BuiltinFunction(_) => ObjectType::Builtin,
            Object::Instance(_) => ObjectType::Instance,
            Object::BoundMethod(_) => ObjectType::BoundMethod,
            Object::SuperRef(_) => ObjectType::SuperRef,
            Object::Promise(_) => ObjectType::Promise,
            Object::Generator(_) => ObjectType::Generator,
            Object::Symbol(_, _) => ObjectType::Symbol,
            Object::ReturnValue(_) => ObjectType::ReturnValue,
            Object::Error(_) => ObjectType::Error,
        }
    }
}

/// The type of an object.
pub open spec fn type_of(o: Object) -> ObjectType {
    match o {
        Object::Integer(_) => ObjectType::Integer,
        Object::Float(_) => ObjectType::Float,
        Object::Boolean(_) => ObjectType::Boolean,
        Object::Null => ObjectType::Null,
        Object::Undefined => ObjectType::Undefined,
        Object::String(_) => ObjectType::String,
        Object::RegExp(_) => ObjectType::Regexp,
        Object::JsMap(_) => ObjectType::JsMap,
        Object::JsSet(_) => ObjectType::JsSet,
        Object::Array(_) => ObjectType::Array,
        Object::Hash(_) => ObjectType::Hash,
        Object::CompiledFunction(_) => ObjectType::CompiledFunction,
        Object::Class(_) => ObjectType::Class,
        Object::BuiltinFunction(_) => ObjectType::Builtin,
        Object::Instance(_) => ObjectType::Instance,
        Object::BoundMethod(_) => ObjectType::BoundMethod,
        Object::SuperRef(_) => ObjectType::SuperRef,
        Object::Promise(_) => ObjectType::Promise,
        Object::Generator(_) => ObjectType::Generator,
        Object::Symbol(_, _) => ObjectType::Symbol,
        Object::ReturnValue(_) => ObjectType::ReturnValue,
        Object::Error(_) => ObjectType::Error,
    }
}

pub fn true_object() -> (o: Object)
    ensures
        o == Object::Boolean(true),
{
    Object::Boolean(true)
}

pub fn false_object() -> (o: Object)
    ensures
        o == Object::Boolean(false),
{
    Object::Boolean(false)
}

pub fn null_object() -> (o: Object)
    ensures
        o == Object::Null,
{
    Object::Null
}

pub fn undefined_object() -> (o: Object)
    ensures
        o == Object::Undefined,
{
    Object::Undefined
}

/// An array object of the given items.
pub fn make_array(items: Vec<Value>) -> (o: Object)
    ensures
        o matches Object::Array(cell) && cell.value@ == items@,
{
    Object::Array(Rc::new(VmCell::new(items)))
}

/// An array object without items.
pub fn make_empty_array() -> (o: Object)
    ensures
        o matches Object::Array(cell) && cell.value@ == Seq::<Value>::empty(),
{
    Object::Array(Rc::new(VmCell::new(Vec::new())))
}

/// A hash object.
pub fn make_hash(hash: HashObject) -> (o: Object)
    ensures
        o matches Object::Hash(cell) && cell.value == hash,
        object_view(o) == ObjectView::Hash(hash_view(hash)),
{
    Object::Hash(Rc::new(VmCell::new(hash)))
}

/// The items of an array, copied only where the array is shared.
pub fn unwrap_array(rc: Rc<VmCell<Vec<Value>>>) -> (items: Vec<Value>)
    ensures
        items@ == rc.value@,
{
    match Rc::try_unwrap(rc) {
        Ok(cell) => cell.into_inner(),
        Err(rc) => {
            let items = rc.value.clone();
            assert(items@ =~= rc.value@);
            items
        },
    }
}

} // verus!
