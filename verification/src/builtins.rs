//! The names that every script can use without declaring them.
use vstd::prelude::*;

use crate::hash::{hash_view, HashObject, HashView};
use crate::key::HashKey;
use crate::object::{
    make_hash, object_view, BuiltinFunction, BuiltinFunctionObject, Object, ObjectView,
};
use crate::realm::{Realm, RealmView};
use crate::text::str_eq;

verus! {

/// A builtin object that holds other builtins by name.
#[derive(Clone, Copy, Debug, PartialEq, Eq, Structural)]
pub enum Namespace {
    Math,
    Array,
    GlobalThis,
    Object,
    Json,
    Promise,
    Date,
    LocalStorage,
    Db,
    Draw,
    Layout,
    Input,
    Host,
}

/// What a builtin name stands for. Numbers are given by their IEEE-754 bit
/// pattern.
#[derive(Clone, Copy, Debug, PartialEq, Eq, Structural)]
pub enum Member {
    Function(BuiltinFunction),
    Number(u64),
    Undefined,
    Namespace(Namespace),
}

/// What a global builtin name stands for, if it is one.
#[verifier::opaque]
pub open spec fn global_member(name: Seq<char>) -> Option<Member> {
    if name == "Math"@ {
        Some(Member::Namespace(Namespace::Math))
    } else if name == "String"@ {
        Some(Member::Function(BuiltinFunction::StringCtor))
    } else if name == "parseInt"@ {
        Some(Member::Function(BuiltinFunction::ParseInt))
    } else if name == "parseFloat"@ {
        Some(Member::Function(BuiltinFunction::ParseFloat))
    } else if name == "isNaN"@ {
        Some(Member::Function(BuiltinFunction::IsNaN))
    } else if name == "isFinite"@ {
        Some(Member::Function(BuiltinFunction::IsFinite))
    } else if name == "encodeURIComponent"@ {
        Some(Member::Function(BuiltinFunction::EncodeURIComponent))
    } else if name == "decodeURIComponent"@ {
        Some(Member::Function(BuiltinFunction::DecodeURIComponent))
    } else if name == "encodeURI"@ {
        Some(Member::Function(BuiltinFunction::EncodeURI))
    } else if name == "decodeURI"@ {
        Some(Member::Function(BuiltinFunction::DecodeURI))
    } else if name == "Infinity"@ {
        Some(Member::Number(0x7ff0_0000_0000_0000))
    } else if name == "NaN"@ {
        Some(Member::Number(0x7ff8_0000_0000_0000))
    } else if name == "undefined"@ {
        Some(Member::Undefined)
    } else if name == "Number"@ {
        Some(Member::Function(BuiltinFunction::NumberCtor))
    } else if name == "Array"@ {
        Some(Member::Namespace(Namespace::Array))
    } else if name == "RegExp"@ {
        Some(Member::Function(BuiltinFunction::RegExpCtor))
    } else if name == "Map"@ {
        Some(Member::Function(BuiltinFunction::MapCtor))
    } else if name == "Set"@ {
        Some(Member::Function(BuiltinFunction::SetCtor))
    } else if name == "globalThis"@ {
        Some(Member::Namespace(Namespace::GlobalThis))
    } else if name == "Object"@ {
        Some(Member::Namespace(Namespace::Object))
    } else if name == "JSON"@ {
        Some(Member::Namespace(Namespace::Json))
    } else if name == "Promise"@ {
        Some(Member::Namespace(Namespace::Promise))
    } else if name == "Date"@ {
        Some(Member::Namespace(Namespace::Date))
    } else if name == "localStorage"@ {
        Some(Member::Namespace(Namespace::LocalStorage))
    } else if name == "db"@ {
        Some(Member::Namespace(Namespace::Db))
    } else if name == "draw"@ {
        Some(Member::Namespace(Namespace::Draw))
    } else if name == "layout"@ {
        Some(Member::Namespace(Namespace::Layout))
    } else if name == "input"@ {
        Some(Member::Namespace(Namespace::Input))
    } else if name == "host"@ {
        Some(Member::Namespace(Namespace::Host))
    } else {
        None
    }
}

/// The members of a namespace, in order.
pub open spec fn members_of(ns: Namespace) -> Seq<(Seq<char>, Member)> {
    match ns {
        Namespace::Math => seq![
            ("abs"@, Member::Function(BuiltinFunction::MathAbs)),
            ("floor"@, Member::Function(BuiltinFunction::MathFloor)),
            ("ceil"@, Member::Function(BuiltinFunction::MathCeil)),
            ("round"@, Member::Function(BuiltinFunction::MathRound)),
            ("min"@, Member::Function(BuiltinFunction::MathMin)),
            ("max"@, Member::Function(BuiltinFunction::MathMax)),
            ("pow"@, Member::Function(BuiltinFunction::MathPow)),
            ("sqrt"@, Member::Function(BuiltinFunction::MathSqrt)),
            ("trunc"@, Member::Function(BuiltinFunction::MathTrunc)),
            ("sign"@, Member::Function(BuiltinFunction::MathSign)),
            ("random"@, Member::Function(BuiltinFunction::MathRandom)),
            ("log"@, Member::Function(BuiltinFunction::MathLog)),
            ("log2"@, Member::Function(BuiltinFunction::MathLog2)),
            ("cbrt"@, Member::Function(BuiltinFunction::MathCbrt)),
            ("sin"@, Member::Function(BuiltinFunction::MathSin)),
            ("cos"@, Member::Function(BuiltinFunction::MathCos)),
            ("tan"@, Member::Function(BuiltinFunction::MathTan)),
            ("exp"@, Member::Function(BuiltinFunction::MathExp)),
            ("log10"@, Member::Function(BuiltinFunction::MathLog10)),
            ("atan2"@, Member::Function(BuiltinFunction::MathAtan2)),
            ("hypot"@, Member::Function(BuiltinFunction::MathHypot)),
            ("imul"@, Member::Function(BuiltinFunction::MathImul)),
            ("clz32"@, Member::Function(BuiltinFunction::MathClz32)),
            ("fround"@, Member::Function(BuiltinFunction::MathFround)),
            ("PI"@, Member::Number(0x4009_21fb_5444_2d18)),
            ("E"@, Member::Number(0x4005_bf0a_8b14_5769)),
            ("LN2"@, Member::Number(0x3fe6_2e42_fefa_39ef)),
            ("LN10"@, Member::Number(0x4002_6bb1_bbb5_5516)),
            ("SQRT2"@, Member::Number(0x3ff6_a09e_667f_3bcd)),
        ],
        Namespace::Array => seq![
            ("from"@, Member::Function(BuiltinFunction::ArrayFrom)),
        ],
        Namespace::GlobalThis => seq![
            ("Math"@, Member::Namespace(Namespace::Math)),
            ("String"@, Member::Function(BuiltinFunction::StringCtor)),
            ("parseInt"@, Member::Function(BuiltinFunction::ParseInt)),
            ("parseFloat"@, Member::Function(BuiltinFunction::ParseFloat)),
            ("isNaN"@, Member::Function(BuiltinFunction::IsNaN)),
            ("isFinite"@, Member::Function(BuiltinFunction::IsFinite)),
            ("encodeURIComponent"@, Member::Function(BuiltinFunction::EncodeURIComponent)),
            ("decodeURIComponent"@, Member::Function(BuiltinFunction::DecodeURIComponent)),
            ("encodeURI"@, Member::Function(BuiltinFunction::EncodeURI)),
            ("decodeURI"@, Member::Function(BuiltinFunction::DecodeURI)),
            ("Infinity"@, Member::Number(0x7ff0_0000_0000_0000)),
            ("NaN"@, Member::Number(0x7ff8_0000_0000_0000)),
            ("undefined"@, Member::Undefined),
            ("Number"@, Member::Function(BuiltinFunction::NumberCtor)),
            ("Array"@, Member::Namespace(Namespace::Array)),
            ("RegExp"@, Member::Function(BuiltinFunction::RegExpCtor)),
            ("Map"@, Member::Function(BuiltinFunction::MapCtor)),
            ("Set"@, Member::Function(BuiltinFunction::SetCtor)),
            ("JSON"@, Member::Namespace(Namespace::Json)),
            ("Promise"@, Member::Namespace(Namespace::Promise)),
            ("Object"@, Member::Namespace(Namespace::Object)),
        ],
        Namespace::Object => seq![
            ("keys"@, Member::Function(BuiltinFunction::ObjectKeys)),
            ("values"@, Member::Function(BuiltinFunction::ObjectValues)),
            ("entries"@, Member::Function(BuiltinFunction::ObjectEntries)),
            ("fromEntries"@, Member::Function(BuiltinFunction::ObjectFromEntries)),
            ("hasOwn"@, Member::Function(BuiltinFunction::ObjectHasOwn)),
            ("is"@, Member::Function(BuiltinFunction::ObjectIs)),
            ("assign"@, Member::Function(BuiltinFunction::ObjectAssign)),
        ],
        Namespace::Json => seq![
            ("stringify"@, Member::Function(BuiltinFunction::JsonStringify)),
            ("parse"@, Member::Function(BuiltinFunction::JsonParse)),
        ],
        Namespace::Promise => seq![
            ("resolve"@, Member::Function(BuiltinFunction::PromiseResolve)),
            ("reject"@, Member::Function(BuiltinFunction::PromiseReject)),
        ],
        Namespace::Date => seq![
            ("now"@, Member::Function(BuiltinFunction::DateNow)),
        ],
        Namespace::LocalStorage => seq![
            ("getItem"@, Member::Function(BuiltinFunction::LocalStorageGetItem)),
            ("setItem"@, Member::Function(BuiltinFunction::LocalStorageSetItem)),
            ("removeItem"@, Member::Function(BuiltinFunction::LocalStorageRemoveItem)),
            ("clear"@, Member::Function(BuiltinFunction::LocalStorageClear)),
        ],
        Namespace::Db => seq![
            ("query"@, Member::Function(BuiltinFunction::DbQuery)),
            ("create"@, Member::Function(BuiltinFunction::DbCreate)),
            ("update"@, Member::Function(BuiltinFunction::DbUpdate)),
            ("delete"@, Member::Function(BuiltinFunction::DbDelete)),
            ("hardDelete"@, Member::Function(BuiltinFunction::DbHardDelete)),
            ("get"@, Member::Function(BuiltinFunction::DbGet)),
            ("startSync"@, Member::Function(BuiltinFunction::DbStartSync)),
            ("stopSync"@, Member::Function(BuiltinFunction::DbStopSync)),
            ("getSyncStatus"@, Member::Function(BuiltinFunction::DbGetSyncStatus)),
            ("getSavedSyncRoom"@, Member::Function(BuiltinFunction::DbGetSavedSyncRoom)),
        ],
        Namespace::Draw => seq![
            ("rect"@, Member::Function(BuiltinFunction::DrawRect)),
            ("roundedRect"@, Member::Function(BuiltinFunction::DrawRoundedRect)),
            ("circle"@, Member::Function(BuiltinFunction::DrawCircle)),
            ("ellipse"@, Member::Function(BuiltinFunction::DrawEllipse)),
            ("line"@, Member::Function(BuiltinFunction::DrawLine)),
            ("path"@, Member::Function(BuiltinFunction::DrawPath)),
            ("text"@, Member::Function(BuiltinFunction::DrawText)),
            ("image"@, Member::Function(BuiltinFunction::DrawImage)),
            ("linearGradient"@, Member::Function(BuiltinFunction::DrawLinearGradient)),
            ("radialGradient"@, Member::Function(BuiltinFunction::DrawRadialGradient)),
            ("shadow"@, Member::Function(BuiltinFunction::DrawShadow)),
            ("pushClip"@, Member::Function(BuiltinFunction::DrawPushClip)),
            ("popClip"@, Member::Function(BuiltinFunction::DrawPopClip)),
            ("pushTransform"@, Member::Function(BuiltinFunction::DrawPushTransform)),
            ("popTransform"@, Member::Function(BuiltinFunction::DrawPopTransform)),
            ("pushOpacity"@, Member::Function(BuiltinFunction::DrawPushOpacity)),
            ("popOpacity"@, Member::Function(BuiltinFunction::DrawPopOpacity)),
            ("arc"@, Member::Function(BuiltinFunction::DrawArc)),
            ("measureText"@, Member::Function(BuiltinFunction::DrawMeasureText)),
            ("getViewportWidth"@, Member::Function(BuiltinFunction::DrawGetViewportWidth)),
            ("getViewportHeight"@, Member::Function(BuiltinFunction::DrawGetViewportHeight)),
        ],
        Namespace::Layout => seq![
            ("createNode"@, Member::Function(BuiltinFunction::LayoutCreateNode)),
            ("updateStyle"@, Member::Function(BuiltinFunction::LayoutUpdateStyle)),
            ("setChildren"@, Member::Function(BuiltinFunction::LayoutSetChildren)),
            ("computeLayout"@, Member::Function(BuiltinFunction::LayoutComputeLayout)),
            ("getLayout"@, Member::Function(BuiltinFunction::LayoutGetLayout)),
            ("removeNode"@, Member::Function(BuiltinFunction::LayoutRemoveNode)),
            ("clear"@, Member::Function(BuiltinFunction::LayoutClear)),
        ],
        Namespace::Input => seq![
            ("getMouseX"@, Member::Function(BuiltinFunction::InputGetMouseX)),
            ("getMouseY"@, Member::Function(BuiltinFunction::InputGetMouseY)),
            ("isMouseDown"@, Member::Function(BuiltinFunction::InputIsMouseDown)),
            ("isMousePressed"@, Member::Function(BuiltinFunction::InputIsMousePressed)),
            ("isMouseReleased"@, Member::Function(BuiltinFunction::InputIsMouseReleased)),
            ("getScrollY"@, Member::Function(BuiltinFunction::InputGetScrollY)),
            ("setCursor"@, Member::Function(BuiltinFunction::InputSetCursor)),
            ("getTextInput"@, Member::Function(BuiltinFunction::InputGetTextInput)),
            ("isBackspacePressed"@, Member::Function(BuiltinFunction::InputIsBackspacePressed)),
            ("isEscapePressed"@, Member::Function(BuiltinFunction::InputIsEscapePressed)),
            ("requestRedraw"@, Member::Function(BuiltinFunction::InputRequestRedraw)),
            ("getElapsedSecs"@, Member::Function(BuiltinFunction::InputGetElapsedSecs)),
            ("getPageElapsedSecs"@, Member::Function(BuiltinFunction::InputGetPageElapsedSecs)),
            ("getDeltaTime"@, Member::Function(BuiltinFunction::InputGetDeltaTime)),
            ("getFocusedInput"@, Member::Function(BuiltinFunction::InputGetFocusedInput)),
            ("setFocusedInput"@, Member::Function(BuiltinFunction::InputSetFocusedInput)),
            ("isKeyDown"@, Member::Function(BuiltinFunction::InputIsKeyDown)),
        ],
        Namespace::Host => seq![
            ("call"@, Member::Function(BuiltinFunction::HostCall)),
        ],
    }
}

/// The number of namespaces that can stand inside one another below `ns`.
pub open spec fn depth_of(ns: Namespace) -> nat {
    if ns == Namespace::GlobalThis {
        1
    } else {
        0
    }
}

/// The object that a member stands for, and the realm after it was made.
pub open spec fn member_object(realm: RealmView, m: Member) -> (RealmView, ObjectView)
    decreases (if let Member::Namespace(ns) = m { depth_of(ns) + 1 } else { 0 }), 1int, 0int,
{
    match m {
        Member::Function(f) => (realm, ObjectView::Builtin(f, None)),
        Member::Number(bits) => (realm, ObjectView::Float(bits)),
        Member::Undefined => (realm, ObjectView::Undefined),
        Member::Namespace(ns) => {
            let made = with_members(
                realm.after_id(),
                HashView::empty(realm.next_object_id),
                ns,
                0,
            );
            (made.0, ObjectView::Hash(made.1))
        },
    }
}

/// A hash after the members of `ns` from position `i` on were set in it, and
/// the realm after that. Each member is made before its name is interned.
pub open spec fn with_members(realm: RealmView, h: HashView, ns: Namespace, i: int) -> (
    RealmView,
    HashView,
)
    decreases depth_of(ns) + 1, 0int, members_of(ns).len() - i,
{
    if i < 0 || i >= members_of(ns).len() {
        (realm, h)
    } else {
        let (name, m) = members_of(ns)[i];
        if m matches Member::Namespace(inner) && depth_of(inner) >= depth_of(ns) {
            (realm, h)
        } else {
            let (made, obj) = member_object(realm, m);
            with_members(
                made.after_symbol(name),
                h.with_object(HashKey::Sym(made.symbols.id_of(name)), obj),
                ns,
                i + 1,
            )
        }
    }
}

/// What a global builtin name stands for, if it is one.
pub fn lookup_global(name: &str) -> (r: Option<Member>)
    ensures
        r == global_member(name@),
{
    proof {
        reveal(global_member);
    }
    if str_eq(name, "Math") {
        Some(Member::Namespace(Namespace::Math))
    } else if str_eq(name, "String") {
        Some(Member::Function(BuiltinFunction::StringCtor))
    } else if str_eq(name, "parseInt") {
        Some(Member::Function(BuiltinFunction::ParseInt))
    } else if str_eq(name, "parseFloat") {
        Some(Member::Function(BuiltinFunction::ParseFloat))
    } else if str_eq(name, "isNaN") {
        Some(Member::Function(BuiltinFunction::IsNaN))
    } else if str_eq(name, "isFinite") {
        Some(Member::Function(BuiltinFunction::IsFinite))
    } else if str_eq(name, "encodeURIComponent") {
        Some(Member::Function(BuiltinFunction::EncodeURIComponent))
    } else if str_eq(name, "decodeURIComponent") {
        Some(Member::Function(BuiltinFunction::DecodeURIComponent))
    } else if str_eq(name, "encodeURI") {
        Some(Member::Function(BuiltinFunction::EncodeURI))
    } else if str_eq(name, "decodeURI") {
        Some(Member::Function(BuiltinFunction::DecodeURI))
    } else if str_eq(name, "Infinity") {
        Some(Member::Number(0x7ff0_0000_0000_0000))
    } else if str_eq(name, "NaN") {
        Some(Member::Number(0x7ff8_0000_0000_0000))
    } else if str_eq(name, "undefined") {
        Some(Member::Undefined)
    } else if str_eq(name, "Number") {
        Some(Member::Function(BuiltinFunction::NumberCtor))
    } else if str_eq(name, "Array") {
        Some(Member::Namespace(Namespace::Array))
    } else if str_eq(name, "RegExp") {
        Some(Member::Function(BuiltinFunction::RegExpCtor))
    } else if str_eq(name, "Map") {
        Some(Member::Function(BuiltinFunction::MapCtor))
    } else if str_eq(name, "Set") {
        Some(Member::Function(BuiltinFunction::SetCtor))
    } else if str_eq(name, "globalThis") {
        Some(Member::Namespace(Namespace::GlobalThis))
    } else if str_eq(name, "Object") {
        Some(Member::Namespace(Namespace::Object))
    } else if str_eq(name, "JSON") {
        Some(Member::Namespace(Namespace::Json))
    } else if str_eq(name, "Promise") {
        Some(Member::Namespace(Namespace::Promise))
    } else if str_eq(name, "Date") {
        Some(Member::Namespace(Namespace::Date))
    } else if str_eq(name, "localStorage") {
        Some(Member::Namespace(Namespace::LocalStorage))
    } else if str_eq(name, "db") {
        Some(Member::Namespace(Namespace::Db))
    } else if str_eq(name, "draw") {
        Some(Member::Namespace(Namespace::Draw))
    } else if str_eq(name, "layout") {
        Some(Member::Namespace(Namespace::Layout))
    } else if str_eq(name, "input") {
        Some(Member::Namespace(Namespace::Input))
    } else if str_eq(name, "host") {
        Some(Member::Namespace(Namespace::Host))
    } else {
        None
    }
}

/// A member with its name.
pub struct NamedMember {
    pub name: &'static str,
    pub member: Member,
}

fn members_math() -> (v: Vec<NamedMember>)
    ensures
        listed(v@) == members_of(Namespace::Math),
{
    let v = vec![
        NamedMember { name: "abs", member: Member::Function(BuiltinFunction::MathAbs) },
        NamedMember { name: "floor", member: Member::Function(BuiltinFunction::MathFloor) },
        NamedMember { name: "ceil", member: Member::Function(BuiltinFunction::MathCeil) },
        NamedMember { name: "round", member: Member::Function(BuiltinFunction::MathRound) },
        NamedMember { name: "min", member: Member::Function(BuiltinFunction::MathMin) },
        NamedMember { name: "max", member: Member::Function(BuiltinFunction::MathMax) },
        NamedMember { name: "pow", member: Member::Function(BuiltinFunction::MathPow) },
        NamedMember { name: "sqrt", member: Member::Function(BuiltinFunction::MathSqrt) },
        NamedMember { name: "trunc", member: Member::Function(BuiltinFunction::MathTrunc) },
        NamedMember { name: "sign", member: Member::Function(BuiltinFunction::MathSign) },
        NamedMember { name: "random", member: Member::Function(BuiltinFunction::MathRandom) },
        NamedMember { name: "log", member: Member::Function(BuiltinFunction::MathLog) },
        NamedMember { name: "log2", member: Member::Function(BuiltinFunction::MathLog2) },
        NamedMember { name: "cbrt", member: Member::Function(BuiltinFunction::MathCbrt) },
        NamedMember { name: "sin", member: Member::Function(BuiltinFunction::MathSin) },
        NamedMember { name: "cos", member: Member::Function(BuiltinFunction::MathCos) },
        NamedMember { name: "tan", member: Member::Function(BuiltinFunction::MathTan) },
        NamedMember { name: "exp", member: Member::Function(BuiltinFunction::MathExp) },
        NamedMember { name: "log10", member: Member::Function(BuiltinFunction::MathLog10) },
        NamedMember { name: "atan2", member: Member::Function(BuiltinFunction::MathAtan2) },
        NamedMember { name: "hypot", member: Member::Function(BuiltinFunction::MathHypot) },
        NamedMember { name: "imul", member: Member::Function(BuiltinFunction::MathImul) },
        NamedMember { name: "clz32", member: Member::Function(BuiltinFunction::MathClz32) },
        NamedMember { name: "fround", member: Member::Function(BuiltinFunction::MathFround) },
        NamedMember { name: "PI", member: Member::Number(0x4009_21fb_5444_2d18) },
        NamedMember { name: "E", member: Member::Number(0x4005_bf0a_8b14_5769) },
        NamedMember { name: "LN2", member: Member::Number(0x3fe6_2e42_fefa_39ef) },
        NamedMember { name: "LN10", member: Member::Number(0x4002_6bb1_bbb5_5516) },
        NamedMember { name: "SQRT2", member: Member::Number(0x3ff6_a09e_667f_3bcd) },
    ];
    assert(listed(v@) =~= members_of(Namespace::Math));
    v
}

fn members_array() -> (v: Vec<NamedMember>)
    ensures
        listed(v@) == members_of(Namespace::Array),
{
    let v = vec![
        NamedMember { name: "from", member: Member::Function(BuiltinFunction::ArrayFrom) },
    ];
    assert(listed(v@) =~= members_of(Namespace::Array));
    v
}

fn members_global_this() -> (v: Vec<NamedMember>)
    ensures
        listed(v@) == members_of(Namespace::GlobalThis),
{
    let v = vec![
        NamedMember { name: "Math", member: Member::Namespace(Namespace::Math) },
        NamedMember { name: "String", member: Member::Function(BuiltinFunction::StringCtor) },
        NamedMember { name: "parseInt", member: Member::Function(BuiltinFunction::ParseInt) },
        NamedMember { name: "parseFloat", member: Member::Function(BuiltinFunction::ParseFloat) },
        NamedMember { name: "isNaN", member: Member::Function(BuiltinFunction::IsNaN) },
        NamedMember { name: "isFinite", member: Member::Function(BuiltinFunction::IsFinite) },
        NamedMember { name: "encodeURIComponent", member: Member::Function(BuiltinFunction::EncodeURIComponent) },
        NamedMember { name: "decodeURIComponent", member: Member::Function(BuiltinFunction::DecodeURIComponent) },
        NamedMember { name: "encodeURI", member: Member::Function(BuiltinFunction::EncodeURI) },
        NamedMember { name: "decodeURI", member: Member::Function(BuiltinFunction::DecodeURI) },
        NamedMember { name: "Infinity", member: Member::Number(0x7ff0_0000_0000_0000) },
        NamedMember { name: "NaN", member: Member::Number(0x7ff8_0000_0000_0000) },
        NamedMember { name: "undefined", member: Member::Undefined },
        NamedMember { name: "Number", member: Member::Function(BuiltinFunction::NumberCtor) },
        NamedMember { name: "Array", member: Member::Namespace(Namespace::Array) },
        NamedMember { name: "RegExp", member: Member::Function(BuiltinFunction::RegExpCtor) },
        NamedMember { name: "Map", member: Member::Function(BuiltinFunction::MapCtor) },
        NamedMember { name: "Set", member: Member::Function(BuiltinFunction::SetCtor) },
        NamedMember { name: "JSON", member: Member::Namespace(Namespace::Json) },
        NamedMember { name: "Promise", member: Member::Namespace(Namespace::Promise) },
        NamedMember { name: "Object", member: Member::Namespace(Namespace::Object) },
    ];
    assert(listed(v@) =~= members_of(Namespace::GlobalThis));
    v
}

fn members_object() -> (v: Vec<NamedMember>)
    ensures
        listed(v@) == members_of(Namespace::Object),
{
    let v = vec![
        NamedMember { name: "keys", member: Member::Function(BuiltinFunction::ObjectKeys) },
        NamedMember { name: "values", member: Member::Function(BuiltinFunction::ObjectValues) },
        NamedMember { name: "entries", member: Member::Function(BuiltinFunction::ObjectEntries) },
        NamedMember { name: "fromEntries", member: Member::Function(BuiltinFunction::ObjectFromEntries) },
        NamedMember { name: "hasOwn", member: Member::Function(BuiltinFunction::ObjectHasOwn) },
        NamedMember { name: "is", member: Member::Function(BuiltinFunction::ObjectIs) },
        NamedMember { name: "assign", member: Member::Function(BuiltinFunction::ObjectAssign) },
    ];
    assert(listed(v@) =~= members_of(Namespace::Object));
    v
}

fn members_json() -> (v: Vec<NamedMember>)
    ensures
        listed(v@) == members_of(Namespace::Json),
{
    let v = vec![
        NamedMember { name: "stringify", member: Member::Function(BuiltinFunction::JsonStringify) },
        NamedMember { name: "parse", member: Member::Function(BuiltinFunction::JsonParse) },
    ];
    assert(listed(v@) =~= members_of(Namespace::Json));
    v
}

fn members_promise() -> (v: Vec<NamedMember>)
    ensures
        listed(v@) == members_of(Namespace::Promise),
{
    let v = vec![
        NamedMember { name: "resolve", member: Member::Function(BuiltinFunction::PromiseResolve) },
        NamedMember { name: "reject", member: Member::Function(BuiltinFunction::PromiseReject) },
    ];
    assert(listed(v@) =~= members_of(Namespace::Promise));
    v
}

fn members_date() -> (v: Vec<NamedMember>)
    ensures
        listed(v@) == members_of(Namespace::Date),
{
    let v = vec![
        NamedMember { name: "now", member: Member::Function(BuiltinFunction::DateNow) },
    ];
    assert(listed(v@) =~= members_of(Namespace::Date));
    v
}

fn members_local_storage() -> (v: Vec<NamedMember>)
    ensures
        listed(v@) == members_of(Namespace::LocalStorage),
{
    let v = vec![
        NamedMember { name: "getItem", member: Member::Function(BuiltinFunction::LocalStorageGetItem) },
        NamedMember { name: "setItem", member: Member::Function(BuiltinFunction::LocalStorageSetItem) },
        NamedMember { name: "removeItem", member: Member::Function(BuiltinFunction::LocalStorageRemoveItem) },
        NamedMember { name: "clear", member: Member::Function(BuiltinFunction::LocalStorageClear) },
    ];
    assert(listed(v@) =~= members_of(Namespace::LocalStorage));
    v
}

fn members_db() -> (v: Vec<NamedMember>)
    ensures
        listed(v@) == members_of(Namespace::Db),
{
    let v = vec![
        NamedMember { name: "query", member: Member::Function(BuiltinFunction::DbQuery) },
        NamedMember { name: "create", member: Member::Function(BuiltinFunction::DbCreate) },
        NamedMember { name: "update", member: Member::Function(BuiltinFunction::DbUpdate) },
        NamedMember { name: "delete", member: Member::Function(BuiltinFunction::DbDelete) },
        NamedMember { name: "hardDelete", member: Member::Function(BuiltinFunction::DbHardDelete) },
        NamedMember { name: "get", member: Member::Function(BuiltinFunction::DbGet) },
        NamedMember { name: "startSync", member: Member::Function(BuiltinFunction::DbStartSync) },
        NamedMember { name: "stopSync", member: Member::Function(BuiltinFunction::DbStopSync) },
        NamedMember { name: "getSyncStatus", member: Member::Function(BuiltinFunction::DbGetSyncStatus) },
        NamedMember { name: "getSavedSyncRoom", member: Member::Function(BuiltinFunction::DbGetSavedSyncRoom) },
    ];
    assert(listed(v@) =~= members_of(Namespace::Db));
    v
}

fn members_draw() -> (v: Vec<NamedMember>)
    ensures
        listed(v@) == members_of(Namespace::Draw),
{
    let v = vec![
        NamedMember { name: "rect", member: Member::Function(BuiltinFunction::DrawRect) },
        NamedMember { name: "roundedRect", member: Member::Function(BuiltinFunction::DrawRoundedRect) },
        NamedMember { name: "circle", member: Member::Function(BuiltinFunction::DrawCircle) },
        NamedMember { name: "ellipse", member: Member::Function(BuiltinFunction::DrawEllipse) },
        NamedMember { name: "line", member: Member::Function(BuiltinFunction::DrawLine) },
        NamedMember { name: "path", member: Member::Function(BuiltinFunction::DrawPath) },
        NamedMember { name: "text", member: Member::Function(BuiltinFunction::DrawText) },
        NamedMember { name: "image", member: Member::Function(BuiltinFunction::DrawImage) },
        NamedMember { name: "linearGradient", member: Member::Function(BuiltinFunction::DrawLinearGradient) },
        NamedMember { name: "radialGradient", member: Member::Function(BuiltinFunction::DrawRadialGradient) },
        NamedMember { name: "shadow", member: Member::Function(BuiltinFunction::DrawShadow) },
        NamedMember { name: "pushClip", member: Member::Function(BuiltinFunction::DrawPushClip) },
        NamedMember { name: "popClip", member: Member::Function(BuiltinFunction::DrawPopClip) },
        NamedMember { name: "pushTransform", member: Member::Function(BuiltinFunction::DrawPushTransform) },
        NamedMember { name: "popTransform", member: Member::Function(BuiltinFunction::DrawPopTransform) },
        NamedMember { name: "pushOpacity", member: Member::Function(BuiltinFunction::DrawPushOpacity) },
        NamedMember { name: "popOpacity", member: Member::Function(BuiltinFunction::DrawPopOpacity) },
        NamedMember { name: "arc", member: Member::Function(BuiltinFunction::DrawArc) },
        NamedMember { name: "measureText", member: Member::Function(BuiltinFunction::DrawMeasureText) },
        NamedMember { name: "getViewportWidth", member: Member::Function(BuiltinFunction::DrawGetViewportWidth) },
        NamedMember { name: "getViewportHeight", member: Member::Function(BuiltinFunction::DrawGetViewportHeight) },
    ];
    assert(listed(v@) =~= members_of(Namespace::Draw));
    v
}

fn members_layout() -> (v: Vec<NamedMember>)
    ensures
        listed(v@) == members_of(Namespace::Layout),
{
    let v = vec![
        NamedMember { name: "createNode", member: Member::Function(BuiltinFunction::LayoutCreateNode) },
        NamedMember { name: "updateStyle", member: Member::Function(BuiltinFunction::LayoutUpdateStyle) },
        NamedMember { name: "setChildren", member: Member::Function(BuiltinFunction::LayoutSetChildren) },
        NamedMember { name: "computeLayout", member: Member::Function(BuiltinFunction::LayoutComputeLayout) },
        NamedMember { name: "getLayout", member: Member::Function(BuiltinFunction::LayoutGetLayout) },
        NamedMember { name: "removeNode", member: Member::Function(BuiltinFunction::LayoutRemoveNode) },
        NamedMember { name: "clear", member: Member::Function(BuiltinFunction::LayoutClear) },
    ];
    assert(listed(v@) =~= members_of(Namespace::Layout));
    v
}

fn members_input() -> (v: Vec<NamedMember>)
    ensures
        listed(v@) == members_of(Namespace::Input),
{
    let v = vec![
        NamedMember { name: "getMouseX", member: Member::Function(BuiltinFunction::InputGetMouseX) },
        NamedMember { name: "getMouseY", member: Member::Function(BuiltinFunction::InputGetMouseY) },
        NamedMember { name: "isMouseDown", member: Member::Function(BuiltinFunction::InputIsMouseDown) },
        NamedMember { name: "isMousePressed", member: Member::Function(BuiltinFunction::InputIsMousePressed) },
        NamedMember { name: "isMouseReleased", member: Member::Function(BuiltinFunction::InputIsMouseReleased) },
        NamedMember { name: "getScrollY", member: Member::Function(BuiltinFunction::InputGetScrollY) },
        NamedMember { name: "setCursor", member: Member::Function(BuiltinFunction::InputSetCursor) },
        NamedMember { name: "getTextInput", member: Member::Function(BuiltinFunction::InputGetTextInput) },
        NamedMember { name: "isBackspacePressed", member: Member::Function(BuiltinFunction::InputIsBackspacePressed) },
        NamedMember { name: "isEscapePressed", member: Member::Function(BuiltinFunction::InputIsEscapePressed) },
        NamedMember { name: "requestRedraw", member: Member::Function(BuiltinFunction::InputRequestRedraw) },
        NamedMember { name: "getElapsedSecs", member: Member::Function(BuiltinFunction::InputGetElapsedSecs) },
        NamedMember { name: "getPageElapsedSecs", member: Member::Function(BuiltinFunction::InputGetPageElapsedSecs) },
        NamedMember { name: "getDeltaTime", member: Member::Function(BuiltinFunction::InputGetDeltaTime) },
        NamedMember { name: "getFocusedInput", member: Member::Function(BuiltinFunction::InputGetFocusedInput) },
        NamedMember { name: "setFocusedInput", member: Member::Function(BuiltinFunction::InputSetFocusedInput) },
        NamedMember { name: "isKeyDown", member: Member::Function(BuiltinFunction::InputIsKeyDown) },
    ];
    assert(listed(v@) =~= members_of(Namespace::Input));
    v
}

fn members_host() -> (v: Vec<NamedMember>)
    ensures
        listed(v@) == members_of(Namespace::Host),
{
    let v = vec![
        NamedMember { name: "call", member: Member::Function(BuiltinFunction::HostCall) },
    ];
    assert(listed(v@) =~= members_of(Namespace::Host));
    v
}

/// The names and members of a list.
pub open spec fn listed(v: Seq<NamedMember>) -> Seq<(Seq<char>, Member)> {
    Seq::new(v.len(), |i: int| (v[i].name@, v[i].member))
}

/// The members of a namespace, in order.
pub fn members(ns: Namespace) -> (v: Vec<NamedMember>)
    ensures
        listed(v@) == members_of(ns),
{
    match ns {
        Namespace::Math => members_math(),
        Namespace::Array => members_array(),
        Namespace::GlobalThis => members_global_this(),
        Namespace::Object => members_object(),
        Namespace::Json => members_json(),
        Namespace::Promise => members_promise(),
        Namespace::Date => members_date(),
        Namespace::LocalStorage => members_local_storage(),
        Namespace::Db => members_db(),
        Namespace::Draw => members_draw(),
        Namespace::Layout => members_layout(),
        Namespace::Input => members_input(),
        Namespace::Host => members_host(),
    }
}

/// Only the global object holds other namespaces.
pub proof fn law_namespaces_do_not_nest_deeper(ns: Namespace, i: int)
    requires
        0 <= i < members_of(ns).len(),
    ensures
        members_of(ns)[i].1 matches Member::Namespace(inner) ==> depth_of(inner) < depth_of(ns),
{
}

/// Make the object that a member stands for.
pub fn make_member(realm: &mut Realm, m: Member) -> (obj: Object)
    ensures
        object_view(obj) == member_object(old(realm)@, m).1,
        final(realm)@ == member_object(old(realm)@, m).0,
    decreases (if let Member::Namespace(ns) = m { depth_of(ns) + 1 } else { 0 }), 1int,
{
    match m {
        Member::Function(function) => Object::BuiltinFunction(
            Box::new(BuiltinFunctionObject { function, receiver: None }),
        ),
        Member::Number(bits) => Object::Float(bits),
        Member::Undefined => Object::Undefined,
        Member::Namespace(ns) => make_hash(make_namespace(realm, ns)),
    }
}

fn make_namespace(realm: &mut Realm, ns: Namespace) -> (hash: HashObject)
    ensures
        ObjectView::Hash(hash_view(hash)) == member_object(
            old(realm)@,
            Member::Namespace(ns),
        ).1,
        final(realm)@ == member_object(old(realm)@, Member::Namespace(ns)).0,
    decreases depth_of(ns) + 1, 0int,
{
    let ghost start = realm@;
    let mut hash = HashObject::new(realm);
    let list = members(ns);
    let mut i: usize = 0;
    while i < list.len()
        invariant
            0 <= i <= list@.len(),
            listed(list@) == members_of(ns),
            hash.wf(),
            hash.values@.len() <= i,
            with_members(realm@, hash_view(hash), ns, i as int) == with_members(
                start.after_id(),
                HashView::empty(start.next_object_id),
                ns,
                0,
            ),
        decreases list@.len() - i,
    {
        proof {
            law_namespaces_do_not_nest_deeper(ns, i as int);
            assert(listed(list@)[i as int] == (list@[i as int].name@, list@[i as int].member));
        }
        let obj = make_member(realm, list[i].member);
        let key = HashKey::from_string(&mut realm.symbols, list[i].name);
        hash.insert_pair_obj(key, obj);
        i += 1;
    }
    hash
}

/// The object that a global builtin name stands for, if it is one.
pub fn builtin_global_object(realm: &mut Realm, name: &str) -> (r: Option<Object>)
    ensures
        match global_member(name@) {
            None => r is None && final(realm)@ == old(realm)@,
            Some(m) => r matches Some(obj) && object_view(obj) == member_object(old(realm)@, m).1
                && final(realm)@ == member_object(old(realm)@, m).0,
        },
{
    match lookup_global(name) {
        Some(m) => Some(make_member(realm, m)),
        None => None,
    }
}

} // verus!
