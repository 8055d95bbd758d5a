//! Compiling source text, with a cache of what was compiled before.
use std::rc::Rc;

use indexmap::IndexMap;
use vstd::prelude::*;

use crate::ast::Program;
use crate::config::{default_config, FormLogicConfig};
use crate::machine::is_ready;
use crate::object::{objects_view, Object};
use crate::rcodegen::RView;
use crate::rcompiler::{rprogram_bytecode, RCompiler};
use crate::realm::{Realm, RealmView};
use crate::render::{add_part, joined_with};
use crate::rrules::{persistent_start, plain_start, rgen_program};
use crate::script::{ScriptState, GC_INITIAL_THRESHOLD};
use crate::text::concat;

verus! {

/// The number of programs that the cache holds.
pub const BYTECODE_CACHE_CAPACITY: usize = 256;

/// A compiled program in the cache. Copies share the code.
#[derive(Debug)]
pub struct CachedBytecode {
    pub instructions: Rc<Vec<u8>>,
    pub constants: Rc<Vec<Object>>,
    pub num_cache_slots: u16,
    pub max_stack_depth: u16,
    pub register_count: u16,
}

impl CachedBytecode {
    pub fn dup(&self) -> (r: Self)
        ensures
            r == *self,
    {
        CachedBytecode {
            instructions: self.instructions.clone(),
            constants: self.constants.clone(),
            num_cache_slots: self.num_cache_slots,
            max_stack_depth: self.max_stack_depth,
            register_count: self.register_count,
        }
    }
}

/// An insertion-ordered hash map from source text to compiled programs.
#[verifier::external_body]
#[derive(Debug)]
pub struct CodeMap {
    map: IndexMap<String, CachedBytecode>,
}

/// The entries of a `CodeMap`, in order.
pub uninterp spec fn code_map_entries(m: CodeMap) -> Seq<(Seq<char>, CachedBytecode)>;

/// No entries.
pub open spec fn no_code() -> Seq<(Seq<char>, CachedBytecode)> {
    Seq::empty()
}

/// Whether a source text is among the entries.
pub open spec fn has_source(entries: Seq<(Seq<char>, CachedBytecode)>, source: Seq<char>) -> bool {
    exists|i: int| 0 <= i < entries.len() && (#[trigger] entries[i]).0 == source
}

/// Whether no source text is among the entries twice.
pub open spec fn sources_differ(entries: Seq<(Seq<char>, CachedBytecode)>) -> bool {
    forall|i: int, j: int|
        0 <= i < j < entries.len() ==> (#[trigger] entries[i]).0 != (#[trigger] entries[j]).0
}

impl CodeMap {
    /// Calls `IndexMap::new`: the map is empty.
    #[verifier::external_body]
    pub(crate) fn new() -> (m: Self)
        ensures
            code_map_entries(m) == no_code(),
    {
        CodeMap { map: IndexMap::new() }
    }

    /// Calls `IndexMap::len`: the number of entries.
    #[verifier::external_body]
    pub(crate) fn len(&self) -> (n: usize)
        ensures
            n == code_map_entries(*self).len(),
    {
        self.map.len()
    }

    /// Calls `IndexMap::get`: the program of an entry with that source text, and
    /// none exactly when there is no such entry.
    #[verifier::external_body]
    pub(crate) fn get(&self, source: &str) -> (r: Option<&CachedBytecode>)
        ensures
            match r {
                Some(code) => exists|i: int|
                    0 <= i < code_map_entries(*self).len() && #[trigger] code_map_entries(*self)[i]
                        == (source@, *code),
                None => !has_source(code_map_entries(*self), source@),
            },
    {
        self.map.get(source)
    }

    /// Calls `IndexMap::swap_remove_index`: the entry at a position is taken out
    /// and the last entry takes its place.
    #[verifier::external_body]
    pub(crate) fn swap_remove_at(&mut self, i: usize)
        requires
            i < code_map_entries(*old(self)).len(),
        ensures
            code_map_entries(*final(self)) == code_map_entries(*old(self)).update(
                i as int,
                code_map_entries(*old(self)).last(),
            ).drop_last(),
    {
        self.map.swap_remove_index(i);
    }

    /// Calls `IndexMap::insert`: an entry for a new source text is added at the
    /// end.
    #[verifier::external_body]
    pub(crate) fn insert(&mut self, source: String, code: CachedBytecode)
        requires
            !has_source(code_map_entries(*old(self)), source@),
        ensures
            code_map_entries(*final(self)) == code_map_entries(*old(self)).push((source@, code)),
    {
        self.map.insert(source, code);
    }
}

/// The entries after a program was stored: when the cache is full, the first
/// entry makes room, and the last takes its place.
pub open spec fn stored(
    entries: Seq<(Seq<char>, CachedBytecode)>,
    source: Seq<char>,
    code: CachedBytecode,
) -> Seq<(Seq<char>, CachedBytecode)> {
    let room = if entries.len() >= BYTECODE_CACHE_CAPACITY {
        entries.update(0, entries.last()).drop_last()
    } else {
        entries
    };
    room.push((source, code))
}

/// Whether a cache is in order: not too large, and without duplicates.
pub open spec fn cache_wf(entries: Seq<(Seq<char>, CachedBytecode)>) -> bool {
    entries.len() <= BYTECODE_CACHE_CAPACITY && sources_differ(entries)
}

/// A cache stays within its capacity, and holds no source text twice.
pub proof fn law_cache_stays_in_order(
    entries: Seq<(Seq<char>, CachedBytecode)>,
    source: Seq<char>,
    code: CachedBytecode,
)
    requires
        cache_wf(entries),
        !has_source(entries, source),
    ensures
        cache_wf(stored(entries, source, code)),
{
    let after = stored(entries, source, code);
    let n = entries.len();
    assert forall|i: int, j: int| 0 <= i < j < after.len() implies (#[trigger] after[i]).0 != (
    #[trigger] after[j]).0 by {
        let i0 = if n >= BYTECODE_CACHE_CAPACITY && i == 0 {
            n - 1
        } else {
            i
        };
        assert(after[i] == entries[i0]);
        if j < after.len() - 1 {
            assert(after[j] == entries[j]);
            if i0 > j {
                assert(entries[j].0 != entries[i0].0);
            } else {
                assert(entries[i0].0 != entries[j].0);
            }
        }
    }
}

/// A program that was stored is found again.
pub proof fn law_stored_program_is_found(
    entries: Seq<(Seq<char>, CachedBytecode)>,
    source: Seq<char>,
    code: CachedBytecode,
)
    ensures
        has_source(stored(entries, source, code), source),
        stored(entries, source, code).last() == (source, code),
{
    let after = stored(entries, source, code);
    assert(after[after.len() - 1].0 == source);
}

/// Storing a program makes the cache forget at most the entry at its front.
pub proof fn law_storing_forgets_only_the_first(
    entries: Seq<(Seq<char>, CachedBytecode)>,
    source: Seq<char>,
    code: CachedBytecode,
    i: int,
)
    requires
        0 <= i < entries.len(),
        i > 0 || entries.len() < BYTECODE_CACHE_CAPACITY,
    ensures
        stored(entries, source, code).contains(entries[i]),
{
    let after = stored(entries, source, code);
    if entries.len() >= BYTECODE_CACHE_CAPACITY && i == entries.len() - 1 {
        assert(after[0] == entries[i]);
    } else {
        assert(after[i] == entries[i]);
    }
}

/// The message for source text that could not be parsed.
pub open spec fn parser_errors(errors: Seq<String>) -> Seq<char> {
    "Parser errors: "@ + joined_with(crate::compiler::texts(errors), ", "@, errors.len() as int)
}

pub(crate) fn join_parser_errors(errors: &Vec<String>) -> (r: String)
    ensures
        r@ == parser_errors(errors@),
{
    let ghost parts = crate::compiler::texts(errors@);
    let mut out = String::new();
    let mut i: usize = 0;
    while i < errors.len()
        invariant
            0 <= i <= errors@.len(),
            parts == crate::compiler::texts(errors@),
            out@ == joined_with(parts, ", "@, i as int),
        decreases errors@.len() - i,
    {
        let ghost before = out@;
        add_part(&mut out, ", ", i == 0, errors[i].as_str());
        assert(parts[i as int] == errors@[i as int]@);
        if i == 0 {
            assert(before + parts[0] =~= parts[0]);
        }
        i += 1;
    }
    concat("Parser errors: ", out.as_str())
}

/// Whether a program in the cache is the one that a compiler's state holds.
pub open spec fn is_code_of(code: CachedBytecode, s: RView) -> bool {
    let b = rprogram_bytecode(s);
    &&& code.instructions@ == b.instructions
    &&& objects_view(*code.constants) == b.constants
    &&& code.num_cache_slots == b.num_cache_slots
    &&& code.max_stack_depth == b.max_stack_depth
    &&& code.register_count == b.register_count
}

/// What it means to load source text. A text that is in the cache is neither parsed
/// nor compiled again. Any other is parsed; if that gives no errors it is compiled,
/// and stored if that succeeds.
pub open spec fn loads<P: Fn(&str) -> (Program, Vec<String>)>(
    before: FormLogicEngine,
    after: FormLogicEngine,
    source: &str,
    parse: P,
    r: Result<CachedBytecode, String>,
) -> bool {
    let entries = code_map_entries(before.bytecode_cache);
    if has_source(entries, source@) {
        r matches Ok(code) && entries.contains((source@, code)) && after == before
    } else {
        exists|parsed: (Program, Vec<String>)| #[trigger]
            call_ensures(parse, (source,), parsed) && compiles(before, after, source@, parsed, r)
    }
}

/// What it means to compile a parsed program, and to store it.
pub open spec fn compiles(
    before: FormLogicEngine,
    after: FormLogicEngine,
    source: Seq<char>,
    parsed: (Program, Vec<String>),
    r: Result<CachedBytecode, String>,
) -> bool {
    let s = rgen_program(plain_start(RView::start(before.realm@), parsed.0), parsed.0);
    let entries = code_map_entries(before.bytecode_cache);
    &&& after.config == before.config
    &&& if parsed.1@.len() > 0 {
        r matches Err(e) && e@ == parser_errors(parsed.1@) && after == before
    } else {
        &&& after.realm@ == s.realm
        &&& match s.err {
            Some(message) => r matches Err(e) && e@ == message && code_map_entries(
                after.bytecode_cache,
            ) == entries,
            None => r matches Ok(code) && is_code_of(code, s) && code_map_entries(
                after.bytecode_cache,
            ) == stored(entries, source, code),
        }
    }
}

/// What it means to compile a script: it is parsed, and compiled in a realm of its
/// own so that all its top-level variables stay accessible.
pub open spec fn script_compiles<P: Fn(&str) -> (Program, Vec<String>)>(
    engine: FormLogicEngine,
    source: &str,
    parse: P,
    r: Result<ScriptState, String>,
) -> bool {
    exists|parsed: (Program, Vec<String>)| #[trigger]
        call_ensures(parse, (source,), parsed) && if parsed.1@.len() > 0 {
            r matches Err(e) && e@ == parser_errors(parsed.1@)
        } else {
            let s = rgen_program(persistent_start(RView::start(RealmView::empty())), parsed.0);
            match s.err {
                Some(message) => r matches Err(e) && e@ == message,
                None => r matches Ok(script) && is_script_of(script, s, engine.config),
            }
        }
}

/// Whether a script is ready to run the program that a compiler's state holds.
pub open spec fn is_script_of(script: ScriptState, s: RView, config: FormLogicConfig) -> bool {
    let b = rprogram_bytecode(s);
    &&& script.wf()
    &&& script.globals_table@ == b.globals_table
    &&& script.realm@ == b.realm
    &&& script.gc_threshold == GC_INITIAL_THRESHOLD
    &&& script.machine.instructions@ == b.instructions
    &&& objects_view(*script.machine.constants) == b.constants
    &&& is_ready(
        script.machine,
        script.machine.instructions,
        script.machine.constants,
        b.num_cache_slots,
        b.max_stack_depth,
        b.register_count,
        config,
    )
}

/// Compiles source text, and keeps what it has compiled.
#[derive(Debug)]
pub struct FormLogicEngine {
    pub config: FormLogicConfig,
    pub bytecode_cache: CodeMap,
    /// Symbols that all programs of the engine share.
    pub realm: Realm,
}

impl Default for FormLogicEngine {
    fn default() -> (e: Self)
        ensures
            e.wf(),
            e.config == default_config(),
            code_map_entries(e.bytecode_cache) == no_code(),
            e.realm@ == RealmView::empty(),
    {
        FormLogicEngine::new()
    }
}

impl FormLogicEngine {
    pub open spec fn wf(self) -> bool {
        cache_wf(code_map_entries(self.bytecode_cache))
    }

    pub fn new() -> (e: Self)
        ensures
            e.wf(),
            e.config == default_config(),
            code_map_entries(e.bytecode_cache) == no_code(),
            e.realm@ == RealmView::empty(),
    {
        FormLogicEngine::with_config(FormLogicConfig::default())
    }

    pub fn with_config(config: FormLogicConfig) -> (e: Self)
        ensures
            e.wf(),
            e.config == config,
            code_map_entries(e.bytecode_cache) == no_code(),
            e.realm@ == RealmView::empty(),
    {
        FormLogicEngine { config, bytecode_cache: CodeMap::new(), realm: Realm::new() }
    }

    /// The program of a source text, if it was compiled before and is still in
    /// the cache.
    pub fn lookup(&self, source: &str) -> (r: Option<CachedBytecode>)
        ensures
            match r {
                Some(code) => code_map_entries(self.bytecode_cache).contains((source@, code)),
                None => !has_source(code_map_entries(self.bytecode_cache), source@),
            },
    {
        match self.bytecode_cache.get(source) {
            Some(code) => {
                let copy = code.dup();
                proof {
                    let entries = code_map_entries(self.bytecode_cache);
                    let i = choose|i: int|
                        0 <= i < entries.len() && #[trigger] entries[i] == (source@, *code);
                    assert(entries[i] == (source@, copy));
                }
                Some(copy)
            },
            None => None,
        }
    }

    /// Compile a program that was parsed from a source text, and store it.
    /// `errors` are those of the parser.
    pub fn compile_source(&mut self, source: &str, program: &Program, errors: &Vec<String>) -> (r:
        Result<CachedBytecode, String>)
        requires
            old(self).wf(),
            !has_source(code_map_entries(old(self).bytecode_cache), source@),
        ensures
            final(self).wf(),
            final(self).config == old(self).config,
            ({
                let s = rgen_program(
                    plain_start(RView::start(old(self).realm@), *program),
                    *program,
                );
                let entries = code_map_entries(old(self).bytecode_cache);
                let after = code_map_entries(final(self).bytecode_cache);
                if errors@.len() > 0 {
                    r matches Err(e) && e@ == parser_errors(errors@) && *final(self) == *old(self)
                } else {
                    match s.err {
                        Some(message) => r matches Err(e) && e@ == message && after == entries
                            && final(self).realm@ == s.realm,
                        None => r matches Ok(code) && is_code_of(code, s) && after == stored(
                            entries,
                            source@,
                            code,
                        ) && final(self).realm@ == s.realm,
                    }
                }
            }),
    {
        if errors.len() > 0 {
            return Err(join_parser_errors(errors));
        }
        let mut realm = Realm::new();
        core::mem::swap(&mut self.realm, &mut realm);
        match RCompiler::in_realm(realm).compile_in(program, false) {
            Err((e, realm)) => {
                self.realm = realm;
                Err(e)
            },
            Ok(b) => {
                self.realm = b.realm;
                let code = CachedBytecode {
                    instructions: Rc::new(b.instructions),
                    constants: Rc::new(b.constants),
                    num_cache_slots: b.num_cache_slots,
                    max_stack_depth: b.max_stack_depth,
                    register_count: b.register_count,
                };
                let ghost entries = code_map_entries(self.bytecode_cache);
                proof {
                    law_cache_stays_in_order(entries, source@, code);
                }
                if self.bytecode_cache.len() >= BYTECODE_CACHE_CAPACITY {
                    self.bytecode_cache.swap_remove_at(0);
                    proof {
                        let room = code_map_entries(self.bytecode_cache);
                        if has_source(room, source@) {
                            let i = choose|i: int|
                                0 <= i < room.len() && (#[trigger] room[i]).0 == source@;
                            let i0 = if i == 0 {
                                entries.len() - 1
                            } else {
                                i
                            };
                            assert(room[i] == entries[i0]);
                        }
                    }
                }
                self.bytecode_cache.insert(source.to_owned(), code.dup());
                Ok(code)
            },
        }
    }

    /// The program of a source text: from the cache, or parsed and compiled.
    pub fn load<F: Fn(&str) -> (Program, Vec<String>)>(&mut self, source: &str, parse: &F) -> (r:
        Result<CachedBytecode, String>)
        requires
            old(self).wf(),
            forall|text: &str| #[trigger] call_requires(*parse, (text,)),
        ensures
            final(self).wf(),
            loads(*old(self), *final(self), source, *parse, r),
    {
        if let Some(code) = self.lookup(source) {
            proof {
                let entries = code_map_entries(self.bytecode_cache);
                let i = entries.index_of((source@, code));
                assert(entries[i].0 == source@);
            }
            return Ok(code);
        }
        let parsed = parse(source);
        let r = self.compile_source(source, &parsed.0, &parsed.1);
        assert(compiles(*old(self), *self, source@, parsed, r));
        r
    }

    /// Parse and compile a script without running it. All its top-level
    /// variables stay accessible.
    pub fn compile_script<F: Fn(&str) -> (Program, Vec<String>)>(&self, source: &str, parse: &F) -> (r:
        Result<ScriptState, String>)
        requires
            forall|text: &str| #[trigger] call_requires(*parse, (text,)),
        ensures
            script_compiles(*self, source, *parse, r),
    {
        let parsed = parse(source);
        if parsed.1.len() > 0 {
            return Err(join_parser_errors(&parsed.1));
        }
        match RCompiler::new().compile_program_persistent(&parsed.0) {
            Ok(b) => Ok(ScriptState::new(b, self.config)),
            Err(e) => Err(e),
        }
    }
}

/// A program that was loaded is neither parsed nor compiled again: loading it once
/// more gives the same program and changes nothing.
pub proof fn law_loaded_program_is_kept<P: Fn(&str) -> (Program, Vec<String>)>(
    before: FormLogicEngine,
    loaded: FormLogicEngine,
    after: FormLogicEngine,
    source: &str,
    parse: P,
    code: CachedBytecode,
    r: Result<CachedBytecode, String>,
)
    requires
        before.wf(),
        loads(before, loaded, source, parse, Ok(code)),
        loads(loaded, after, source, parse, r),
    ensures
        r == Ok::<CachedBytecode, String>(code),
        after == loaded,
{
    let entries = code_map_entries(before.bytecode_cache);
    let kept = code_map_entries(loaded.bytecode_cache);
    if !has_source(entries, source@) {
        law_stored_program_is_found(entries, source@, code);
        law_cache_stays_in_order(entries, source@, code);
        assert(kept[kept.len() - 1] == (source@, code));
    }
    assert(kept.contains((source@, code)));
    let i = kept.index_of((source@, code));
    assert(kept[i].0 == source@);
    assert(has_source(kept, source@));
    let found = r->Ok_0;
    let j = kept.index_of((source@, found));
    assert(sources_differ(kept));
    if i < j {
        assert(kept[i].0 != kept[j].0);
    } else if j < i {
        assert(kept[j].0 != kept[i].0);
    }
}

} // verus!
