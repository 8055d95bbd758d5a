//! Compiled programs.
use vstd::prelude::*;

use crate::names::{NameMap, Names};
use crate::object::{objects_view, Object, ObjectView};
use crate::realm::{Realm, RealmView};

verus! {

/// A position in the code and the source line it came from.
#[derive(Clone, Copy, Debug, PartialEq, Eq, Structural)]
pub struct LineEntry {
    pub position: usize,
    pub line: usize,
}

#[derive(Debug)]
pub struct Bytecode {
    pub instructions: Vec<u8>,
    pub constants: Vec<Object>,
    pub line_number_table: Vec<LineEntry>,
    pub num_cache_slots: u16,
    pub max_stack_depth: u16,
    /// Maximum number of registers used by this program.
    pub register_count: u16,
    /// Maps global variable names to their slot indices.
    pub globals_table: NameMap<u16>,
    /// The realm that the constants belong to.
    pub realm: Realm,
}

/// What a compiled program holds.
#[verifier::ext_equal]
pub struct BytecodeView {
    pub instructions: Seq<u8>,
    pub constants: Seq<ObjectView>,
    pub line_number_table: Seq<LineEntry>,
    pub num_cache_slots: u16,
    pub max_stack_depth: u16,
    pub register_count: u16,
    pub globals_table: Names<u16>,
    pub realm: RealmView,
}

impl View for Bytecode {
    type V = BytecodeView;

    open spec fn view(&self) -> BytecodeView {
        BytecodeView {
            instructions: self.instructions@,
            constants: objects_view(self.constants),
            line_number_table: self.line_number_table@,
            num_cache_slots: self.num_cache_slots,
            max_stack_depth: self.max_stack_depth,
            register_count: self.register_count,
            globals_table: self.globals_table@,
            realm: self.realm@,
        }
    }
}

impl Bytecode {
    /// A program without cache slots.
    pub fn new(
        realm: Realm,
        instructions: Vec<u8>,
        constants: Vec<Object>,
        line_number_table: Vec<LineEntry>,
    ) -> (b: Self)
        ensures
            b@ == (BytecodeView {
                instructions: instructions@,
                constants: objects_view(constants),
                line_number_table: line_number_table@,
                num_cache_slots: 0,
                max_stack_depth: 0,
                register_count: 0,
                globals_table: Names::empty(),
                realm: realm@,
            }),
    {
        Bytecode::with_cache_slots(realm, instructions, constants, line_number_table, 0, 0, 0)
    }

    pub fn with_cache_slots(
        realm: Realm,
        instructions: Vec<u8>,
        constants: Vec<Object>,
        line_number_table: Vec<LineEntry>,
        num_cache_slots: u16,
        max_stack_depth: u16,
        register_count: u16,
    ) -> (b: Self)
        ensures
            b@ == (BytecodeView {
                instructions: instructions@,
                constants: objects_view(constants),
                line_number_table: line_number_table@,
                num_cache_slots,
                max_stack_depth,
                register_count,
                globals_table: Names::empty(),
                realm: realm@,
            }),
    {
        Bytecode {
            instructions,
            constants,
            line_number_table,
            num_cache_slots,
            max_stack_depth,
            register_count,
            globals_table: NameMap::new(),
            realm,
        }
    }
}

} // verus!
