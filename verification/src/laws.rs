//! What holds of every program that the stack compiler accepts.
use vstd::prelude::*;

use crate::ast::Program;
use crate::code::{encode, law_encode_length, Opcode};
use crate::codegen::CompilerView;
use crate::keep_statements::keeps_stmts;
use crate::layout::is_complete;
use crate::realm::RealmView;
use crate::rules::{declare_all, gen_program, var_names};
use crate::sound::{
    are_composed, grows, growth_is_sound, lemma_grows_self, lemma_sound_code,
    lemma_start_is_sound, step_declare_all, step_emit0,
};

verus! {

/// The code of a program consists of whole instructions, from the first byte to the
/// last, and so does the code of the functions and classes among its constants.
pub proof fn law_stack_code_is_whole(realm: RealmView, program: Program)
    ensures
        ({
            let s = gen_program(CompilerView::start(realm), program);
            s.err is None ==> is_complete(s.instructions) && are_composed(s.constants)
        }),
{
    broadcast use {growth_is_sound, step_emit0, step_declare_all};

    reveal(gen_program);
    let start = CompilerView::start(realm);
    lemma_start_is_sound(start);
    lemma_grows_self(start);
    let stmts = program.statements;
    let s = declare_all(start, var_names(stmts, 0), 0);
    keeps_stmts(s, stmts, 0);
    let t = gen_program(start, program);
    assert(grows(start, t));
    lemma_sound_code(t);
}

/// The code of a program ends with the instruction that halts.
pub proof fn law_stack_program_halts(realm: RealmView, program: Program)
    ensures
        ({
            let code = gen_program(CompilerView::start(realm), program).instructions;
            code.len() > 0 && code.last() == Opcode::OpHalt as u8
        }),
{
    reveal(gen_program);
    reveal(CompilerView::emit0);
    reveal(CompilerView::emit);
    let none = Seq::<u16>::empty();
    law_encode_length(Opcode::OpHalt, none);
    assert(encode(Opcode::OpHalt, none).len() == 1);
}

} // verus!
