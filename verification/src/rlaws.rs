//! What holds of every program that the register compiler accepts.
use vstd::prelude::*;

use crate::ast::Program;
use crate::names::Names;
use crate::object::ClassView;
use crate::rcode::{law_rencode_length, rencode, ROp};
use crate::rcodegen::RView;
use crate::rcompiler::rprogram_bytecode;
use crate::realm::RealmView;
use crate::rkeep_statements::lemma_program_sound;
use crate::rlayout::{constants_within, is_whole, jumps_land, registers_within};
use crate::rrules::{persistent_start, plain_start, rgen_program};
use crate::rsound::{are_laid_out, is_narrow};

verus! {

/// Whether the compilation of a program can start in a state: nothing has been
/// generated, and no loop or `try` block is open.
pub open spec fn is_start(s: RView) -> bool {
    &&& s.instructions.len() == 0
    &&& s.constants.len() == 0
    &&& s.loop_stack.len() == 0
    &&& s.try_stack.len() == 0
    &&& s.string_slots == Map::<Seq<char>, usize>::empty()
    &&& s.int_slots == Map::<u64, usize>::empty()
    &&& s.float_slots == Map::<u64, usize>::empty()
    &&& s.locals == Names::<u16>::empty()
    &&& s.class_defs == Names::<ClassView>::empty()
}

/// A compiler starts with nothing generated, whatever symbols there are and whichever
/// globals it knows.
pub proof fn law_compilation_starts_empty(
    realm: RealmView,
    globals: Names<u16>,
    next_global: u32,
    program: Program,
)
    ensures
        ({
            let s = RView { globals, next_global, ..RView::start(realm) };
            is_start(plain_start(s, program)) && is_start(persistent_start(s))
        }),
{
}

/// The code of a program consists of whole instructions, from the first byte to the
/// last, unless a function in it captures more than 255 variables, which its instruction
/// cannot count. The functions and classes among its constants are laid out as well.
pub proof fn law_code_is_whole(start: RView, program: Program)
    requires
        is_start(start),
    ensures
        ({
            let b = rprogram_bytecode(rgen_program(start, program));
            &&& is_narrow(b.constants) && b.instructions.len() <= usize::MAX ==> is_whole(
                b.instructions,
            )
            &&& are_laid_out(b.constants)
        }),
{
    lemma_program_sound(start, program);
}

/// Each constant that the code of a program refers to is one of the program's.
pub proof fn law_constants_are_there(start: RView, program: Program)
    requires
        is_start(start),
    ensures
        ({
            let b = rprogram_bytecode(rgen_program(start, program));
            is_narrow(b.constants) && b.instructions.len() <= usize::MAX ==> constants_within(
                b.instructions,
                b.constants.len() as int,
            )
        }),
{
    lemma_program_sound(start, program);
}

/// Each register that the code of a program uses is less than the register count of
/// the program, unless it has used up all registers.
pub proof fn law_registers_are_counted(start: RView, program: Program)
    requires
        is_start(start),
    ensures
        ({
            let b = rprogram_bytecode(rgen_program(start, program));
            is_narrow(b.constants) && b.instructions.len() <= usize::MAX && b.register_count > 0
                ==> registers_within(b.instructions, b.register_count as int)
        }),
{
    lemma_program_sound(start, program);
}

/// A jump in the code of a program that fits 16-bit positions goes to the start of an
/// instruction or to the end of the code, unless it never got a target.
pub proof fn law_jumps_go_to_instructions(start: RView, program: Program)
    requires
        is_start(start),
    ensures
        ({
            let b = rprogram_bytecode(rgen_program(start, program));
            is_narrow(b.constants) && b.instructions.len() <= 0xffff ==> jumps_land(
                b.instructions,
            )
        }),
{
    lemma_program_sound(start, program);
}

/// The code of a program ends with the instruction that halts.
pub proof fn law_program_halts(start: RView, program: Program)
    ensures
        ({
            let code = rprogram_bytecode(rgen_program(start, program)).instructions;
            let n = code.len() as int;
            ||| n >= 1 && code[n - 1] == ROp::Halt as u8
            ||| n >= 3 && code[n - 3] == ROp::HaltValue as u8
        }),
{
    reveal(rgen_program);
    reveal(RView::emit);
    law_rencode_length(ROp::Halt, seq![]);
    assert forall|r: u16| (#[trigger] rencode(ROp::HaltValue, seq![r])).len() == 3 && rencode(
        ROp::HaltValue,
        seq![r],
    )[0] == ROp::HaltValue as u8 by {
        law_rencode_length(ROp::HaltValue, seq![r]);
        reveal_with_fuel(crate::code::widths_total, 3);
    }
}

} // verus!
