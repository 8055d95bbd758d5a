use formlogic_core::code::{lookup, make, op_name, read_operands, Opcode};
use formlogic_core::rcode::{rmake, ROp};

#[test]
fn make_and_read_operands_round_trip() {
    let bytes = make(Opcode::OpConstant, &[655]);
    assert_eq!(bytes[0], Opcode::OpConstant as u8);
    let def = lookup(Opcode::OpConstant);
    let (ops, used) = read_operands(&def, &bytes[1..]);
    assert_eq!(ops, vec![655]);
    assert_eq!(used, 2);
}

#[test]
fn operands_are_big_endian() {
    assert_eq!(make(Opcode::OpConstant, &[0x1234]), vec![Opcode::OpConstant as u8, 0x12, 0x34]);
    assert_eq!(make(Opcode::OpCall, &[3]), vec![Opcode::OpCall as u8, 3]);
}

#[test]
fn every_opcode_byte_is_read_back() {
    let mut known = 0;
    for byte in 0..=255u8 {
        if let Some(op) = Opcode::from_byte(byte) {
            assert_eq!(op as u8, byte);
            assert!(op_name(op).starts_with("Op"));
            known += 1;
        }
    }
    assert!(known > 80);
    assert!(Opcode::from_byte(255).is_none());
}

#[test]
fn every_register_opcode_byte_is_read_back() {
    let mut known = 0;
    for byte in 0..=255u8 {
        if let Some(op) = ROp::from_byte(byte) {
            assert_eq!(op as u8, byte);
            known += 1;
        }
    }
    assert!(known > 60);
    assert!(ROp::from_byte(255).is_none());
}

#[test]
fn register_instructions_have_their_size() {
    for byte in 0..=255u8 {
        if let Some(op) = ROp::from_byte(byte) {
            if op as u8 == ROp::MakeClosure as u8 {
                continue;
            }
            assert_eq!(rmake(op, &[]).len(), op.size());
        }
    }
    assert_eq!(rmake(ROp::Move, &[1, 0x203]), vec![ROp::Move as u8, 0, 1, 2, 3]);
}

#[test]
fn a_closure_lists_the_slots_it_captures() {
    let bytes = rmake(ROp::MakeClosure, &[1, 2, 2, 0x105, 6]);
    assert_eq!(bytes, vec![ROp::MakeClosure as u8, 0, 1, 0, 2, 2, 1, 5, 0, 6]);
}

#[test]
fn opcodes_have_names_of_their_own() {
    let known: Vec<Opcode> = (0..=255u8).filter_map(Opcode::from_byte).collect();
    for (i, a) in known.iter().enumerate() {
        for b in &known[i + 1..] {
            assert_ne!(op_name(*a), op_name(*b));
        }
    }
}
