use cpu_emulator::cpu::{CPSR, FP, LR, PC, SP};
use cpu_emulator::instructions::{
    create_instr, get_opcode, get_register, is_control, mnemonic, opcode_from_upper,
    register_from_upper, InstrError, KindMismatch, Opcode, Operand, OperandKind, SourceLocation,
};

fn loc() -> SourceLocation {
    SourceLocation { line: 7, column: 3 }
}

fn reg(r: u16) -> Operand {
    Operand::Register(r)
}

fn counts(opcode: Opcode, operands: Vec<Operand>) -> (u8, u8) {
    let instr = create_instr(opcode, &operands, loc()).expect("valid operands");
    (instr.source_cnt, instr.sink_cnt)
}

#[test]
fn every_opcode_accepts_its_template() {
    for op in [Opcode::ADD, Opcode::SUB, Opcode::MUL, Opcode::SDIV, Opcode::AND, Opcode::ORR, Opcode::EOR] {
        assert_eq!(counts(op, vec![reg(0), reg(1), reg(2)]), (2, 1));
        assert_eq!(counts(op, vec![reg(0), reg(1), Operand::Immediate(4)]), (2, 1));
    }
    assert_eq!(counts(Opcode::LDR, vec![reg(0), reg(1)]), (1, 1));
    assert_eq!(counts(Opcode::STR, vec![reg(0), reg(1)]), (1, 1));
    assert_eq!(counts(Opcode::NOP, vec![]), (0, 0));
    assert_eq!(counts(Opcode::PRINTR, vec![reg(3)]), (1, 0));
    assert_eq!(counts(Opcode::MOV, vec![reg(0), Operand::Immediate(9)]), (1, 1));
    assert_eq!(counts(Opcode::MOV, vec![reg(0), reg(1)]), (1, 1));
    assert_eq!(counts(Opcode::B, vec![Operand::Code(4)]), (1, 1));
    assert_eq!(counts(Opcode::BX, vec![reg(LR)]), (1, 1));
    assert_eq!(counts(Opcode::BL, vec![Operand::Code(4)]), (2, 2));
    assert_eq!(counts(Opcode::CBZ, vec![reg(0), Operand::Code(4)]), (3, 1));
    assert_eq!(counts(Opcode::CBNZ, vec![reg(0), Operand::Code(4)]), (3, 1));
    assert_eq!(counts(Opcode::EXIT, vec![]), (0, 0));
    assert_eq!(counts(Opcode::NEG, vec![reg(0), reg(1)]), (1, 1));
    assert_eq!(counts(Opcode::MVN, vec![reg(0), Operand::Immediate(-1)]), (1, 1));
    assert_eq!(counts(Opcode::CMP, vec![reg(0), Operand::Immediate(1)]), (3, 1));
    for op in [Opcode::BEQ, Opcode::BNE, Opcode::BLT, Opcode::BLE, Opcode::BGT, Opcode::BGE] {
        assert_eq!(counts(op, vec![Operand::Code(2), Operand::Unused]), (3, 1));
    }
}

#[test]
fn template_fills_slots_and_implicit_registers() {
    let bl = create_instr(Opcode::BL, &vec![Operand::Code(12)], loc()).unwrap();
    assert_eq!(bl.source, [Operand::Code(12), reg(PC), Operand::Unused]);
    assert_eq!(bl.sink, [reg(LR), reg(PC)]);
    assert_eq!(bl.cycles, 1);
    assert_eq!(bl.loc, Some(loc()));

    let cmp = create_instr(Opcode::CMP, &vec![reg(2), Operand::Immediate(1)], loc()).unwrap();
    assert_eq!(cmp.source, [reg(2), Operand::Immediate(1), reg(CPSR)]);
    assert_eq!(cmp.sink, [reg(CPSR), Operand::Unused]);

    let str_ = create_instr(Opcode::STR, &vec![reg(1), reg(2)], loc()).unwrap();
    assert_eq!(str_.source[0], reg(1));
    assert_eq!(str_.sink[0], reg(2));
    assert_eq!(str_.mem_stores, 1);

    let ldr = create_instr(Opcode::LDR, &vec![reg(1), reg(2)], loc()).unwrap();
    assert_eq!(ldr.sink[0], reg(1));
    assert_eq!(ldr.source[0], reg(2));
    assert_eq!(ldr.mem_stores, 0);
}

#[test]
fn control_flag_follows_program_counter() {
    let add = create_instr(Opcode::ADD, &vec![reg(0), reg(1), reg(2)], loc()).unwrap();
    assert!(!add.is_control);
    let b = create_instr(Opcode::B, &vec![Operand::Code(0)], loc()).unwrap();
    assert!(b.is_control);
    let bl = create_instr(Opcode::BL, &vec![Operand::Code(0)], loc()).unwrap();
    assert!(bl.is_control);
    let cmp = create_instr(Opcode::CMP, &vec![reg(0), Operand::Immediate(1)], loc()).unwrap();
    assert!(!cmp.is_control);
    let mov_pc = create_instr(Opcode::MOV, &vec![reg(PC), reg(LR)], loc()).unwrap();
    assert!(mov_pc.is_control);
    let exit = create_instr(Opcode::EXIT, &vec![], loc()).unwrap();
    assert!(!exit.is_control);
    let beq = create_instr(Opcode::BEQ, &vec![Operand::Code(1), Operand::Unused], loc()).unwrap();
    assert!(beq.is_control);
    assert!(is_control(&beq));
    assert!(!is_control(&add));
}

#[test]
fn operand_count_mismatch_is_reported() {
    let r = create_instr(Opcode::ADD, &vec![reg(0), reg(1)], loc());
    assert_eq!(
        r,
        Err(InstrError::OperandCount { opcode: Opcode::ADD, expected: 3, actual: 2, loc: loc() })
    );
    let r = create_instr(Opcode::NOP, &vec![reg(0)], loc());
    assert_eq!(
        r,
        Err(InstrError::OperandCount { opcode: Opcode::NOP, expected: 0, actual: 1, loc: loc() })
    );
}

#[test]
fn operand_kind_mismatch_is_reported() {
    let r = create_instr(Opcode::ADD, &vec![Operand::Immediate(1), reg(1), reg(2)], loc());
    assert_eq!(
        r,
        Err(InstrError::OperandKind {
            opcode: Opcode::ADD,
            accepted: vec![OperandKind::Register],
            index: 1,
            actual: OperandKind::Immediate,
        })
    );
    let r = create_instr(Opcode::MOV, &vec![reg(0), Operand::Code(3)], loc());
    assert_eq!(
        r,
        Err(InstrError::OperandKind {
            opcode: Opcode::MOV,
            accepted: vec![OperandKind::Immediate, OperandKind::Register],
            index: 2,
            actual: OperandKind::Code,
        })
    );
    // The first offending slot is the one reported.
    let r = create_instr(Opcode::CBZ, &vec![Operand::Code(1), reg(0)], loc());
    assert_eq!(
        r,
        Err(InstrError::OperandKind {
            opcode: Opcode::CBZ,
            accepted: vec![OperandKind::Register],
            index: 1,
            actual: OperandKind::Code,
        })
    );
}

#[test]
fn mnemonics_and_opcodes() {
    assert_eq!(mnemonic(Opcode::MOV), "MOV");
    assert_eq!(mnemonic(Opcode::SDIV), "SDIV");
    assert_eq!(get_opcode("add"), Some(Opcode::ADD));
    assert_eq!(get_opcode("Bge"), Some(Opcode::BGE));
    assert_eq!(get_opcode("JMP"), None);
    assert_eq!(opcode_from_upper("CBNZ"), Some(Opcode::CBNZ));
    assert_eq!(opcode_from_upper("cbnz"), None);
    for op in [Opcode::ADD, Opcode::EXIT, Opcode::PRINTR, Opcode::BL, Opcode::MVN] {
        assert_eq!(get_opcode(mnemonic(op)), Some(op));
    }
}

#[test]
fn register_names() {
    assert_eq!(get_register("sp"), Some(SP));
    assert_eq!(get_register("lr"), Some(LR));
    assert_eq!(get_register("Pc"), Some(PC));
    assert_eq!(get_register("fp"), Some(FP));
    assert_eq!(get_register("r7"), Some(7));
    assert_eq!(get_register("R30"), Some(30));
    assert_eq!(get_register("R31"), None);
    assert_eq!(get_register("R"), None);
    assert_eq!(get_register("R1x"), None);
    assert_eq!(get_register("X3"), None);
    assert_eq!(register_from_upper("R007"), Some(7));
    assert_eq!(register_from_upper("r7"), None);
    assert_eq!(register_from_upper("R99999999999999999999"), None);
}

#[test]
fn operand_accessors() {
    assert_eq!(reg(4).get_register(), Ok(4));
    assert_eq!(Operand::Immediate(-3).get_constant(), Ok(-3));
    assert_eq!(Operand::Code(8).get_code_address(), Ok(8));
    assert_eq!(Operand::Memory(2).get_memory_addr(), Ok(2));
    assert_eq!(
        Operand::Immediate(1).get_register(),
        Err(KindMismatch { expected: OperandKind::Register, actual: OperandKind::Immediate })
    );
    assert_eq!(
        reg(1).get_memory_addr(),
        Err(KindMismatch { expected: OperandKind::Memory, actual: OperandKind::Register })
    );
    assert_eq!(Operand::Unused.base_name(), "Unused");
    assert_eq!(reg(0).base_name(), "Register");
    assert_eq!(Operand::Code(0).base_name(), "Code");
}

#[test]
fn operand_and_instruction_text() {
    assert_eq!(reg(PC).to_string(), "PC");
    assert_eq!(reg(CPSR).to_string(), "CPSR");
    assert_eq!(reg(12).to_string(), "R12");
    assert_eq!(Operand::Immediate(-45).to_string(), "-45");
    assert_eq!(Operand::Immediate(i64::MIN).to_string(), "-9223372036854775808");
    assert_eq!(Operand::Memory(16).to_string(), "[16]");
    assert_eq!(Operand::Code(0).to_string(), "[0]");
    assert_eq!(Operand::Unused.to_string(), "Unused");
    assert_eq!(SourceLocation { line: 10, column: 205 }.to_string(), "10:205");

    let add = create_instr(Opcode::ADD, &vec![reg(0), reg(1), Operand::Immediate(5)], loc()).unwrap();
    assert_eq!(add.to_string(), "ADD R0, R1, 5 ; 7:3");
    let str_ = create_instr(Opcode::STR, &vec![reg(1), reg(SP)], loc()).unwrap();
    assert_eq!(str_.to_string(), "STR R1, SP ; 7:3");
    let bl = create_instr(Opcode::BL, &vec![Operand::Code(3)], loc()).unwrap();
    assert_eq!(bl.to_string(), "BL [3] ; 7:3");
    let mov = create_instr(Opcode::MOV, &vec![reg(2), Operand::Immediate(100)], loc()).unwrap();
    assert_eq!(mov.to_string(), "MOV R2, 100 ; 7:3");
    assert_eq!(cpu_emulator::instructions::nop_instr().to_string(), "NOP ");
}

#[test]
fn error_messages_name_what_was_expected() {
    let e = create_instr(Opcode::ADD, &vec![reg(0)], loc()).unwrap_err();
    assert_eq!(
        e.message(),
        "Operand count mismatch. ADD expects 3 arguments, but 1 are provided at 7:3"
    );
    let e = create_instr(Opcode::MOV, &vec![reg(0), Operand::Code(1)], loc()).unwrap_err();
    assert_eq!(
        e.message(),
        "Operand type mismatch. MOV expects Immediate, Register as argument nr 2, but Code was provided"
    );
}
