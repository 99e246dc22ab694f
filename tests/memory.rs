use std::rc::Rc;

use cpu_emulator::cpu::CPUConfig;
use cpu_emulator::instructions::{
    create_instr, nop_instr, Data, DataItem, Opcode, Operand, Program, SourceLocation,
};
use cpu_emulator::memory_subsystem::MemorySubsystem;
use cpu_emulator::store_buffer::{StoreBuffer, StoreBufferFull};

fn config() -> CPUConfig {
    CPUConfig { memory_size: 8, sb_capacity: 4, sb_drain_per_cycle: 1 }
}

fn program(items: &[(&str, i64, u64)]) -> Program {
    Program {
        data_items: items
            .iter()
            .map(|(name, value, offset)| DataItem {
                name: name.to_string(),
                data: Rc::new(Data { value: *value, offset: *offset }),
            })
            .collect(),
        code: vec![Rc::new(nop_instr())],
        entry_point: 0,
    }
}

#[test]
fn new_memory_is_zero_filled() {
    let m = MemorySubsystem::new(&config());
    assert_eq!(m.memory, vec![0; 8]);
    assert_eq!(m.sb.size(), 0);
}

#[test]
fn store_is_forwarded_until_committed() {
    let mut m = MemorySubsystem::new(&config());
    assert_eq!(m.store(3, 42, 0), Ok(()));
    assert_eq!(m.sb.query(3), Some(42));
    assert_eq!(m.memory[3], 0);
    assert_eq!(m.load(3), 42);
    m.do_cycle();
    assert_eq!(m.memory[3], 42);
    assert_eq!(m.sb.query(3), None);
    assert_eq!(m.load(3), 42);
}

#[test]
fn stores_to_one_address_commit_in_program_order() {
    let mut m = MemorySubsystem::new(&config());
    m.store(1, 10, 0).unwrap();
    m.store(1, 20, 1).unwrap();
    assert_eq!(m.sb.query(1), Some(20));
    m.do_cycle();
    assert_eq!(m.memory[1], 10);
    assert_eq!(m.sb.query(1), Some(20));
    assert_eq!(m.load(1), 20);
    m.do_cycle();
    assert_eq!(m.memory[1], 20);
    assert_eq!(m.sb.query(1), None);
    m.do_cycle();
    assert_eq!(m.memory[1], 20);
}

#[test]
fn full_store_buffer_applies_backpressure() {
    let mut m = MemorySubsystem::new(&CPUConfig { memory_size: 4, sb_capacity: 2, sb_drain_per_cycle: 1 });
    assert_eq!(m.store(0, 1, 0), Ok(()));
    assert_eq!(m.store(1, 2, 1), Ok(()));
    assert!(m.sb.is_full());
    assert_eq!(m.store(2, 3, 2), Err(StoreBufferFull));
    assert_eq!(m.sb.size(), 2);
    m.do_cycle();
    assert_eq!(m.store(2, 3, 2), Ok(()));
    assert_eq!(m.memory, vec![1, 0, 0, 0]);
}

#[test]
fn drain_bandwidth_commits_several_per_cycle() {
    let cfg = CPUConfig { memory_size: 4, sb_capacity: 8, sb_drain_per_cycle: 2 };
    let mut sb = StoreBuffer::new(&cfg);
    let mut memory = vec![0i64; 4];
    for (seq, (addr, value)) in [(0u64, 5i64), (1, 6), (2, 7)].iter().enumerate() {
        sb.submit(*addr, *value, seq as u64).unwrap();
    }
    sb.do_cycle(&mut memory);
    assert_eq!(memory, vec![5, 6, 0, 0]);
    assert_eq!(sb.size(), 1);
    sb.do_cycle(&mut memory);
    assert_eq!(memory, vec![5, 6, 7, 0]);
    assert_eq!(sb.size(), 0);
}

#[test]
fn init_writes_data_items_and_clears_the_rest() {
    let mut m = MemorySubsystem::new(&config());
    m.init(&program(&[("a", 5, 0), ("b", -7, 1), ("c", 9, 6)]));
    assert_eq!(m.memory, vec![5, -7, 0, 0, 0, 0, 9, 0]);
    m.init(&program(&[("x", 3, 2)]));
    assert_eq!(m.memory, vec![0, 0, 3, 0, 0, 0, 0, 0]);
    m.init(&program(&[("x", 3, 2)]));
    assert_eq!(m.memory, vec![0, 0, 3, 0, 0, 0, 0, 0]);
}

#[test]
fn program_hands_out_shared_instructions() {
    let p = program(&[]);
    let i = p.get_instr(0);
    assert!(Rc::ptr_eq(&i, &p.code[0]));
}

#[test]
fn program_structure_is_checked() {
    let loc = SourceLocation { line: 1, column: 1 };
    let good = program(&[("a", 1, 0), ("b", 2, 1)]);
    assert!(good.is_well_formed());

    let mut no_code = program(&[]);
    no_code.code.clear();
    assert!(!no_code.is_well_formed());

    let mut bad_entry = program(&[]);
    bad_entry.entry_point = 1;
    assert!(!bad_entry.is_well_formed());

    let mut far_branch = program(&[]);
    far_branch.code.push(Rc::new(create_instr(Opcode::B, &vec![Operand::Code(2)], loc).unwrap()));
    assert!(!far_branch.is_well_formed());
    far_branch.code[1] = Rc::new(create_instr(Opcode::B, &vec![Operand::Code(1)], loc).unwrap());
    assert!(far_branch.is_well_formed());

    let mut load = nop_instr();
    load.source[0] = Operand::Memory(1);
    let mut mem = program(&[("a", 1, 0), ("b", 2, 1)]);
    mem.code.push(Rc::new(load));
    assert!(mem.is_well_formed());
    let mut mem = program(&[("a", 1, 0)]);
    mem.code.push(Rc::new(load));
    assert!(!mem.is_well_formed());

    assert!(!program(&[("a", 1, 0), ("a", 2, 1)]).is_well_formed());
    assert!(!program(&[("a", 1, 0), ("b", 2, 0)]).is_well_formed());
}
