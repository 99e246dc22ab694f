//! The instruction model: opcodes, operands and validated instructions.
use std::rc::Rc;
use vstd::prelude::*;

use crate::cpu::{CPSR, FP, GENERAL_ARG_REG_CNT, LR, PC, SP};
use crate::text::{digits_value, is_digit, lemma_digits_value_prefix, same_chars, to_upper, upper_of};

verus! {

/// Where an instruction stands in its source text.
#[derive(Clone, Copy, Debug, PartialEq, Eq, Structural)]
pub struct SourceLocation {
    pub line: usize,
    pub column: usize,
}

/// The instruction set.
#[derive(Clone, Copy, Debug, PartialEq, Eq, Structural)]
pub enum Opcode {
    ADD,
    SUB,
    MUL,
    SDIV,
    LDR,
    STR,
    NOP,
    PRINTR,
    MOV,
    B,
    BX,
    BL,
    CBZ,
    CBNZ,
    /// Halts the pipeline; it is not part of the public instruction set.
    EXIT,
    NEG,
    AND,
    ORR,
    EOR,
    MVN,
    CMP,
    BEQ,
    BNE,
    BLE,
    BLT,
    BGE,
    BGT,
}

/// Type of a register id.
pub type RegisterType = u16;

/// Type of a machine word.
pub type WordType = i64;

/// The kind (tag) of an operand, independent of the value it carries.
#[derive(Clone, Copy, Debug, PartialEq, Eq, Structural)]
pub enum OperandKind {
    Register,
    Immediate,
    Memory,
    Code,
    Unused,
}

/// The name of an operand kind.
pub open spec fn kind_name(k: OperandKind) -> Seq<char> {
    match k {
        OperandKind::Register => "Register"@,
        OperandKind::Immediate => "Immediate"@,
        OperandKind::Memory => "Memory"@,
        OperandKind::Code => "Code"@,
        OperandKind::Unused => "Unused"@,
    }
}

impl OperandKind {
    /// The name of this kind.
    pub fn name(&self) -> (r: &'static str)
        ensures
            r@ == kind_name(*self),
    {
        match self {
            OperandKind::Register => "Register",
            OperandKind::Immediate => "Immediate",
            OperandKind::Memory => "Memory",
            OperandKind::Code => "Code",
            OperandKind::Unused => "Unused",
        }
    }
}

/// An operand was read back as a kind that it does not have.
#[derive(Clone, Copy, Debug, PartialEq, Eq, Structural)]
pub struct KindMismatch {
    pub expected: OperandKind,
    pub actual: OperandKind,
}

/// One operand slot of an instruction.
#[derive(Clone, Copy, Debug, PartialEq, Eq, Structural)]
pub enum Operand {
    Register(RegisterType),
    /// A value given in the instruction itself.
    Immediate(WordType),
    /// A resolved load/store target.
    Memory(WordType),
    /// A resolved branch target.
    Code(WordType),
    /// The slot is not populated.
    Unused,
}

impl Operand {
    pub open spec fn kind_of(self) -> OperandKind {
        match self {
            Operand::Register(_) => OperandKind::Register,
            Operand::Immediate(_) => OperandKind::Immediate,
            Operand::Memory(_) => OperandKind::Memory,
            Operand::Code(_) => OperandKind::Code,
            Operand::Unused => OperandKind::Unused,
        }
    }

    /// The name of this operand's kind.
    pub fn base_name(&self) -> (r: &'static str)
        ensures
            r@ == kind_name(self.kind_of()),
    {
        self.kind().name()
    }

    /// The register id of a `Register` operand.
    pub fn get_register(&self) -> (r: Result<RegisterType, KindMismatch>)
        ensures
            match *self {
                Operand::Register(reg) => r == Ok::<RegisterType, KindMismatch>(reg),
                _ => r == Err::<RegisterType, KindMismatch>(
                    KindMismatch { expected: OperandKind::Register, actual: self.kind_of() },
                ),
            },
    {
        match *self {
            Operand::Register(reg) => Ok(reg),
            _ => Err(KindMismatch { expected: OperandKind::Register, actual: self.kind() }),
        }
    }

    /// The value of an `Immediate` operand.
    pub fn get_constant(&self) -> (r: Result<WordType, KindMismatch>)
        ensures
            match *self {
                Operand::Immediate(v) => r == Ok::<WordType, KindMismatch>(v),
                _ => r == Err::<WordType, KindMismatch>(
                    KindMismatch { expected: OperandKind::Immediate, actual: self.kind_of() },
                ),
            },
    {
        match *self {
            Operand::Immediate(v) => Ok(v),
            _ => Err(KindMismatch { expected: OperandKind::Immediate, actual: self.kind() }),
        }
    }

    /// The branch target of a `Code` operand.
    pub fn get_code_address(&self) -> (r: Result<WordType, KindMismatch>)
        ensures
            match *self {
                Operand::Code(a) => r == Ok::<WordType, KindMismatch>(a),
                _ => r == Err::<WordType, KindMismatch>(
                    KindMismatch { expected: OperandKind::Code, actual: self.kind_of() },
                ),
            },
    {
        match *self {
            Operand::Code(a) => Ok(a),
            _ => Err(KindMismatch { expected: OperandKind::Code, actual: self.kind() }),
        }
    }

    /// The address of a `Memory` operand.
    pub fn get_memory_addr(&self) -> (r: Result<WordType, KindMismatch>)
        ensures
            match *self {
                Operand::Memory(a) => r == Ok::<WordType, KindMismatch>(a),
                _ => r == Err::<WordType, KindMismatch>(
                    KindMismatch { expected: OperandKind::Memory, actual: self.kind_of() },
                ),
            },
    {
        match *self {
            Operand::Memory(a) => Ok(a),
            _ => Err(KindMismatch { expected: OperandKind::Memory, actual: self.kind() }),
        }
    }

    /// The kind of this operand.
    pub fn kind(&self) -> (r: OperandKind)
        ensures
            r == self.kind_of(),
    {
        match self {
            Operand::Register(_) => OperandKind::Register,
            Operand::Immediate(_) => OperandKind::Immediate,
            Operand::Memory(_) => OperandKind::Memory,
            Operand::Code(_) => OperandKind::Code,
            Operand::Unused => OperandKind::Unused,
        }
    }
}


/// The assembler name of each opcode.
pub open spec fn mnemonic_of(op: Opcode) -> Seq<char> {
    match op {
        Opcode::ADD => "ADD"@,
        Opcode::SUB => "SUB"@,
        Opcode::MUL => "MUL"@,
        Opcode::SDIV => "SDIV"@,
        Opcode::LDR => "LDR"@,
        Opcode::STR => "STR"@,
        Opcode::NOP => "NOP"@,
        Opcode::PRINTR => "PRINTR"@,
        Opcode::MOV => "MOV"@,
        Opcode::B => "B"@,
        Opcode::BX => "BX"@,
        Opcode::BL => "BL"@,
        Opcode::CBZ => "CBZ"@,
        Opcode::CBNZ => "CBNZ"@,
        Opcode::EXIT => "EXIT"@,
        Opcode::NEG => "NEG"@,
        Opcode::AND => "AND"@,
        Opcode::ORR => "ORR"@,
        Opcode::EOR => "EOR"@,
        Opcode::MVN => "MVN"@,
        Opcode::CMP => "CMP"@,
        Opcode::BEQ => "BEQ"@,
        Opcode::BNE => "BNE"@,
        Opcode::BLE => "BLE"@,
        Opcode::BLT => "BLT"@,
        Opcode::BGE => "BGE"@,
        Opcode::BGT => "BGT"@,
    }
}

/// Register ids by name: the named architectural registers, and `R<n>` for a
/// general-purpose register `n` below `GENERAL_ARG_REG_CNT`.
pub open spec fn register_of_name(s: Seq<char>) -> Option<RegisterType> {
    if s == "SP"@ {
        Some(SP)
    } else if s == "LR"@ {
        Some(LR)
    } else if s == "PC"@ {
        Some(PC)
    } else if s == "FP"@ {
        Some(FP)
    } else if s.len() >= 2 && s[0] == 'R' && (forall|i: int| 1 <= i < s.len() ==> is_digit(#[trigger] s[i]))
        && digits_value(s.skip(1)) < GENERAL_ARG_REG_CNT {
        Some(digits_value(s.skip(1)) as RegisterType)
    } else {
        None
    }
}

/// Number of operands that an instruction with this opcode takes.
pub open spec fn operand_count_of(op: Opcode) -> nat {
    match op {
        Opcode::ADD | Opcode::SUB | Opcode::MUL | Opcode::SDIV | Opcode::AND | Opcode::ORR
        | Opcode::EOR => 3,
        Opcode::LDR | Opcode::STR | Opcode::MOV | Opcode::CBZ | Opcode::CBNZ | Opcode::NEG
        | Opcode::MVN | Opcode::CMP | Opcode::BEQ | Opcode::BNE | Opcode::BLE | Opcode::BLT
        | Opcode::BGE | Opcode::BGT => 2,
        Opcode::PRINTR | Opcode::B | Opcode::BX | Opcode::BL => 1,
        Opcode::NOP | Opcode::EXIT => 0,
    }
}

/// The operand kinds accepted in operand slot `slot` of `op`, in the order in which
/// diagnostics list them.
pub open spec fn accepted_kinds_of(op: Opcode, slot: int) -> Seq<OperandKind> {
    let reg = seq![OperandKind::Register];
    let code = seq![OperandKind::Code];
    match op {
        Opcode::ADD | Opcode::SUB | Opcode::MUL | Opcode::SDIV | Opcode::AND | Opcode::ORR
        | Opcode::EOR => if slot == 2 {
            seq![OperandKind::Register, OperandKind::Immediate]
        } else {
            reg
        },
        Opcode::MOV | Opcode::MVN | Opcode::CMP => if slot == 0 {
            reg
        } else {
            seq![OperandKind::Immediate, OperandKind::Register]
        },
        Opcode::CBZ | Opcode::CBNZ => if slot == 0 {
            reg
        } else {
            code
        },
        Opcode::B | Opcode::BL => code,
        // The second operand of a conditional branch is not read: any kind is accepted.
        Opcode::BEQ | Opcode::BNE | Opcode::BLE | Opcode::BLT | Opcode::BGE | Opcode::BGT => if slot
            == 0 {
            code
        } else {
            seq![
                OperandKind::Register,
                OperandKind::Immediate,
                OperandKind::Memory,
                OperandKind::Code,
                OperandKind::Unused,
            ]
        },
        Opcode::LDR | Opcode::STR | Opcode::NEG | Opcode::PRINTR | Opcode::BX => reg,
        Opcode::NOP | Opcode::EXIT => seq![],
    }
}

/// The populated source slots of an instruction built from `op` and `ops`: the operands
/// that it reads, and the architectural registers that it reads implicitly.
pub open spec fn sources_of(op: Opcode, ops: Seq<Operand>) -> Seq<Operand> {
    match op {
        Opcode::ADD | Opcode::SUB | Opcode::MUL | Opcode::SDIV | Opcode::AND | Opcode::ORR
        | Opcode::EOR => seq![ops[1], ops[2]],
        Opcode::LDR | Opcode::MOV | Opcode::NEG | Opcode::MVN => seq![ops[1]],
        Opcode::STR | Opcode::PRINTR | Opcode::B | Opcode::BX => seq![ops[0]],
        Opcode::BL => seq![ops[0], Operand::Register(PC)],
        Opcode::CBZ | Opcode::CBNZ => seq![ops[0], ops[1], Operand::Register(PC)],
        Opcode::CMP => seq![ops[0], ops[1], Operand::Register(CPSR)],
        Opcode::BEQ | Opcode::BNE | Opcode::BLE | Opcode::BLT | Opcode::BGE | Opcode::BGT => seq![
            ops[0],
            Operand::Register(CPSR),
            Operand::Register(PC),
        ],
        Opcode::NOP | Opcode::EXIT => seq![],
    }
}

/// The populated sink slots of an instruction built from `op` and `ops`: the operands
/// that it writes, and the architectural registers that it writes implicitly.
pub open spec fn sinks_of(op: Opcode, ops: Seq<Operand>) -> Seq<Operand> {
    match op {
        Opcode::ADD | Opcode::SUB | Opcode::MUL | Opcode::SDIV | Opcode::AND | Opcode::ORR
        | Opcode::EOR | Opcode::LDR | Opcode::MOV | Opcode::NEG | Opcode::MVN => seq![ops[0]],
        Opcode::STR => seq![ops[1]],
        Opcode::B | Opcode::BX | Opcode::CBZ | Opcode::CBNZ | Opcode::BEQ | Opcode::BNE
        | Opcode::BLE | Opcode::BLT | Opcode::BGE | Opcode::BGT => seq![Operand::Register(PC)],
        Opcode::BL => seq![Operand::Register(LR), Operand::Register(PC)],
        Opcode::CMP => seq![Operand::Register(CPSR)],
        Opcode::PRINTR | Opcode::NOP | Opcode::EXIT => seq![],
    }
}

/// Whether the operand in slot `i` of `ops` has a kind that `op` accepts there.
pub open spec fn slot_accepted(op: Opcode, ops: Seq<Operand>, i: int) -> bool {
    accepted_kinds_of(op, i).contains(ops[i].kind_of())
}

/// Whether `ops` has the arity of `op` and every operand a kind accepted in its slot.
pub open spec fn operands_accepted(op: Opcode, ops: Seq<Operand>) -> bool {
    &&& ops.len() == operand_count_of(op)
    &&& forall|i: int| 0 <= i < ops.len() ==> slot_accepted(op, ops, i)
}

/// Whether slot `i` is the first slot of `ops` whose operand `op` does not accept.
pub open spec fn first_rejected_slot(op: Opcode, ops: Seq<Operand>, i: int) -> bool {
    &&& 0 <= i < ops.len()
    &&& !slot_accepted(op, ops, i)
    &&& forall|j: int| 0 <= j < i ==> slot_accepted(op, ops, j)
}

/// `s` followed by `Unused` up to length `n`.
pub open spec fn padded(s: Seq<Operand>, n: nat) -> Seq<Operand> {
    Seq::new(n, |i: int| if i < s.len() { s[i] } else { Operand::Unused })
}

/// Whether the program counter is among `s`.
pub open spec fn names_pc(s: Seq<Operand>) -> bool {
    s.contains(Operand::Register(PC))
}

/// The opcodes that may change the program counter.
pub open spec fn is_branch(op: Opcode) -> bool {
    match op {
        Opcode::B | Opcode::BX | Opcode::BL | Opcode::CBZ | Opcode::CBNZ | Opcode::BEQ
        | Opcode::BNE | Opcode::BLE | Opcode::BLT | Opcode::BGE | Opcode::BGT => true,
        _ => false,
    }
}

/// A decoded instruction. It is validated once, when it is created, and not changed after.
#[derive(Clone, Copy, Debug, PartialEq, Eq)]
pub struct Instr {
    /// Latency in cycles.
    pub cycles: u8,
    pub opcode: Opcode,
    pub source_cnt: u8,
    pub source: [Operand; 3],
    pub sink_cnt: u8,
    pub sink: [Operand; 2],
    pub loc: Option<SourceLocation>,
    /// 1 when the instruction writes memory, else 0.
    pub mem_stores: u8,
    /// Whether the instruction reads or writes the program counter. Such an instruction
    /// serializes the pipeline.
    pub is_control: bool,
}

impl Instr {
    /// The populated source slots.
    pub open spec fn sources(self) -> Seq<Operand> {
        self.source@.take(self.source_cnt as int)
    }

    /// The populated sink slots.
    pub open spec fn sinks(self) -> Seq<Operand> {
        self.sink@.take(self.sink_cnt as int)
    }

    /// Whether this is the instruction that `create_instr` builds from `op`, `ops` and `loc`.
    pub open spec fn built_from(self, op: Opcode, ops: Seq<Operand>, loc: SourceLocation) -> bool {
        let srcs = sources_of(op, ops);
        let snks = sinks_of(op, ops);
        &&& self.cycles == 1
        &&& self.opcode == op
        &&& self.source_cnt == srcs.len()
        &&& self.source@ == padded(srcs, 3)
        &&& self.sink_cnt == snks.len()
        &&& self.sink@ == padded(snks, 2)
        &&& self.loc == Some(loc)
        &&& self.mem_stores == (if op == Opcode::STR { 1u8 } else { 0u8 })
        &&& self.is_control == (names_pc(srcs) || names_pc(snks))
    }
}

/// The instruction that does nothing.
pub fn nop_instr() -> (r: Instr)
    ensures
        r.opcode == Opcode::NOP,
        r.cycles == 1,
        r.source_cnt == 0 && r.sink_cnt == 0,
        r.source@ == padded(seq![], 3),
        r.sink@ == padded(seq![], 2),
        r.loc is None,
        r.mem_stores == 0,
        !r.is_control,
{
    let r = Instr {
        cycles: 1,
        opcode: Opcode::NOP,
        source_cnt: 0,
        source: [Operand::Unused, Operand::Unused, Operand::Unused],
        sink_cnt: 0,
        sink: [Operand::Unused, Operand::Unused],
        loc: None,
        mem_stores: 0,
        is_control: false,
    };
    assert(r.source@ =~= padded(seq![], 3));
    assert(r.sink@ =~= padded(seq![], 2));
    r
}

/// The instruction that tells the consuming stage to stop.
pub fn exit_instr() -> (r: Instr)
    ensures
        r.opcode == Opcode::EXIT,
        r.cycles == 1,
        r.source_cnt == 0 && r.sink_cnt == 0,
        r.source@ == padded(seq![], 3),
        r.sink@ == padded(seq![], 2),
        r.loc is None,
        r.mem_stores == 0,
        !r.is_control,
{
    let r = Instr {
        cycles: 1,
        opcode: Opcode::EXIT,
        source_cnt: 0,
        source: [Operand::Unused, Operand::Unused, Operand::Unused],
        sink_cnt: 0,
        sink: [Operand::Unused, Operand::Unused],
        loc: None,
        mem_stores: 0,
        is_control: false,
    };
    assert(r.source@ =~= padded(seq![], 3));
    assert(r.sink@ =~= padded(seq![], 2));
    r
}

/// Why an instruction could not be created.
#[derive(Clone, Debug, PartialEq, Eq)]
pub enum InstrError {
    /// The number of operands is not the opcode's arity.
    OperandCount { opcode: Opcode, expected: usize, actual: usize, loc: SourceLocation },
    /// The operand at 1-based position `index` has a kind that the slot does not accept.
    OperandKind {
        opcode: Opcode,
        accepted: Vec<OperandKind>,
        index: usize,
        actual: OperandKind,
    },
}

/// The assembler name of `opcode`.
pub fn mnemonic(opcode: Opcode) -> (r: &'static str)
    ensures
        r@ == mnemonic_of(opcode),
{
    match opcode {
        Opcode::ADD => "ADD",
        Opcode::SUB => "SUB",
        Opcode::MUL => "MUL",
        Opcode::SDIV => "SDIV",
        Opcode::LDR => "LDR",
        Opcode::STR => "STR",
        Opcode::NOP => "NOP",
        Opcode::PRINTR => "PRINTR",
        Opcode::MOV => "MOV",
        Opcode::B => "B",
        Opcode::BX => "BX",
        Opcode::BL => "BL",
        Opcode::CBZ => "CBZ",
        Opcode::CBNZ => "CBNZ",
        Opcode::EXIT => "EXIT",
        Opcode::NEG => "NEG",
        Opcode::AND => "AND",
        Opcode::ORR => "ORR",
        Opcode::EOR => "EOR",
        Opcode::MVN => "MVN",
        Opcode::CMP => "CMP",
        Opcode::BEQ => "BEQ",
        Opcode::BNE => "BNE",
        Opcode::BLE => "BLE",
        Opcode::BLT => "BLT",
        Opcode::BGE => "BGE",
        Opcode::BGT => "BGT",
    }
}

/// Every opcode, each once.
fn all_opcodes() -> (r: [Opcode; 27])
    ensures
        forall|op: Opcode| #[trigger] r@.contains(op),
{
    let r = [
        Opcode::ADD,
        Opcode::SUB,
        Opcode::MUL,
        Opcode::SDIV,
        Opcode::LDR,
        Opcode::STR,
        Opcode::NOP,
        Opcode::PRINTR,
        Opcode::MOV,
        Opcode::B,
        Opcode::BX,
        Opcode::BL,
        Opcode::CBZ,
        Opcode::CBNZ,
        Opcode::EXIT,
        Opcode::NEG,
        Opcode::AND,
        Opcode::ORR,
        Opcode::EOR,
        Opcode::MVN,
        Opcode::CMP,
        Opcode::BEQ,
        Opcode::BNE,
        Opcode::BLE,
        Opcode::BLT,
        Opcode::BGE,
        Opcode::BGT,
    ];
    assert forall|op: Opcode| #[trigger] r@.contains(op) by {
        match op {
            Opcode::ADD => assert(r@[0] == op),
            Opcode::SUB => assert(r@[1] == op),
            Opcode::MUL => assert(r@[2] == op),
            Opcode::SDIV => assert(r@[3] == op),
            Opcode::LDR => assert(r@[4] == op),
            Opcode::STR => assert(r@[5] == op),
            Opcode::NOP => assert(r@[6] == op),
            Opcode::PRINTR => assert(r@[7] == op),
            Opcode::MOV => assert(r@[8] == op),
            Opcode::B => assert(r@[9] == op),
            Opcode::BX => assert(r@[10] == op),
            Opcode::BL => assert(r@[11] == op),
            Opcode::CBZ => assert(r@[12] == op),
            Opcode::CBNZ => assert(r@[13] == op),
            Opcode::EXIT => assert(r@[14] == op),
            Opcode::NEG => assert(r@[15] == op),
            Opcode::AND => assert(r@[16] == op),
            Opcode::ORR => assert(r@[17] == op),
            Opcode::EOR => assert(r@[18] == op),
            Opcode::MVN => assert(r@[19] == op),
            Opcode::CMP => assert(r@[20] == op),
            Opcode::BEQ => assert(r@[21] == op),
            Opcode::BNE => assert(r@[22] == op),
            Opcode::BLE => assert(r@[23] == op),
            Opcode::BLT => assert(r@[24] == op),
            Opcode::BGE => assert(r@[25] == op),
            Opcode::BGT => assert(r@[26] == op),
        }
    }
    r
}

/// The length and the characters of an opcode's mnemonic, padded with spaces.
spec fn mnemonic_shape(op: Opcode) -> (int, char, char, char, char, char, char) {
    match op {
        Opcode::ADD => (3int, 'A', 'D', 'D', ' ', ' ', ' '),
        Opcode::SUB => (3int, 'S', 'U', 'B', ' ', ' ', ' '),
        Opcode::MUL => (3int, 'M', 'U', 'L', ' ', ' ', ' '),
        Opcode::SDIV => (4int, 'S', 'D', 'I', 'V', ' ', ' '),
        Opcode::LDR => (3int, 'L', 'D', 'R', ' ', ' ', ' '),
        Opcode::STR => (3int, 'S', 'T', 'R', ' ', ' ', ' '),
        Opcode::NOP => (3int, 'N', 'O', 'P', ' ', ' ', ' '),
        Opcode::PRINTR => (6int, 'P', 'R', 'I', 'N', 'T', 'R'),
        Opcode::MOV => (3int, 'M', 'O', 'V', ' ', ' ', ' '),
        Opcode::B => (1int, 'B', ' ', ' ', ' ', ' ', ' '),
        Opcode::BX => (2int, 'B', 'X', ' ', ' ', ' ', ' '),
        Opcode::BL => (2int, 'B', 'L', ' ', ' ', ' ', ' '),
        Opcode::CBZ => (3int, 'C', 'B', 'Z', ' ', ' ', ' '),
        Opcode::CBNZ => (4int, 'C', 'B', 'N', 'Z', ' ', ' '),
        Opcode::EXIT => (4int, 'E', 'X', 'I', 'T', ' ', ' '),
        Opcode::NEG => (3int, 'N', 'E', 'G', ' ', ' ', ' '),
        Opcode::AND => (3int, 'A', 'N', 'D', ' ', ' ', ' '),
        Opcode::ORR => (3int, 'O', 'R', 'R', ' ', ' ', ' '),
        Opcode::EOR => (3int, 'E', 'O', 'R', ' ', ' ', ' '),
        Opcode::MVN => (3int, 'M', 'V', 'N', ' ', ' ', ' '),
        Opcode::CMP => (3int, 'C', 'M', 'P', ' ', ' ', ' '),
        Opcode::BEQ => (3int, 'B', 'E', 'Q', ' ', ' ', ' '),
        Opcode::BNE => (3int, 'B', 'N', 'E', ' ', ' ', ' '),
        Opcode::BLE => (3int, 'B', 'L', 'E', ' ', ' ', ' '),
        Opcode::BLT => (3int, 'B', 'L', 'T', ' ', ' ', ' '),
        Opcode::BGE => (3int, 'B', 'G', 'E', ' ', ' ', ' '),
        Opcode::BGT => (3int, 'B', 'G', 'T', ' ', ' ', ' '),
    }
}

/// No two opcodes share a mnemonic, so the mnemonic table can be read in both directions.
pub proof fn lemma_mnemonics_distinct(a: Opcode, b: Opcode)
    ensures
        mnemonic_of(a) == mnemonic_of(b) ==> a == b,
{
    reveal_strlit("ADD");
    reveal_strlit("SUB");
    reveal_strlit("MUL");
    reveal_strlit("SDIV");
    reveal_strlit("LDR");
    reveal_strlit("STR");
    reveal_strlit("NOP");
    reveal_strlit("PRINTR");
    reveal_strlit("MOV");
    reveal_strlit("B");
    reveal_strlit("BX");
    reveal_strlit("BL");
    reveal_strlit("CBZ");
    reveal_strlit("CBNZ");
    reveal_strlit("EXIT");
    reveal_strlit("NEG");
    reveal_strlit("AND");
    reveal_strlit("ORR");
    reveal_strlit("EOR");
    reveal_strlit("MVN");
    reveal_strlit("CMP");
    reveal_strlit("BEQ");
    reveal_strlit("BNE");
    reveal_strlit("BLE");
    reveal_strlit("BLT");
    reveal_strlit("BGE");
    reveal_strlit("BGT");
    let s = mnemonic_of(a);
    let t = mnemonic_of(b);
    if s == t {
        let pad = |u: Seq<char>, i: int| if i < u.len() { u[i] } else { ' ' };
        assert((s.len() as int, pad(s, 0), pad(s, 1), pad(s, 2), pad(s, 3), pad(s, 4), pad(s, 5))
            == mnemonic_shape(a));
        assert((t.len() as int, pad(t, 0), pad(t, 1), pad(t, 2), pad(t, 3), pad(t, 4), pad(t, 5))
            == mnemonic_shape(b));
    }
}

/// The opcode whose mnemonic is exactly `name`, upper case, if any.
pub fn opcode_from_upper(name: &str) -> (r: Option<Opcode>)
    ensures
        r matches Some(op) ==> mnemonic_of(op) == name@,
        r is None ==> forall|op: Opcode| mnemonic_of(op) != name@,
        forall|op: Opcode| #[trigger] mnemonic_of(op) == name@ ==> r == Some(op),
{
    let all = all_opcodes();
    let mut i: usize = 0;
    while i < 27
        invariant
            i <= 27,
            forall|op: Opcode| #[trigger] all@.contains(op),
            forall|k: int| 0 <= k < i ==> mnemonic_of(#[trigger] all@[k]) != name@,
        decreases 27 - i,
    {
        if same_chars(mnemonic(all[i]), name) {
            assert forall|op: Opcode| #[trigger] mnemonic_of(op) == name@ implies op == all@[i as int] by {
                lemma_mnemonics_distinct(op, all@[i as int]);
            }
            return Some(all[i]);
        }
        i += 1;
    }
    assert forall|op: Opcode| mnemonic_of(op) != name@ by {
        assert(all@.contains(op));
        let k = choose|k: int| 0 <= k < 27 && all@[k] == op;
        assert(mnemonic_of(all@[k]) != name@);
    }
    None
}

/// The opcode whose mnemonic is `name` in any letter case, if any.
pub fn get_opcode(name: &str) -> (r: Option<Opcode>)
    ensures
        r matches Some(op) ==> mnemonic_of(op) == upper_of(name@),
        r is None ==> forall|op: Opcode| mnemonic_of(op) != upper_of(name@),
        forall|op: Opcode| #[trigger] mnemonic_of(op) == upper_of(name@) ==> r == Some(op),
{
    let upper = to_upper(name);
    opcode_from_upper(upper.as_str())
}

/// The register that `name` designates, upper case: `SP`, `LR`, `PC`, `FP`, or `R<n>`
/// with decimal `n` below `GENERAL_ARG_REG_CNT`.
pub fn register_from_upper(name: &str) -> (r: Option<RegisterType>)
    ensures
        r == register_of_name(name@),
{
    if same_chars(name, "SP") {
        return Some(SP);
    } else if same_chars(name, "LR") {
        return Some(LR);
    } else if same_chars(name, "PC") {
        return Some(PC);
    } else if same_chars(name, "FP") {
        return Some(FP);
    }
    let n = name.unicode_len();
    if n < 2 || name.get_char(0) != 'R' {
        return None;
    }
    let ghost digits = name@.skip(1);
    let mut value: u16 = 0;
    let mut i: usize = 1;
    while i < n
        invariant
            1 <= i <= n == name@.len(),
            digits == name@.skip(1),
            forall|j: int| 1 <= j < i ==> is_digit(#[trigger] name@[j]),
            value == digits_value(digits.take(i - 1)),
            value < GENERAL_ARG_REG_CNT,
            name@ != "SP"@ && name@ != "LR"@ && name@ != "PC"@ && name@ != "FP"@,
            name@[0] == 'R',
        decreases n - i,
    {
        let c = name.get_char(i);
        if c < '0' || c > '9' {
            assert(!is_digit(name@[i as int]));
            return None;
        }
        assert(digits.take(i as int).drop_last() =~= digits.take(i - 1));
        let next = value * 10 + (c as u32 - '0' as u32) as u16;
        if next >= GENERAL_ARG_REG_CNT {
            proof {
                if forall|j: int| 1 <= j < name@.len() ==> is_digit(#[trigger] name@[j]) {
                    assert forall|j: int| 0 <= j < digits.len() implies is_digit(#[trigger] digits[j]) by {
                        assert(digits[j] == name@[j + 1]);
                    }
                    lemma_digits_value_prefix(digits, i as int);
                }
            }
            return None;
        }
        value = next;
        i += 1;
    }
    assert(digits.take(n - 1) =~= digits);
    Some(value)
}

/// The register that `name` designates in any letter case, if any.
pub fn get_register(name: &str) -> (r: Option<RegisterType>)
    ensures
        r == register_of_name(upper_of(name@)),
{
    let upper = to_upper(name);
    register_from_upper(upper.as_str())
}

/// Number of operands that an instruction with this opcode takes.
pub fn operand_count(op: Opcode) -> (r: usize)
    ensures
        r == operand_count_of(op),
{
    match op {
        Opcode::ADD | Opcode::SUB | Opcode::MUL | Opcode::SDIV | Opcode::AND | Opcode::ORR
        | Opcode::EOR => 3,
        Opcode::LDR | Opcode::STR | Opcode::MOV | Opcode::CBZ | Opcode::CBNZ | Opcode::NEG
        | Opcode::MVN | Opcode::CMP | Opcode::BEQ | Opcode::BNE | Opcode::BLE | Opcode::BLT
        | Opcode::BGE | Opcode::BGT => 2,
        Opcode::PRINTR | Opcode::B | Opcode::BX | Opcode::BL => 1,
        Opcode::NOP | Opcode::EXIT => 0,
    }
}

/// The operand kinds that `op` accepts in operand slot `slot`.
pub fn accepted_kinds(op: Opcode, slot: usize) -> (r: Vec<OperandKind>)
    ensures
        r@ == accepted_kinds_of(op, slot as int),
{
    match op {
        Opcode::ADD | Opcode::SUB | Opcode::MUL | Opcode::SDIV | Opcode::AND | Opcode::ORR
        | Opcode::EOR => if slot == 2 {
            vec![OperandKind::Register, OperandKind::Immediate]
        } else {
            vec![OperandKind::Register]
        },
        Opcode::MOV | Opcode::MVN | Opcode::CMP => if slot == 0 {
            vec![OperandKind::Register]
        } else {
            vec![OperandKind::Immediate, OperandKind::Register]
        },
        Opcode::CBZ | Opcode::CBNZ => if slot == 0 {
            vec![OperandKind::Register]
        } else {
            vec![OperandKind::Code]
        },
        Opcode::B | Opcode::BL => vec![OperandKind::Code],
        Opcode::BEQ | Opcode::BNE | Opcode::BLE | Opcode::BLT | Opcode::BGE | Opcode::BGT => if slot
            == 0 {
            vec![OperandKind::Code]
        } else {
            vec![
                OperandKind::Register,
                OperandKind::Immediate,
                OperandKind::Memory,
                OperandKind::Code,
                OperandKind::Unused,
            ]
        },
        Opcode::LDR | Opcode::STR | Opcode::NEG | Opcode::PRINTR | Opcode::BX => vec![
            OperandKind::Register,
        ],
        Opcode::NOP | Opcode::EXIT => vec![],
    }
}


/// Checks that `operands` holds exactly `expected` operands.
fn validate_operand_count(
    expected: usize,
    operands: &Vec<Operand>,
    opcode: Opcode,
    loc: SourceLocation,
) -> (r: Result<(), InstrError>)
    ensures
        r is Ok <==> operands.len() == expected,
        r is Err ==> r == Err::<(), InstrError>(
            InstrError::OperandCount { opcode, expected, actual: operands.len(), loc },
        ),
{
    if operands.len() != expected {
        return Err(InstrError::OperandCount { opcode, expected, actual: operands.len(), loc });
    }
    Ok(())
}

/// Checks that the operand at `op_index` has one of the `acceptable_kinds`, and returns it.
fn validate_operand(
    op_index: usize,
    operands: &Vec<Operand>,
    opcode: Opcode,
    acceptable_kinds: Vec<OperandKind>,
) -> (r: Result<Operand, InstrError>)
    requires
        op_index < operands.len(),
    ensures
        r is Ok <==> acceptable_kinds@.contains(operands@[op_index as int].kind_of()),
        r is Ok ==> r == Ok::<Operand, InstrError>(operands@[op_index as int]),
        r is Err ==> r == Err::<Operand, InstrError>(
            InstrError::OperandKind {
                opcode,
                accepted: acceptable_kinds,
                index: (op_index + 1) as usize,
                actual: operands@[op_index as int].kind_of(),
            },
        ),
{
    let operand = operands[op_index];
    let kind = operand.kind();
    let mut i: usize = 0;
    while i < acceptable_kinds.len()
        invariant
            i <= acceptable_kinds.len(),
            op_index < operands.len(),
            operand == operands@[op_index as int],
            kind == operand.kind_of(),
            forall|j: int| 0 <= j < i ==> acceptable_kinds@[j] != kind,
        decreases acceptable_kinds.len() - i,
    {
        if acceptable_kinds[i] == kind {
            assert(acceptable_kinds@[i as int] == kind);
            return Ok(operand);
        }
        i += 1;
    }
    Err(
        InstrError::OperandKind {
            opcode,
            accepted: acceptable_kinds,
            index: op_index + 1,
            actual: kind,
        },
    )
}

/// The source slots of an instruction built from `op` and `ops`, with their count.
fn source_layout(op: Opcode, ops: &Vec<Operand>) -> (r: (u8, [Operand; 3]))
    requires
        ops.len() == operand_count_of(op),
    ensures
        r.0 == sources_of(op, ops@).len(),
        r.1@ == padded(sources_of(op, ops@), 3),
{
    let unused = Operand::Unused;
    let r = match op {
        Opcode::ADD | Opcode::SUB | Opcode::MUL | Opcode::SDIV | Opcode::AND | Opcode::ORR
        | Opcode::EOR => (2, [ops[1], ops[2], unused]),
        Opcode::LDR | Opcode::MOV | Opcode::NEG | Opcode::MVN => (1, [ops[1], unused, unused]),
        Opcode::STR | Opcode::PRINTR | Opcode::B | Opcode::BX => (1, [ops[0], unused, unused]),
        Opcode::BL => (2, [ops[0], Operand::Register(PC), unused]),
        Opcode::CBZ | Opcode::CBNZ => (3, [ops[0], ops[1], Operand::Register(PC)]),
        Opcode::CMP => (3, [ops[0], ops[1], Operand::Register(CPSR)]),
        Opcode::BEQ | Opcode::BNE | Opcode::BLE | Opcode::BLT | Opcode::BGE | Opcode::BGT => (
            3,
            [ops[0], Operand::Register(CPSR), Operand::Register(PC)],
        ),
        Opcode::NOP | Opcode::EXIT => (0, [unused, unused, unused]),
    };
    assert(r.1@ =~= padded(sources_of(op, ops@), 3));
    r
}

/// The sink slots of an instruction built from `op` and `ops`, with their count.
fn sink_layout(op: Opcode, ops: &Vec<Operand>) -> (r: (u8, [Operand; 2]))
    requires
        ops.len() == operand_count_of(op),
    ensures
        r.0 == sinks_of(op, ops@).len(),
        r.1@ == padded(sinks_of(op, ops@), 2),
{
    let unused = Operand::Unused;
    let pc = Operand::Register(PC);
    let r = match op {
        Opcode::ADD | Opcode::SUB | Opcode::MUL | Opcode::SDIV | Opcode::AND | Opcode::ORR
        | Opcode::EOR | Opcode::LDR | Opcode::MOV | Opcode::NEG | Opcode::MVN => (
            1,
            [ops[0], unused],
        ),
        Opcode::STR => (1, [ops[1], unused]),
        Opcode::B | Opcode::BX | Opcode::CBZ | Opcode::CBNZ | Opcode::BEQ | Opcode::BNE
        | Opcode::BLE | Opcode::BLT | Opcode::BGE | Opcode::BGT => (1, [pc, unused]),
        Opcode::BL => (2, [Operand::Register(LR), pc]),
        Opcode::CMP => (1, [Operand::Register(CPSR), unused]),
        Opcode::PRINTR | Opcode::NOP | Opcode::EXIT => (0, [unused, unused]),
    };
    assert(r.1@ =~= padded(sinks_of(op, ops@), 2));
    r
}

/// Whether `op` names the program counter.
fn is_control_operand(op: &Operand) -> (r: bool)
    ensures
        r == (*op == Operand::Register(PC)),
{
    match *op {
        Operand::Register(register) => register == PC,
        _ => false,
    }
}

/// Whether the program counter appears in a populated source or sink slot of `instr`.
pub fn is_control(instr: &Instr) -> (r: bool)
    requires
        instr.source_cnt <= 3,
        instr.sink_cnt <= 2,
    ensures
        r == (names_pc(instr.sources()) || names_pc(instr.sinks())),
{
    let mut i: usize = 0;
    while i < instr.source_cnt as usize
        invariant
            i <= instr.source_cnt <= 3,
            forall|j: int| 0 <= j < i ==> instr.source@[j] != Operand::Register(PC),
        decreases instr.source_cnt - i,
    {
        if is_control_operand(&instr.source[i]) {
            assert(instr.sources()[i as int] == Operand::Register(PC));
            return true;
        }
        i += 1;
    }
    let mut i: usize = 0;
    while i < instr.sink_cnt as usize
        invariant
            i <= instr.sink_cnt <= 2,
            forall|j: int| 0 <= j < i ==> instr.sink@[j] != Operand::Register(PC),
        decreases instr.sink_cnt - i,
    {
        if is_control_operand(&instr.sink[i]) {
            assert(instr.sinks()[i as int] == Operand::Register(PC));
            return true;
        }
        i += 1;
    }
    false
}

/// Validates `operands` against the operand table of `opcode` and builds the instruction.
///
/// The operand count is checked first, then each operand's kind in slot order; the first
/// violation is reported. On success the source and sink slots follow the opcode's
/// template, which also lists the registers that the opcode reads or writes implicitly.
pub fn create_instr(opcode: Opcode, operands: &Vec<Operand>, loc: SourceLocation) -> (r: Result<
    Instr,
    InstrError,
>)
    ensures
        r is Ok <==> operands_accepted(opcode, operands@),
        r matches Ok(instr) ==> instr.built_from(opcode, operands@, loc),
        operands.len() != operand_count_of(opcode) ==> r == Err::<Instr, InstrError>(
            InstrError::OperandCount {
                opcode,
                expected: operand_count_of(opcode) as usize,
                actual: operands.len(),
                loc,
            },
        ),
        operands.len() == operand_count_of(opcode) && !operands_accepted(opcode, operands@) ==> (
        r matches Err(InstrError::OperandKind { opcode: o, accepted, index, actual }) && o
            == opcode && first_rejected_slot(opcode, operands@, index - 1) && accepted@
            == accepted_kinds_of(opcode, index - 1) && actual == operands@[index - 1].kind_of()),
{
    match validate_operand_count(operand_count(opcode), operands, opcode, loc) {
        Ok(()) => {},
        Err(e) => {
            return Err(e);
        },
    }
    let mut i: usize = 0;
    while i < operands.len()
        invariant
            i <= operands.len() == operand_count_of(opcode),
            forall|j: int| 0 <= j < i ==> slot_accepted(opcode, operands@, j),
        decreases operands.len() - i,
    {
        match validate_operand(i, operands, opcode, accepted_kinds(opcode, i)) {
            Ok(_) => {},
            Err(e) => {
                assert(!slot_accepted(opcode, operands@, i as int));
                return Err(e);
            },
        }
        i += 1;
    }
    let (source_cnt, source) = source_layout(opcode, operands);
    let (sink_cnt, sink) = sink_layout(opcode, operands);
    let mut instr = Instr {
        cycles: 1,
        opcode,
        source_cnt,
        source,
        sink_cnt,
        sink,
        loc: Some(loc),
        mem_stores: if opcode == Opcode::STR {
            1
        } else {
            0
        },
        is_control: false,
    };
    proof {
        let srcs = sources_of(opcode, operands@);
        let snks = sinks_of(opcode, operands@);
        assert(instr.sources() =~= srcs);
        assert(instr.sinks() =~= snks);
    }
    instr.is_control = is_control(&instr);
    Ok(instr)
}

/// Which instructions are control instructions: those whose opcode is a branch, and those
/// with an operand that names the program counter.
pub proof fn lemma_control_instructions(op: Opcode, ops: Seq<Operand>)
    requires
        operands_accepted(op, ops),
    ensures
        names_pc(sources_of(op, ops)) || names_pc(sinks_of(op, ops)) <==> is_branch(op)
            || names_pc(ops),
{
    let pc = Operand::Register(PC);
    let srcs = sources_of(op, ops);
    let snks = sinks_of(op, ops);
    if is_branch(op) {
        if op == Opcode::BL {
            assert(snks[1] == pc);
        } else {
            assert(snks[0] == pc);
        }
    } else {
        if names_pc(ops) {
            let i = choose|i: int| 0 <= i < ops.len() && ops[i] == pc;
            if op == Opcode::STR {
                if i == 0 { assert(srcs[0] == pc); } else { assert(snks[0] == pc); }
            } else if op == Opcode::PRINTR {
                assert(srcs[0] == pc);
            } else if op == Opcode::CMP {
                assert(srcs[i] == pc);
            } else if i == 0 {
                assert(snks[0] == pc);
            } else {
                assert(srcs[i - 1] == pc);
            }
        }
        if names_pc(srcs) {
            let i = choose|i: int| 0 <= i < srcs.len() && srcs[i] == pc;
            if op == Opcode::CMP {
                assert(ops[i] == pc);
            } else if op == Opcode::STR || op == Opcode::PRINTR {
                assert(ops[0] == pc);
            } else {
                assert(ops[i + 1] == pc);
            }
        }
        if names_pc(snks) {
            let i = choose|i: int| 0 <= i < snks.len() && snks[i] == pc;
            if op == Opcode::STR {
                assert(ops[1] == pc);
            } else {
                assert(ops[0] == pc);
            }
        }
    }
}

/// A named data item: its initial value and its offset in memory.
#[derive(Clone, Copy, Debug, PartialEq, Eq, Structural)]
pub struct Data {
    pub value: WordType,
    pub offset: u64,
}

/// A data item under its variable name.
#[derive(Clone, Debug)]
pub struct DataItem {
    pub name: String,
    pub data: Rc<Data>,
}

/// A loaded program, shared read-only by every pipeline stage once it is built.
pub struct Program {
    /// The data table; variable names are unique.
    pub data_items: Vec<DataItem>,
    /// The instructions, in program order.
    pub code: Vec<Rc<Instr>>,
    /// Index in `code` of the first instruction to run.
    pub entry_point: usize,
}

impl Program {
    /// Whether no two data items share an offset.
    pub open spec fn offsets_distinct(&self) -> bool {
        forall|i: int, j: int|
            0 <= i < j < self.data_items@.len() ==> #[trigger] self.data_items@[i].data.offset
                != #[trigger] self.data_items@[j].data.offset
    }

    /// Whether every data offset is below `len` and no two data items share an offset.
    pub open spec fn data_fits(&self, len: nat) -> bool {
        &&& forall|i: int|
            0 <= i < self.data_items@.len() ==> #[trigger] self.data_items@[i].data.offset < len
        &&& self.offsets_distinct()
    }

    /// Whether `op` refers only to what the program has: a branch target is an index into
    /// `code`, and a memory operand is the offset of a data item.
    pub open spec fn resolves(&self, op: Operand) -> bool {
        match op {
            Operand::Code(a) => 0 <= a < self.code@.len(),
            Operand::Memory(a) => exists|i: int|
                0 <= i < self.data_items@.len() && #[trigger] self.data_items@[i].data.offset == a,
            _ => true,
        }
    }

    /// The structure every loaded program has: some code, an entry point inside it, every
    /// operand resolved, and data items with distinct names and distinct offsets.
    pub open spec fn wf(&self) -> bool {
        &&& 0 < self.code@.len()
        &&& self.entry_point < self.code@.len()
        &&& forall|i: int, j: int|
            0 <= i < self.code@.len() && 0 <= j < 3 ==> self.resolves(
                #[trigger] self.code@[i].source@[j],
            )
        &&& forall|i: int, j: int|
            0 <= i < self.code@.len() && 0 <= j < 2 ==> self.resolves(
                #[trigger] self.code@[i].sink@[j],
            )
        &&& forall|i: int, j: int|
            0 <= i < j < self.data_items@.len() ==> #[trigger] self.data_items@[i].name@
                != #[trigger] self.data_items@[j].name@
        &&& self.offsets_distinct()
    }

    fn resolves_operand(&self, op: Operand) -> (r: bool)
        ensures
            r == self.resolves(op),
    {
        match op {
            Operand::Code(a) => 0 <= a && (a as u64) < (self.code.len() as u64),
            Operand::Memory(a) => {
                if a < 0 {
                    return false;
                }
                let mut i: usize = 0;
                while i < self.data_items.len()
                    invariant
                        0 <= a,
                        op == Operand::Memory(a),
                        i <= self.data_items@.len(),
                        forall|k: int| 0 <= k < i ==> #[trigger] self.data_items@[k].data.offset != a,
                    decreases self.data_items@.len() - i,
                {
                    if self.data_items[i].data.offset == a as u64 {
                        assert(self.data_items@[i as int].data.offset == a);
                        return true;
                    }
                    i += 1;
                }
                false
            },
            _ => true,
        }
    }

    /// Checks the structure that `wf` describes.
    pub fn is_well_formed(&self) -> (r: bool)
        ensures
            r == self.wf(),
    {
        if self.code.len() == 0 || self.entry_point >= self.code.len() {
            return false;
        }
        let mut i: usize = 0;
        while i < self.code.len()
            invariant
                i <= self.code@.len(),
                forall|k: int, j: int|
                    0 <= k < i && 0 <= j < 3 ==> self.resolves(#[trigger] self.code@[k].source@[j]),
                forall|k: int, j: int|
                    0 <= k < i && 0 <= j < 2 ==> self.resolves(#[trigger] self.code@[k].sink@[j]),
            decreases self.code@.len() - i,
        {
            let instr = &self.code[i];
            let mut j: usize = 0;
            while j < 3
                invariant
                    i < self.code@.len(),
                    *instr == self.code@[i as int],
                    j <= 3,
                    forall|m: int| 0 <= m < j ==> self.resolves(#[trigger] instr.source@[m]),
                decreases 3 - j,
            {
                if !self.resolves_operand(instr.source[j]) {
                    return false;
                }
                j += 1;
            }
            let mut j: usize = 0;
            while j < 2
                invariant
                    i < self.code@.len(),
                    *instr == self.code@[i as int],
                    j <= 2,
                    forall|m: int| 0 <= m < j ==> self.resolves(#[trigger] instr.sink@[m]),
                decreases 2 - j,
            {
                if !self.resolves_operand(instr.sink[j]) {
                    return false;
                }
                j += 1;
            }
            i += 1;
        }
        let n = self.data_items.len();
        let mut i: usize = 0;
        while i < n
            invariant
                n == self.data_items@.len(),
                i <= n,
                forall|k: int, m: int|
                    0 <= k < m < n && k < i ==> #[trigger] self.data_items@[k].name@
                        != #[trigger] self.data_items@[m].name@,
                forall|k: int, m: int|
                    0 <= k < m < n && k < i ==> #[trigger] self.data_items@[k].data.offset
                        != #[trigger] self.data_items@[m].data.offset,
            decreases n - i,
        {
            let mut j: usize = i + 1;
            while j < n
                invariant
                    n == self.data_items@.len(),
                    i < n,
                    i + 1 <= j <= n,
                    forall|m: int|
                        i < m < j ==> self.data_items@[i as int].name@
                            != #[trigger] self.data_items@[m].name@,
                    forall|m: int|
                        i < m < j ==> self.data_items@[i as int].data.offset
                            != #[trigger] self.data_items@[m].data.offset,
                decreases n - j,
            {
                let a = &self.data_items[i];
                let b = &self.data_items[j];
                if same_chars(a.name.as_str(), b.name.as_str()) || a.data.offset == b.data.offset {
                    return false;
                }
                j += 1;
            }
            i += 1;
        }
        true
    }

    /// The instruction at `pos`.
    pub fn get_instr(&self, pos: usize) -> (r: Rc<Instr>)
        requires
            pos < self.code.len(),
        ensures
            r == self.code@[pos as int],
    {
        Rc::clone(&self.code[pos])
    }
}

} // verus!
