//! Assembler text of operands, instructions, source locations and construction errors.
use vstd::prelude::*;
use vstd::string::*;

use crate::cpu::{CPSR, FP, LR, PC, SP};
use crate::instructions::{
    kind_name, mnemonic, mnemonic_of, Instr, InstrError, Opcode, Operand, OperandKind,
    RegisterType, SourceLocation,
};
use crate::text::{decimal_of, push_decimal, push_signed_decimal, signed_decimal_of};

verus! {

/// How a register is written: its architectural name, else `R<n>`.
pub open spec fn register_text(reg: RegisterType) -> Seq<char> {
    if reg == FP {
        "FP"@
    } else if reg == LR {
        "LR"@
    } else if reg == SP {
        "SP"@
    } else if reg == PC {
        "PC"@
    } else if reg == CPSR {
        "CPSR"@
    } else {
        "R"@ + decimal_of(reg as nat)
    }
}

/// How an operand is written.
pub open spec fn operand_text(op: Operand) -> Seq<char> {
    match op {
        Operand::Register(reg) => register_text(reg),
        Operand::Immediate(v) => signed_decimal_of(v as int),
        Operand::Memory(a) => "["@ + signed_decimal_of(a as int) + "]"@,
        Operand::Code(a) => "["@ + signed_decimal_of(a as int) + "]"@,
        Operand::Unused => "Unused"@,
    }
}

/// How a source location is written: `line:column`.
pub open spec fn location_text(loc: SourceLocation) -> Seq<char> {
    decimal_of(loc.line as nat) + ":"@ + decimal_of(loc.column as nat)
}

/// The operand texts of `ops`, separated by `, `.
pub open spec fn operand_list_text(ops: Seq<Operand>) -> Seq<char>
    decreases ops.len(),
{
    if ops.len() == 0 {
        seq![]
    } else if ops.len() == 1 {
        operand_text(ops[0])
    } else {
        operand_list_text(ops.drop_last()) + ", "@ + operand_text(ops.last())
    }
}

impl SourceLocation {
    /// Appends `line:column` to `out`.
    pub fn write_text(&self, out: &mut String)
        ensures
            final(out)@ == old(out)@ + location_text(*self),
    {
        push_decimal(out, self.line as u64);
        out.append(":");
        push_decimal(out, self.column as u64);
        assert(out@ =~= old(out)@ + location_text(*self));
    }

    /// The text `line:column`.
    pub fn to_string(&self) -> (r: String)
        ensures
            r@ == location_text(*self),
    {
        let mut out = String::new();
        self.write_text(&mut out);
        assert(out@ =~= location_text(*self));
        out
    }
}

impl Operand {
    /// Appends the text of this operand to `out`.
    pub fn write_text(&self, out: &mut String)
        ensures
            final(out)@ == old(out)@ + operand_text(*self),
    {
        match *self {
            Operand::Register(reg) => {
                if reg == FP {
                    out.append("FP");
                } else if reg == LR {
                    out.append("LR");
                } else if reg == SP {
                    out.append("SP");
                } else if reg == PC {
                    out.append("PC");
                } else if reg == CPSR {
                    out.append("CPSR");
                } else {
                    out.append("R");
                    push_decimal(out, reg as u64);
                }
            },
            Operand::Immediate(v) => push_signed_decimal(out, v),
            Operand::Memory(a) | Operand::Code(a) => {
                out.append("[");
                push_signed_decimal(out, a);
                out.append("]");
            },
            Operand::Unused => out.append("Unused"),
        }
        assert(out@ =~= old(out)@ + operand_text(*self));
    }

    /// The text of this operand: a register's name, an immediate's value, or a memory or
    /// code address in brackets.
    pub fn to_string(&self) -> (r: String)
        ensures
            r@ == operand_text(*self),
    {
        let mut out = String::new();
        self.write_text(&mut out);
        assert(out@ =~= operand_text(*self));
        out
    }
}

impl Instr {
    /// The operands shown in this instruction's text, in the order written.
    pub open spec fn shown_operands(self) -> Seq<Operand> {
        let src = self.source@;
        let snk = self.sink@;
        match self.opcode {
            Opcode::ADD | Opcode::SUB | Opcode::MUL | Opcode::SDIV | Opcode::AND | Opcode::ORR
            | Opcode::EOR => seq![snk[0], src[0], src[1]],
            Opcode::LDR | Opcode::MOV | Opcode::NEG | Opcode::MVN => seq![snk[0], src[0]],
            Opcode::STR => seq![src[0], snk[0]],
            Opcode::CBZ | Opcode::CBNZ | Opcode::CMP => seq![src[0], src[1]],
            Opcode::PRINTR | Opcode::B | Opcode::BX | Opcode::BL | Opcode::BEQ | Opcode::BNE
            | Opcode::BLE | Opcode::BLT | Opcode::BGE | Opcode::BGT => seq![src[0]],
            Opcode::NOP | Opcode::EXIT => seq![],
        }
    }

    /// This instruction's text: the mnemonic and a space, the shown operands, and the
    /// source location when there is one.
    pub open spec fn text(self) -> Seq<char> {
        mnemonic_of(self.opcode) + " "@ + operand_list_text(self.shown_operands()) + match self.loc {
            Some(loc) => " ; "@ + location_text(loc),
            None => seq![],
        }
    }

    fn shown_operand_vec(&self) -> (r: Vec<Operand>)
        ensures
            r@ == self.shown_operands(),
    {
        let src = &self.source;
        let snk = &self.sink;
        match self.opcode {
            Opcode::ADD | Opcode::SUB | Opcode::MUL | Opcode::SDIV | Opcode::AND | Opcode::ORR
            | Opcode::EOR => vec![snk[0], src[0], src[1]],
            Opcode::LDR | Opcode::MOV | Opcode::NEG | Opcode::MVN => vec![snk[0], src[0]],
            Opcode::STR => vec![src[0], snk[0]],
            Opcode::CBZ | Opcode::CBNZ | Opcode::CMP => vec![src[0], src[1]],
            Opcode::PRINTR | Opcode::B | Opcode::BX | Opcode::BL | Opcode::BEQ | Opcode::BNE
            | Opcode::BLE | Opcode::BLT | Opcode::BGE | Opcode::BGT => vec![src[0]],
            Opcode::NOP | Opcode::EXIT => vec![],
        }
    }

    /// This instruction as assembler text, e.g. `ADD R0, R1, 5 ; 3:1`.
    pub fn to_string(&self) -> (r: String)
        ensures
            r@ == self.text(),
    {
        let mut out = String::new();
        out.append(mnemonic(self.opcode));
        out.append(" ");
        let ghost head = out@;
        let shown = self.shown_operand_vec();
        let mut i: usize = 0;
        while i < shown.len()
            invariant
                i <= shown@.len(),
                out@ == head + operand_list_text(shown@.take(i as int)),
            decreases shown@.len() - i,
        {
            assert(shown@.take(i + 1).drop_last() =~= shown@.take(i as int));
            if i > 0 {
                out.append(", ");
            }
            shown[i].write_text(&mut out);
            assert(out@ =~= head + operand_list_text(shown@.take(i + 1)));
            i += 1;
        }
        assert(shown@.take(i as int) =~= shown@);
        if let Some(loc) = self.loc {
            out.append(" ; ");
            loc.write_text(&mut out);
        }
        assert(out@ =~= self.text());
        out
    }
}

/// The names of the kinds `ks`, separated by `, `.
pub open spec fn kind_list_text(ks: Seq<OperandKind>) -> Seq<char>
    decreases ks.len(),
{
    if ks.len() == 0 {
        seq![]
    } else if ks.len() == 1 {
        kind_name(ks[0])
    } else {
        kind_list_text(ks.drop_last()) + ", "@ + kind_name(ks.last())
    }
}

impl InstrError {
    /// The diagnostic for this error.
    pub open spec fn text(self) -> Seq<char> {
        match self {
            InstrError::OperandCount { opcode, expected, actual, loc } => "Operand count mismatch. "@
                + mnemonic_of(opcode) + " expects "@ + decimal_of(expected as nat)
                + " arguments, but "@ + decimal_of(actual as nat) + " are provided at "@
                + location_text(loc),
            InstrError::OperandKind { opcode, accepted, index, actual } => "Operand type mismatch. "@
                + mnemonic_of(opcode) + " expects "@ + kind_list_text(accepted@)
                + " as argument nr "@ + decimal_of(index as nat) + ", but "@ + kind_name(actual)
                + " was provided"@,
        }
    }

    /// The diagnostic for this error, naming the opcode and what was expected and found.
    pub fn message(&self) -> (r: String)
        ensures
            r@ == self.text(),
    {
        let mut out = String::new();
        match self {
            InstrError::OperandCount { opcode, expected, actual, loc } => {
                out.append("Operand count mismatch. ");
                out.append(mnemonic(*opcode));
                out.append(" expects ");
                push_decimal(&mut out, *expected as u64);
                out.append(" arguments, but ");
                push_decimal(&mut out, *actual as u64);
                out.append(" are provided at ");
                loc.write_text(&mut out);
            },
            InstrError::OperandKind { opcode, accepted, index, actual } => {
                out.append("Operand type mismatch. ");
                out.append(mnemonic(*opcode));
                out.append(" expects ");
                let ghost head = out@;
                let mut i: usize = 0;
                while i < accepted.len()
                    invariant
                        i <= accepted@.len(),
                        out@ == head + kind_list_text(accepted@.take(i as int)),
                    decreases accepted@.len() - i,
                {
                    assert(accepted@.take(i + 1).drop_last() =~= accepted@.take(i as int));
                    if i > 0 {
                        out.append(", ");
                    }
                    out.append(accepted[i].name());
                    assert(out@ =~= head + kind_list_text(accepted@.take(i + 1)));
                    i += 1;
                }
                assert(accepted@.take(i as int) =~= accepted@);
                out.append(" as argument nr ");
                push_decimal(&mut out, *index as u64);
                out.append(", but ");
                out.append(actual.name());
                out.append(" was provided");
            },
        }
        assert(out@ =~= self.text());
        out
    }
}

} // verus!
