//! Textual rendering: numbers as unpadded uppercase hex or decimal, and
//! the human-readable echo of an instruction that trails each listing line.

use vstd::prelude::*;

use crate::ir::Directive;
use crate::ir::DirectiveView;
use crate::ir::IRInstruction;
use crate::ir::IType;
use crate::ir::IrView;
use crate::ir::JType;
use crate::ir::Pseudo;
use crate::ir::RType;
use crate::ir::Register;

verus! {

/// The character of one digit value, hex digits in uppercase.
pub open spec fn digit_text(d: int) -> char
    recommends
        0 <= d < 16,
{
    if d == 0 {
        '0'
    } else if d == 1 {
        '1'
    } else if d == 2 {
        '2'
    } else if d == 3 {
        '3'
    } else if d == 4 {
        '4'
    } else if d == 5 {
        '5'
    } else if d == 6 {
        '6'
    } else if d == 7 {
        '7'
    } else if d == 8 {
        '8'
    } else if d == 9 {
        '9'
    } else if d == 10 {
        'A'
    } else if d == 11 {
        'B'
    } else if d == 12 {
        'C'
    } else if d == 13 {
        'D'
    } else if d == 14 {
        'E'
    } else {
        'F'
    }
}

/// A nonnegative value in uppercase hexadecimal, no padding.
pub open spec fn spec_hex(n: int) -> Seq<char>
    recommends
        n >= 0,
    decreases n,
{
    if n < 16 {
        seq![digit_text(n)]
    } else {
        spec_hex(n / 16).push(digit_text(n % 16))
    }
}

/// A nonnegative value in decimal.
pub open spec fn spec_dec(n: int) -> Seq<char>
    recommends
        n >= 0,
    decreases n,
{
    if n < 10 {
        seq![digit_text(n)]
    } else {
        spec_dec(n / 10).push(digit_text(n % 10))
    }
}

/// A signed value in decimal.
pub open spec fn spec_dec_signed(v: int) -> Seq<char> {
    if v < 0 {
        seq!['-'] + spec_dec(-v)
    } else {
        spec_dec(v)
    }
}

/// One digit as a string slice.
fn digit_str(d: u16) -> (r: &'static str)
    requires
        d < 16,
    ensures
        r@ =~= seq![digit_text(d as int)],
{
    proof {
        reveal_strlit("0");
        reveal_strlit("1");
        reveal_strlit("2");
        reveal_strlit("3");
        reveal_strlit("4");
        reveal_strlit("5");
        reveal_strlit("6");
        reveal_strlit("7");
        reveal_strlit("8");
        reveal_strlit("9");
        reveal_strlit("A");
        reveal_strlit("B");
        reveal_strlit("C");
        reveal_strlit("D");
        reveal_strlit("E");
        reveal_strlit("F");
    }
    if d == 0 {
        "0"
    } else if d == 1 {
        "1"
    } else if d == 2 {
        "2"
    } else if d == 3 {
        "3"
    } else if d == 4 {
        "4"
    } else if d == 5 {
        "5"
    } else if d == 6 {
        "6"
    } else if d == 7 {
        "7"
    } else if d == 8 {
        "8"
    } else if d == 9 {
        "9"
    } else if d == 10 {
        "A"
    } else if d == 11 {
        "B"
    } else if d == 12 {
        "C"
    } else if d == 13 {
        "D"
    } else if d == 14 {
        "E"
    } else {
        "F"
    }
}

/// Renders a 16-bit value in uppercase hexadecimal.
pub fn u16_to_hex(n: u16) -> (r: String)
    ensures
        r@ == spec_hex(n as int),
    decreases n,
{
    if n < 16 {
        digit_str(n).to_owned()
    } else {
        let mut s = u16_to_hex(n / 16);
        s.append(digit_str(n % 16));
        proof {
            assert(s@ =~= spec_hex((n / 16) as int).push(digit_text((n % 16) as int)));
        }
        s
    }
}

/// Renders a byte in uppercase hexadecimal.
pub fn u8_to_hex(b: u8) -> (r: String)
    ensures
        r@ == spec_hex(b as int),
{
    u16_to_hex(b as u16)
}

/// Renders a 16-bit value in decimal.
pub fn u16_to_dec(n: u16) -> (r: String)
    ensures
        r@ == spec_dec(n as int),
    decreases n,
{
    if n < 10 {
        digit_str(n).to_owned()
    } else {
        let mut s = u16_to_dec(n / 10);
        s.append(digit_str(n % 10));
        proof {
            assert(s@ =~= spec_dec((n / 10) as int).push(digit_text((n % 10) as int)));
        }
        s
    }
}

/// Renders a signed 16-bit value in decimal.
pub fn i16_to_dec(v: i16) -> (r: String)
    ensures
        r@ == spec_dec_signed(v as int),
{
    if v >= 0 {
        u16_to_dec(v as u16)
    } else {
        let mag: u16 = (-(v as i32)) as u16;
        let mut s = String::new();
        s.append("-");
        s.append(u16_to_dec(mag).as_str());
        proof {
            reveal_strlit("-");
            assert(s@ =~= seq!['-'] + spec_dec(mag as int));
        }
        s
    }
}

/// Renders a signed byte in decimal.
pub fn i8_to_dec(v: i8) -> (r: String)
    ensures
        r@ == spec_dec_signed(v as int),
{
    i16_to_dec(v as i16)
}

/// The written name of a register.
pub open spec fn reg_text(r: Register) -> Seq<char> {
    match r {
        Register::Zero => "$0"@,
        Register::At => "$at"@,
        Register::V0 => "$v0"@,
        Register::V1 => "$v1"@,
        Register::A0 => "$a0"@,
        Register::A1 => "$a1"@,
        Register::Sp => "$sp"@,
        Register::Ra => "$ra"@,
        Register::Unused => "None"@,
    }
}

/// The written name of a register-triad operation.
pub open spec fn rtype_text(rt: RType) -> Seq<char> {
    match rt {
        RType::Add => "add"@,
        RType::Sub => "sub"@,
        RType::And => "and"@,
        RType::Or => "or"@,
        RType::Nor => "nor"@,
        RType::SLL => "sll"@,
        RType::SRL => "srl"@,
        RType::SRA => "sra"@,
    }
}

/// The written name of a jump operation.
pub open spec fn jtype_text(jt: JType) -> Seq<char> {
    match jt {
        JType::Jmp => "jmp"@,
        JType::Jal => "jal"@,
    }
}

/// The written name of an immediate operation.
pub open spec fn itype_text(it: IType) -> Seq<char> {
    match it {
        IType::LW => "lw"@,
        IType::SW => "sw"@,
        IType::BEQ => "beq"@,
        IType::BNE => "bne"@,
        IType::AddI => "addi"@,
        IType::JmpI => "jmpi"@,
        IType::JalI => "jali"@,
        IType::LLI => "lli"@,
        IType::LUI => "lui"@,
    }
}

/// The echo of a directive.
pub open spec fn dir_text(d: DirectiveView) -> Seq<char> {
    match d {
        DirectiveView::Org(a) => ".org "@ + spec_dec(a as int),
        DirectiveView::Space(n) => ".space "@ + spec_dec(n as int),
        DirectiveView::Byte(b) => ".byte "@ + spec_dec(b as int),
        DirectiveView::Word(w) => ".word "@ + spec_dec(w as int),
        DirectiveView::Asciiz(s) => ".asciiz "@ + s,
    }
}

/// The human-readable echo of an instruction, as the listing's trailing
/// comment shows it.
pub open spec fn instr_text(i: IrView) -> Seq<char> {
    match i {
        IrView::Directive(d) => dir_text(d),
        IrView::Label(s) => s,
        IrView::RType(rt, r1, r2, r3) => rtype_text(rt) + ", "@ + reg_text(r1) + ", "@ + reg_text(
            r2,
        ) + ", "@ + reg_text(r3),
        IrView::JTypeLabel(jt, s) => jtype_text(jt) + ", "@ + s,
        IrView::JTypeAddr(jt, a) => jtype_text(jt) + ", "@ + spec_dec(a as int),
        IrView::IType(it, r1, r2, im) => itype_text(it) + ", "@ + reg_text(r1) + ", "@ + reg_text(
            r2,
        ) + ", "@ + spec_dec_signed(im as int),
        IrView::Pseudo(p) => match p {
            Pseudo::LI(reg, v) => reg_text(reg) + ", "@ + spec_dec_signed(v as int),
        },
        IrView::BlankLine => "BlankLine"@,
    }
}

fn reg_name(r: &Register) -> (s: &'static str)
    ensures
        s@ == reg_text(*r),
{
    match r {
        Register::Zero => "$0",
        Register::At => "$at",
        Register::V0 => "$v0",
        Register::V1 => "$v1",
        Register::A0 => "$a0",
        Register::A1 => "$a1",
        Register::Sp => "$sp",
        Register::Ra => "$ra",
        Register::Unused => "None",
    }
}

fn rtype_name(rt: &RType) -> (s: &'static str)
    ensures
        s@ == rtype_text(*rt),
{
    match rt {
        RType::Add => "add",
        RType::Sub => "sub",
        RType::And => "and",
        RType::Or => "or",
        RType::Nor => "nor",
        RType::SLL => "sll",
        RType::SRL => "srl",
        RType::SRA => "sra",
    }
}

fn jtype_name(jt: &JType) -> (s: &'static str)
    ensures
        s@ == jtype_text(*jt),
{
    match jt {
        JType::Jmp => "jmp",
        JType::Jal => "jal",
    }
}

fn itype_name(it: &IType) -> (s: &'static str)
    ensures
        s@ == itype_text(*it),
{
    match it {
        IType::LW => "lw",
        IType::SW => "sw",
        IType::BEQ => "beq",
        IType::BNE => "bne",
        IType::AddI => "addi",
        IType::JmpI => "jmpi",
        IType::JalI => "jali",
        IType::LLI => "lli",
        IType::LUI => "lui",
    }
}

/// Renders the human-readable echo of one instruction.
pub fn render_instr(instr: &IRInstruction) -> (r: String)
    ensures
        r@ == instr_text(instr@),
{
    match instr {
        IRInstruction::Directive(d) => {
            let mut s = String::new();
            match d {
                Directive::Org(a) => {
                    s.append(".org ");
                    s.append(u16_to_dec(*a).as_str());
                },
                Directive::Space(n) => {
                    s.append(".space ");
                    s.append(u16_to_dec(*n).as_str());
                },
                Directive::Byte(b) => {
                    s.append(".byte ");
                    s.append(u16_to_dec(*b as u16).as_str());
                },
                Directive::Word(w) => {
                    s.append(".word ");
                    s.append(u16_to_dec(*w).as_str());
                },
                Directive::Asciiz(text) => {
                    s.append(".asciiz ");
                    s.append(text.as_str());
                },
            }
            s
        },
        IRInstruction::Label(name) => name.clone(),
        IRInstruction::RType(rt, r1, r2, r3) => {
            let mut s = String::new();
            s.append(rtype_name(rt));
            s.append(", ");
            s.append(reg_name(r1));
            s.append(", ");
            s.append(reg_name(r2));
            s.append(", ");
            s.append(reg_name(r3));
            s
        },
        IRInstruction::JTypeLabel(jt, name) => {
            let mut s = String::new();
            s.append(jtype_name(jt));
            s.append(", ");
            s.append(name.as_str());
            s
        },
        IRInstruction::JTypeAddr(jt, a) => {
            let mut s = String::new();
            s.append(jtype_name(jt));
            s.append(", ");
            s.append(u16_to_dec(*a).as_str());
            s
        },
        IRInstruction::IType(it, r1, r2, im) => {
            let mut s = String::new();
            s.append(itype_name(it));
            s.append(", ");
            s.append(reg_name(r1));
            s.append(", ");
            s.append(reg_name(r2));
            s.append(", ");
            s.append(i8_to_dec(*im).as_str());
            s
        },
        IRInstruction::Pseudo(p) => match p {
            Pseudo::LI(reg, v) => {
                let mut s = String::new();
                s.append(reg_name(reg));
                s.append(", ");
                s.append(i16_to_dec(*v).as_str());
                s
            },
        },
        IRInstruction::BlankLine => String::from_str("BlankLine"),
    }
}

} // verus!
