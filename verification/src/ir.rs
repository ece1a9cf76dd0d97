//! The instruction model: one tagged variant for every syntactic form a
//! source line can take, together with the ghost view of each form and the
//! numeric field codes used by the binary encoding.

use vstd::prelude::*;

verus! {

/// The register file: eight architectural registers plus a sentinel for an
/// unused operand slot.
#[derive(Clone, Copy, Debug, PartialEq, Eq, Structural)]
pub enum Register {
    Zero,
    At,
    V0,
    V1,
    A0,
    A1,
    Sp,
    Ra,
    Unused,
}

/// Register-only (three-operand) operations.
#[derive(Clone, Copy, Debug, PartialEq, Eq, Structural)]
pub enum RType {
    Add,
    Sub,
    And,
    Or,
    Nor,
    SLL,
    SRL,
    SRA,
}

/// Jump operations taking a single address or label operand.
#[derive(Clone, Copy, Debug, PartialEq, Eq, Structural)]
pub enum JType {
    Jmp,
    Jal,
}

/// Operations taking register operands and an 8-bit signed immediate.
#[derive(Clone, Copy, Debug, PartialEq, Eq, Structural)]
pub enum IType {
    LW,
    SW,
    BEQ,
    BNE,
    AddI,
    JmpI,
    JalI,
    LLI,
    LUI,
}

/// Pseudo-instructions: forms with no direct encoding, expanded during the
/// second pass. Currently only `li`, which loads a full 16-bit immediate.
#[derive(Clone, Copy, Debug, PartialEq, Eq, Structural)]
pub enum Pseudo {
    LI(Register, i16),
}

/// Layout directives.
#[derive(Debug)]
pub enum Directive {
    /// Reset the address counter.
    Org(u16),
    /// Advance the address counter without emitting data.
    Space(u16),
    /// Emit one byte of data.
    Byte(u8),
    /// Emit one word of data.
    Word(u16),
    /// Emit one byte per byte of the stored text.
    Asciiz(String),
}

/// One parsed source line.
#[derive(Debug)]
pub enum IRInstruction {
    Directive(Directive),
    Label(String),
    RType(RType, Register, Register, Register),
    JTypeLabel(JType, String),
    JTypeAddr(JType, u16),
    IType(IType, Register, Register, i8),
    Pseudo(Pseudo),
    BlankLine,
}

/// Ghost view of a [`Directive`]: text is seen as a sequence of characters.
pub enum DirectiveView {
    Org(u16),
    Space(u16),
    Byte(u8),
    Word(u16),
    Asciiz(Seq<char>),
}

/// Ghost view of an [`IRInstruction`].
pub enum IrView {
    Directive(DirectiveView),
    Label(Seq<char>),
    RType(RType, Register, Register, Register),
    JTypeLabel(JType, Seq<char>),
    JTypeAddr(JType, u16),
    IType(IType, Register, Register, i8),
    Pseudo(Pseudo),
    BlankLine,
}

impl View for Directive {
    type V = DirectiveView;

    open spec fn view(&self) -> DirectiveView {
        match self {
            Directive::Org(a) => DirectiveView::Org(*a),
            Directive::Space(n) => DirectiveView::Space(*n),
            Directive::Byte(b) => DirectiveView::Byte(*b),
            Directive::Word(w) => DirectiveView::Word(*w),
            Directive::Asciiz(s) => DirectiveView::Asciiz(s@),
        }
    }
}

impl View for IRInstruction {
    type V = IrView;

    open spec fn view(&self) -> IrView {
        match self {
            IRInstruction::Directive(d) => IrView::Directive(d@),
            IRInstruction::Label(s) => IrView::Label(s@),
            IRInstruction::RType(rt, r1, r2, r3) => IrView::RType(*rt, *r1, *r2, *r3),
            IRInstruction::JTypeLabel(jt, s) => IrView::JTypeLabel(*jt, s@),
            IRInstruction::JTypeAddr(jt, a) => IrView::JTypeAddr(*jt, *a),
            IRInstruction::IType(it, r1, r2, im) => IrView::IType(*it, *r1, *r2, *im),
            IRInstruction::Pseudo(p) => IrView::Pseudo(*p),
            IRInstruction::BlankLine => IrView::BlankLine,
        }
    }
}

impl Clone for Directive {
    fn clone(&self) -> (r: Directive)
        ensures
            r@ == self@,
    {
        match self {
            Directive::Org(a) => Directive::Org(*a),
            Directive::Space(n) => Directive::Space(*n),
            Directive::Byte(b) => Directive::Byte(*b),
            Directive::Word(w) => Directive::Word(*w),
            Directive::Asciiz(s) => Directive::Asciiz(s.clone()),
        }
    }
}

impl Clone for IRInstruction {
    fn clone(&self) -> (r: IRInstruction)
        ensures
            r@ == self@,
    {
        match self {
            IRInstruction::Directive(d) => IRInstruction::Directive(d.clone()),
            IRInstruction::Label(s) => IRInstruction::Label(s.clone()),
            IRInstruction::RType(rt, r1, r2, r3) => IRInstruction::RType(*rt, *r1, *r2, *r3),
            IRInstruction::JTypeLabel(jt, s) => IRInstruction::JTypeLabel(*jt, s.clone()),
            IRInstruction::JTypeAddr(jt, a) => IRInstruction::JTypeAddr(*jt, *a),
            IRInstruction::IType(it, r1, r2, im) => IRInstruction::IType(*it, *r1, *r2, *im),
            IRInstruction::Pseudo(p) => IRInstruction::Pseudo(*p),
            IRInstruction::BlankLine => IRInstruction::BlankLine,
        }
    }
}

impl PartialEq for Directive {
    fn eq(&self, other: &Directive) -> bool {
        match (self, other) {
            (Directive::Org(a), Directive::Org(b)) => *a == *b,
            (Directive::Space(a), Directive::Space(b)) => *a == *b,
            (Directive::Byte(a), Directive::Byte(b)) => *a == *b,
            (Directive::Word(a), Directive::Word(b)) => *a == *b,
            (Directive::Asciiz(a), Directive::Asciiz(b)) => *a == *b,
            _ => false,
        }
    }
}

impl vstd::std_specs::cmp::PartialEqSpecImpl for Directive {
    open spec fn obeys_eq_spec() -> bool {
        true
    }

    open spec fn eq_spec(&self, other: &Directive) -> bool {
        self@ == other@
    }
}

impl PartialEq for IRInstruction {
    fn eq(&self, other: &IRInstruction) -> bool {
        match (self, other) {
            (IRInstruction::Directive(a), IRInstruction::Directive(b)) => *a == *b,
            (IRInstruction::Label(a), IRInstruction::Label(b)) => *a == *b,
            (IRInstruction::RType(ta, a1, a2, a3), IRInstruction::RType(tb, b1, b2, b3)) => (
                *ta == *tb && *a1 == *b1 && *a2 == *b2 && *a3 == *b3
            ),
            (IRInstruction::JTypeLabel(ta, a), IRInstruction::JTypeLabel(tb, b)) => (
                *ta == *tb && *a == *b
            ),
            (IRInstruction::JTypeAddr(ta, a), IRInstruction::JTypeAddr(tb, b)) => (
                *ta == *tb && *a == *b
            ),
            (IRInstruction::IType(ta, a1, a2, ia), IRInstruction::IType(tb, b1, b2, ib)) => (
                *ta == *tb && *a1 == *b1 && *a2 == *b2 && *ia == *ib
            ),
            (IRInstruction::Pseudo(a), IRInstruction::Pseudo(b)) => *a == *b,
            (IRInstruction::BlankLine, IRInstruction::BlankLine) => true,
            _ => false,
        }
    }
}

impl vstd::std_specs::cmp::PartialEqSpecImpl for IRInstruction {
    open spec fn obeys_eq_spec() -> bool {
        true
    }

    open spec fn eq_spec(&self, other: &IRInstruction) -> bool {
        self@ == other@
    }
}

/// Numeric code of a register operand field. The unused-slot sentinel
/// encodes as zero, the same as the zero register.
pub open spec fn reg_code(r: Register) -> int {
    match r {
        Register::Zero => 0,
        Register::At => 1,
        Register::V0 => 2,
        Register::V1 => 3,
        Register::A0 => 4,
        Register::A1 => 5,
        Register::Sp => 6,
        Register::Ra => 7,
        Register::Unused => 0,
    }
}

/// Opcode of a register-triad operation (bits 2..0 of the word).
pub open spec fn rtype_code(rt: RType) -> int {
    match rt {
        RType::Add => 0,
        RType::Sub => 1,
        RType::And => 2,
        RType::Or => 3,
        RType::Nor => 4,
        RType::SLL => 5,
        RType::SRL => 6,
        RType::SRA => 7,
    }
}

/// Opcode of a jump operation (bits 15..12 of the word).
pub open spec fn jtype_code(jt: JType) -> int {
    match jt {
        JType::Jmp => 1,
        JType::Jal => 2,
    }
}

/// Opcode of an immediate operation (bits 15..12 of the word).
pub open spec fn itype_code(it: IType) -> int {
    match it {
        IType::LW => 3,
        IType::SW => 4,
        IType::BEQ => 5,
        IType::BNE => 6,
        IType::AddI => 7,
        IType::JmpI => 8,
        IType::JalI => 9,
        IType::LLI => 10,
        IType::LUI => 11,
    }
}

pub fn reg_to_int(reg: &Register) -> (r: u16)
    ensures
        r == reg_code(*reg),
{
    match reg {
        Register::Zero => 0,
        Register::At => 1,
        Register::V0 => 2,
        Register::V1 => 3,
        Register::A0 => 4,
        Register::A1 => 5,
        Register::Sp => 6,
        Register::Ra => 7,
        Register::Unused => 0,
    }
}

pub fn rtype_to_int(rtype: &RType) -> (r: u16)
    ensures
        r == rtype_code(*rtype),
{
    match rtype {
        RType::Add => 0,
        RType::Sub => 1,
        RType::And => 2,
        RType::Or => 3,
        RType::Nor => 4,
        RType::SLL => 5,
        RType::SRL => 6,
        RType::SRA => 7,
    }
}

pub fn jtype_to_int(jtype: &JType) -> (r: u16)
    ensures
        r == jtype_code(*jtype),
{
    match jtype {
        JType::Jmp => 1,
        JType::Jal => 2,
    }
}

pub fn itype_to_int(itype: &IType) -> (r: u16)
    ensures
        r == itype_code(*itype),
{
    match itype {
        IType::LW => 3,
        IType::SW => 4,
        IType::BEQ => 5,
        IType::BNE => 6,
        IType::AddI => 7,
        IType::JmpI => 8,
        IType::JalI => 9,
        IType::LLI => 10,
        IType::LUI => 11,
    }
}

/// The forms the listing renderer accepts: everything but a label, a
/// blank line, an unresolved jump and a pseudo-instruction. The second
/// pass emits only such forms.
pub open spec fn spec_encodable(i: IrView) -> bool {
    match i {
        IrView::RType(..) => true,
        IrView::JTypeAddr(..) => true,
        IrView::IType(..) => true,
        IrView::Directive(_) => true,
        _ => false,
    }
}

/// Whether the listing renderer may be applied to this instruction.
pub fn is_encodable(instr: &IRInstruction) -> (r: bool)
    ensures
        r == spec_encodable(instr@),
{
    match instr {
        IRInstruction::RType(..) => true,
        IRInstruction::JTypeAddr(..) => true,
        IRInstruction::IType(..) => true,
        IRInstruction::Directive(_) => true,
        _ => false,
    }
}

/// The unsigned 8-bit reading of a signed byte (its two's-complement bits).
pub open spec fn unsigned8(v: i8) -> int {
    if v >= 0 {
        v as int
    } else {
        v + 256
    }
}

/// The unsigned 16-bit reading of a signed word (its two's-complement bits).
pub open spec fn unsigned16(v: i16) -> int {
    if v >= 0 {
        v as int
    } else {
        v + 65536
    }
}

/// The signed reading of an unsigned byte value (two's complement).
pub open spec fn signed8(b: int) -> int
    recommends
        0 <= b < 256,
{
    if b < 128 {
        b
    } else {
        b - 256
    }
}

/// The low byte of a signed 16-bit word, read as signed 8-bit.
pub open spec fn low_byte(v: i16) -> i8 {
    signed8(unsigned16(v) % 256) as i8
}

/// The high byte of a signed 16-bit word, read as signed 8-bit.
pub open spec fn high_byte(v: i16) -> i8 {
    signed8(unsigned16(v) / 256) as i8
}

/// Extracts the low byte of a 16-bit word, keeping its bit pattern.
pub fn low_byte_of(v: i16) -> (r: i8)
    ensures
        r == low_byte(v),
{
    let bits: u32 = if v >= 0 {
        v as u32
    } else {
        (v as i32 + 65536) as u32
    };
    let low: u32 = bits % 256;
    if low < 128 {
        low as i8
    } else {
        (low as i32 - 256) as i8
    }
}

/// Extracts the high byte of a 16-bit word, keeping its bit pattern.
pub fn high_byte_of(v: i16) -> (r: i8)
    ensures
        r == high_byte(v),
{
    let bits: u32 = if v >= 0 {
        v as u32
    } else {
        (v as i32 + 65536) as u32
    };
    let high: u32 = bits / 256;
    if high < 128 {
        high as i8
    } else {
        (high as i32 - 256) as i8
    }
}

/// Reassembling the two bytes of a split 16-bit word recovers its bit
/// pattern: the two's-complement byte split loses nothing.
pub proof fn lemma_byte_split(v: i16)
    ensures
        unsigned8(low_byte(v)) + 256 * unsigned8(high_byte(v)) == unsigned16(v),
{
}

} // verus!
