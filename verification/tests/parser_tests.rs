use assembler::ir::Directive;
use assembler::ir::IRInstruction;
use assembler::ir::IType;
use assembler::ir::JType;
use assembler::ir::Pseudo;
use assembler::ir::RType;
use assembler::ir::Register;
use assembler::parser::parse_line;

#[test]
fn parse_empty_line() {
    assert_eq!(parse_line("").unwrap(), IRInstruction::BlankLine);
    assert_eq!(parse_line(" ").unwrap(), IRInstruction::BlankLine);
    assert_eq!(parse_line("  ").unwrap(), IRInstruction::BlankLine);
    assert_eq!(parse_line("\t").unwrap(), IRInstruction::BlankLine);
    assert_eq!(parse_line("\t ").unwrap(), IRInstruction::BlankLine);
}

#[test]
fn parse_empty_line_comment() {
    assert_eq!(parse_line("#").unwrap(), IRInstruction::BlankLine);
    assert_eq!(parse_line(" #").unwrap(), IRInstruction::BlankLine);
    assert_eq!(parse_line("# abcd").unwrap(), IRInstruction::BlankLine);
    assert_eq!(parse_line(" # abcd").unwrap(), IRInstruction::BlankLine);
    assert_eq!(parse_line(" # abcd ").unwrap(), IRInstruction::BlankLine);
}

#[test]
fn parse_label() {
    assert_eq!(parse_line("abc:").unwrap(), IRInstruction::Label(String::from("abc")));
    assert_eq!(parse_line(" abc:").unwrap(), IRInstruction::Label(String::from("abc")));
    assert_eq!(parse_line(" abc: ").unwrap(), IRInstruction::Label(String::from("abc")));
    assert_eq!(parse_line("\tabc:").unwrap(), IRInstruction::Label(String::from("abc")));
    assert_eq!(parse_line("abc: # comment").unwrap(), IRInstruction::Label(String::from("abc")));
}

#[test]
fn parse_directive() {
    assert_eq!(parse_line(".space 1").unwrap(), IRInstruction::Directive(Directive::Space(1)));
    assert_eq!(parse_line(".word 1").unwrap(), IRInstruction::Directive(Directive::Word(1)));
    assert_eq!(parse_line(".byte 1").unwrap(), IRInstruction::Directive(Directive::Byte(1)));
    assert_eq!(
        parse_line(".asciiz \"abc\"").unwrap(),
        IRInstruction::Directive(Directive::Asciiz(String::from("abc")))
    );
    assert_eq!(
        parse_line(".asciiz \"abc\"").unwrap(),
        IRInstruction::Directive(Directive::Asciiz(String::from("abc")))
    );
}

#[test]
fn parse_rtype() {
    assert_eq!(
        parse_line("add $v0, $a0, $a1").unwrap(),
        IRInstruction::RType(RType::Add, Register::V0, Register::A0, Register::A1)
    );
    assert_eq!(
        parse_line("sub $v0, $a0, $a1").unwrap(),
        IRInstruction::RType(RType::Sub, Register::V0, Register::A0, Register::A1)
    );
    assert_eq!(
        parse_line("or $v0, $a0, $a1").unwrap(),
        IRInstruction::RType(RType::Or, Register::V0, Register::A0, Register::A1)
    );
}

#[test]
fn parse_jtype_with_address() {
    assert_eq!(parse_line("jmp 1").unwrap(), IRInstruction::JTypeAddr(JType::Jmp, 1));
    assert_eq!(parse_line("jal 1").unwrap(), IRInstruction::JTypeAddr(JType::Jal, 1));
    assert_eq!(parse_line("jmp 0x1").unwrap(), IRInstruction::JTypeAddr(JType::Jmp, 1));
    assert_eq!(parse_line("jal 0x1").unwrap(), IRInstruction::JTypeAddr(JType::Jal, 1));
}

#[test]
fn parse_jtype_with_label() {
    assert_eq!(
        parse_line("jmp abc").unwrap(),
        IRInstruction::JTypeLabel(JType::Jmp, String::from("abc"))
    );
    assert_eq!(
        parse_line("jal abc").unwrap(),
        IRInstruction::JTypeLabel(JType::Jal, String::from("abc"))
    );
}

#[test]
fn parse_itype_two_reg_and_offset() {
    assert_eq!(
        parse_line("lw $v0, 2($a0)").unwrap(),
        IRInstruction::IType(IType::LW, Register::V0, Register::A0, 2)
    );
    assert_eq!(
        parse_line("sw $v0, 2($a0)").unwrap(),
        IRInstruction::IType(IType::SW, Register::V0, Register::A0, 2)
    );
}

#[test]
fn parse_itype_two_reg_and_immediate() {
    assert_eq!(
        parse_line("bne $v0, $a0, 2").unwrap(),
        IRInstruction::IType(IType::BNE, Register::V0, Register::A0, 2)
    );
    assert_eq!(
        parse_line("beq $v0, $a0, 2").unwrap(),
        IRInstruction::IType(IType::BEQ, Register::V0, Register::A0, 2)
    );
    assert_eq!(
        parse_line("addi $v0, $a0, 2").unwrap(),
        IRInstruction::IType(IType::AddI, Register::V0, Register::A0, 2)
    );
    assert_eq!(
        parse_line("addi $v0, $a0, -2").unwrap(),
        IRInstruction::IType(IType::AddI, Register::V0, Register::A0, -2)
    );
}

#[test]
fn parse_itype_jump() {
    assert_eq!(
        parse_line("jmpi 2($v0)").unwrap(),
        IRInstruction::IType(IType::JmpI, Register::V0, Register::Unused, 2)
    );
    assert_eq!(
        parse_line("jmpi 0xA($v0)").unwrap(),
        IRInstruction::IType(IType::JmpI, Register::V0, Register::Unused, 10)
    );
    assert_eq!(
        parse_line("jali 2($v0)").unwrap(),
        IRInstruction::IType(IType::JalI, Register::V0, Register::Unused, 2)
    );
    assert_eq!(
        parse_line("jali 0xA($v0)").unwrap(),
        IRInstruction::IType(IType::JalI, Register::V0, Register::Unused, 10)
    );
}

#[test]
fn parse_itype_one_reg_and_immediate() {
    assert_eq!(
        parse_line("lli $v0, 2").unwrap(),
        IRInstruction::IType(IType::LLI, Register::V0, Register::Unused, 2)
    );
    assert_eq!(
        parse_line("lli $v0, 0xA").unwrap(),
        IRInstruction::IType(IType::LLI, Register::V0, Register::Unused, 10)
    );
    assert_eq!(
        parse_line("lui $v0, 2").unwrap(),
        IRInstruction::IType(IType::LUI, Register::V0, Register::Unused, 2)
    );
    assert_eq!(
        parse_line("lui $v0, 0xA").unwrap(),
        IRInstruction::IType(IType::LUI, Register::V0, Register::Unused, 10)
    );
}

#[test]
fn parse_pseudo_instr() {
    assert_eq!(
        parse_line("li $v0, 0x100").unwrap(),
        IRInstruction::Pseudo(Pseudo::LI(Register::V0, 256))
    );
    assert_eq!(
        parse_line("li $v0, -256").unwrap(),
        IRInstruction::Pseudo(Pseudo::LI(Register::V0, -256))
    );
}
