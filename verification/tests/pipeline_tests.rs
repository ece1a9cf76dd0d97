use assembler::encoder::assemble;
use assembler::encoder::instr_to_int;
use assembler::encoder::instr_to_mif;
use assembler::error::AsmError;
use assembler::ir::Directive;
use assembler::ir::IRInstruction;
use assembler::ir::IType;
use assembler::ir::JType;
use assembler::ir::RType;
use assembler::ir::Register;
use assembler::ir::high_byte_of;
use assembler::ir::is_encodable;
use assembler::ir::low_byte_of;
use assembler::parser::parse_line;
use assembler::passes::to_ir1;
use assembler::passes::to_ir2;
use assembler::render::i8_to_dec;
use assembler::render::u16_to_dec;
use assembler::render::u16_to_hex;

const HEADER: &str = "DEPTH = 16384;                -- The size of memory in words\nWIDTH = 16;                   -- The size of data in bits\nADDRESS_RADIX = HEX;          -- The radix for address values\nDATA_RADIX = BIN;             -- The radix for data values\nCONTENT                       -- start of (address : data pairs)\nBEGIN\n";

#[test]
fn jmp_decimal_and_hex_agree() {
    assert_eq!(parse_line("jmp 1").unwrap(), parse_line("jmp 0x1").unwrap());
    assert_eq!(
        parse_line("jmp abc").unwrap(),
        IRInstruction::JTypeLabel(JType::Jmp, String::from("abc"))
    );
}

#[test]
fn li_expands_to_low_then_high_byte() {
    let (instrs, table) = to_ir1(String::from("li $v0, 0x100\n")).unwrap();
    let out = to_ir2(instrs, table).unwrap();
    assert_eq!(out.len(), 2);
    assert_eq!(out[0].0, 0);
    assert_eq!(out[0].1, IRInstruction::IType(IType::LLI, Register::V0, Register::Unused, 0));
    assert_eq!(out[1].0, 1);
    assert_eq!(out[1].1, IRInstruction::IType(IType::LUI, Register::V0, Register::Unused, 1));
}

#[test]
fn li_negative_splits_two_complement_bytes() {
    let (instrs, table) = to_ir1(String::from("li $v0, -256\n")).unwrap();
    let out = to_ir2(instrs, table).unwrap();
    assert_eq!(out.len(), 2);
    assert_eq!(out[0].1, IRInstruction::IType(IType::LLI, Register::V0, Register::Unused, 0));
    assert_eq!(out[1].1, IRInstruction::IType(IType::LUI, Register::V0, Register::Unused, -1));
}

#[test]
fn byte_split_helpers() {
    assert_eq!(low_byte_of(0x0100), 0);
    assert_eq!(high_byte_of(0x0100), 1);
    assert_eq!(low_byte_of(-256), 0);
    assert_eq!(high_byte_of(-256), -1);
    assert_eq!(low_byte_of(-1), -1);
    assert_eq!(high_byte_of(-1), -1);
    assert_eq!(low_byte_of(i16::MIN), 0);
    assert_eq!(high_byte_of(i16::MIN), -128);
}

#[test]
fn assemble_single_add_line() {
    let out = assemble(String::from("add $v0, $a0, $a1\n")).unwrap();
    let expected = format!("{}0 : 528; -- add, $v0, $a0, $a1\nEND;\n", HEADER);
    assert_eq!(out, expected);
}

#[test]
fn org_places_following_instruction() {
    let out = assemble(String::from(".org 0x10\nadd $v0, $a0, $a1\n")).unwrap();
    let expected = format!("{}10 : 528; -- add, $v0, $a0, $a1\nEND;\n", HEADER);
    assert_eq!(out, expected);
}

#[test]
fn space_advances_address_without_data() {
    let out = assemble(String::from(".space 2\nadd $v0, $a0, $a1\n")).unwrap();
    let expected = format!("{}2 : 528; -- add, $v0, $a0, $a1\nEND;\n", HEADER);
    assert_eq!(out, expected);
}

#[test]
fn blank_line_consumes_one_address_unit() {
    let out = assemble(String::from("\nadd $v0, $a0, $a1\n")).unwrap();
    let expected = format!("{}1 : 528; -- add, $v0, $a0, $a1\nEND;\n", HEADER);
    assert_eq!(out, expected);
}

#[test]
fn label_jump_resolves_to_address_after_label() {
    let out = assemble(String::from("abc:\njmp abc\n")).unwrap();
    let expected = format!("{}1 : 1001; -- jmp, 1\nEND;\n", HEADER);
    assert_eq!(out, expected);
}

#[test]
fn asciiz_emits_one_byte_per_character() {
    let out = assemble(String::from(".asciiz \"ab\"\n")).unwrap();
    let expected = format!("{}0 :  61 62; -- .asciiz ab\nEND;\n", HEADER);
    assert_eq!(out, expected);
}

#[test]
fn undefined_label_aborts_assembly() {
    let r = assemble(String::from("jmp nowhere\n"));
    match r {
        Err(AsmError::UndefinedLabel(name)) => assert_eq!(name, "nowhere"),
        _ => panic!("expected an undefined-label error"),
    }
}

#[test]
fn unknown_instruction_is_an_error() {
    let r = assemble(String::from("frob $v0\n"));
    match r {
        Err(AsmError::UnknownInstruction(m)) => assert_eq!(m, "frob"),
        _ => panic!("expected an unknown-instruction error"),
    }
}

#[test]
fn unknown_register_is_an_error() {
    let r = assemble(String::from("add $v9, $a0, $a1\n"));
    match r {
        Err(AsmError::UnknownRegister(t)) => assert_eq!(t, "$v9"),
        _ => panic!("expected an unknown-register error"),
    }
}

#[test]
fn unknown_directive_is_an_error() {
    let r = assemble(String::from(".foo 1\n"));
    match r {
        Err(AsmError::UnknownDirective(k)) => assert_eq!(k, "foo"),
        _ => panic!("expected an unknown-directive error"),
    }
}

#[test]
fn bad_number_is_an_error() {
    let r = assemble(String::from(".word zz\n"));
    match r {
        Err(AsmError::BadNumber(t)) => assert_eq!(t, "zz"),
        _ => panic!("expected a bad-number error"),
    }
    assert!(matches!(assemble(String::from("li $v0, 32768\n")), Err(AsmError::BadNumber(_))));
}

#[test]
fn missing_operand_is_an_error() {
    assert!(matches!(assemble(String::from("add $v0, $a0\n")), Err(AsmError::MissingOperand)));
}

#[test]
fn malformed_paren_operand_is_an_error() {
    let r = assemble(String::from("lw $v0, 2\n"));
    match r {
        Err(AsmError::MalformedOperand(t)) => assert_eq!(t, "2"),
        _ => panic!("expected a malformed-operand error"),
    }
}

#[test]
fn unquoted_asciiz_is_an_error() {
    assert!(matches!(assemble(String::from(".asciiz abc\n")), Err(AsmError::BadAsciiz(_))));
}

#[test]
fn duplicate_label_takes_last_definition() {
    let (_, table) = to_ir1(String::from("x:\nx:\njmp x\n")).unwrap();
    assert_eq!(table.lookup("x"), Some(1));
    assert_eq!(table.lookup("y"), None);
}

#[test]
fn rtype_encoding_matches_documented_fields() {
    let add = IRInstruction::RType(RType::Add, Register::V0, Register::A0, Register::A1);
    assert_eq!(instr_to_int(&add), (2 << 9) + (4 << 6) + (5 << 3));
    assert_eq!(instr_to_int(&add), 1320);
    let sra = IRInstruction::RType(RType::SRA, Register::Ra, Register::Ra, Register::Ra);
    assert_eq!(instr_to_int(&sra), (7 << 9) + (7 << 6) + (7 << 3) + 7);
}

#[test]
fn itype_encoding_keeps_low_six_immediate_bits() {
    let i = IRInstruction::IType(IType::LLI, Register::V0, Register::Unused, -1);
    assert_eq!(instr_to_int(&i), 10 * 4096 + 2 * 512 + 63);
    let j = IRInstruction::IType(IType::AddI, Register::V0, Register::A0, 2);
    assert_eq!(instr_to_int(&j), 7 * 4096 + 2 * 512 + 4 * 64 + 2);
}

#[test]
fn jump_encoding_wraps_to_sixteen_bits() {
    let j = IRInstruction::JTypeAddr(JType::Jal, 0xFFFF);
    assert_eq!(instr_to_int(&j), 0x1FFF);
    let k = IRInstruction::JTypeAddr(JType::Jmp, 1);
    assert_eq!(instr_to_int(&k), 0x1001);
}

#[test]
fn byte_directive_truncates_to_eight_bits() {
    assert_eq!(parse_line(".byte 300").unwrap(), IRInstruction::Directive(Directive::Byte(44)));
    assert_eq!(parse_line(".byte 0xFF").unwrap(), IRInstruction::Directive(Directive::Byte(255)));
}

#[test]
fn memory_offset_truncates_to_signed_byte() {
    assert_eq!(
        parse_line("lw $v0, 300($a0)").unwrap(),
        IRInstruction::IType(IType::LW, Register::V0, Register::A0, 44)
    );
}

#[test]
fn listing_line_for_one_instruction() {
    let add = IRInstruction::RType(RType::Add, Register::V0, Register::A0, Register::A1);
    assert!(is_encodable(&add));
    assert_eq!(instr_to_mif(&0, &add), "0 : 528; -- add, $v0, $a0, $a1");
    let w = IRInstruction::Directive(Directive::Word(0x2A));
    assert_eq!(instr_to_mif(&3, &w), "3 : 2A; -- .word 42");
    assert!(!is_encodable(&IRInstruction::BlankLine));
    assert!(!is_encodable(&IRInstruction::Label(String::from("abc"))));
}

#[test]
fn number_rendering() {
    assert_eq!(u16_to_hex(1320), "528");
    assert_eq!(u16_to_hex(0), "0");
    assert_eq!(u16_to_hex(0xFFFF), "FFFF");
    assert_eq!(u16_to_dec(65535), "65535");
    assert_eq!(i8_to_dec(-1), "-1");
    assert_eq!(i8_to_dec(127), "127");
}

#[test]
fn signed_sixteen_bit_bounds() {
    assert_eq!(
        parse_line("li $v0, -32768").unwrap(),
        IRInstruction::Pseudo(assembler::ir::Pseudo::LI(Register::V0, -32768))
    );
    assert_eq!(
        parse_line("li $v0, 0x7FFF").unwrap(),
        IRInstruction::Pseudo(assembler::ir::Pseudo::LI(Register::V0, 32767))
    );
}

#[test]
fn source_without_trailing_newline_assembles_alike() {
    let a = assemble(String::from("add $v0, $a0, $a1")).unwrap();
    let b = assemble(String::from("add $v0, $a0, $a1\n")).unwrap();
    assert_eq!(a, b);
}
