//! The line parser: one line of source text becomes exactly one
//! [`IRInstruction`].
//!
//! A line is first stripped of its comment and split into tokens. No token
//! means a blank line; a first token holding `:` declares a label; a first
//! token holding `.` names a directive; anything else is an instruction
//! mnemonic followed by its operands, parsed by the shape of the mnemonic.

use vstd::prelude::*;

use crate::error::AsmError;
use crate::error::ErrView;
use crate::error::result_view_is;
use crate::ir::Directive;
use crate::ir::DirectiveView;
use crate::ir::IRInstruction;
use crate::ir::IType;
use crate::ir::IrView;
use crate::ir::JType;
use crate::ir::Pseudo;
use crate::ir::RType;
use crate::ir::Register;
use crate::text::all_dec_digits;
use crate::text::before_hash;
use crate::text::is_space;
use crate::text::lemma_tokens_all_space;
use crate::text::all_dec_digits_str;
use crate::text::find_char;
use crate::text::has_hex_prefix;
use crate::text::has_hex_prefix_str;
use crate::text::lemma_find_char;
use crate::text::line_tokens;
use crate::text::parse_num;
use crate::text::parse_num_unsigned;
use crate::text::spec_find;
use crate::text::spec_line_tokens;
use crate::text::spec_parse_num;
use crate::text::spec_parse_num_unsigned;
use crate::text::spec_parse_unsigned;
use crate::text::str_eq;
use crate::text::strip_commas;
use crate::text::strip_commas_str;

verus! {

impl View for Pseudo {
    type V = Pseudo;

    open spec fn view(&self) -> Pseudo {
        *self
    }
}

/// The register a token names, commas already stripped.
pub open spec fn spec_parse_register(tok: Seq<char>) -> Option<Register> {
    if tok == "$0"@ {
        Some(Register::Zero)
    } else if tok == "$at"@ {
        Some(Register::At)
    } else if tok == "$v0"@ {
        Some(Register::V0)
    } else if tok == "$v1"@ {
        Some(Register::V1)
    } else if tok == "$a0"@ {
        Some(Register::A0)
    } else if tok == "$a1"@ {
        Some(Register::A1)
    } else if tok == "$sp"@ {
        Some(Register::Sp)
    } else if tok == "$ra"@ {
        Some(Register::Ra)
    } else {
        Option::<Register>::None
    }
}

/// The register-triad operation a mnemonic names, if any.
pub open spec fn spec_rtype_of(m: Seq<char>) -> Option<RType> {
    if m == "add"@ {
        Some(RType::Add)
    } else if m == "sub"@ {
        Some(RType::Sub)
    } else if m == "and"@ {
        Some(RType::And)
    } else if m == "or"@ {
        Some(RType::Or)
    } else if m == "nor"@ {
        Some(RType::Nor)
    } else if m == "sll"@ {
        Some(RType::SLL)
    } else if m == "srl"@ {
        Some(RType::SRL)
    } else if m == "sra"@ {
        Some(RType::SRA)
    } else {
        Option::<RType>::None
    }
}

/// The jump operation a mnemonic names, if any.
pub open spec fn spec_jtype_of(m: Seq<char>) -> Option<JType> {
    if m == "jmp"@ {
        Some(JType::Jmp)
    } else if m == "jal"@ {
        Some(JType::Jal)
    } else {
        Option::<JType>::None
    }
}

/// The immediate operation a mnemonic names, if any.
pub open spec fn spec_itype_of(m: Seq<char>) -> Option<IType> {
    if m == "lw"@ {
        Some(IType::LW)
    } else if m == "sw"@ {
        Some(IType::SW)
    } else if m == "beq"@ {
        Some(IType::BEQ)
    } else if m == "bne"@ {
        Some(IType::BNE)
    } else if m == "addi"@ {
        Some(IType::AddI)
    } else if m == "jmpi"@ {
        Some(IType::JmpI)
    } else if m == "jali"@ {
        Some(IType::JalI)
    } else if m == "lli"@ {
        Some(IType::LLI)
    } else if m == "lui"@ {
        Some(IType::LUI)
    } else {
        Option::<IType>::None
    }
}

/// The tokens rejoined with single spaces: how an `asciiz` argument is
/// reassembled.
pub open spec fn spec_join_spaces(parts: Seq<Seq<char>>) -> Seq<char>
    decreases parts.len(),
{
    if parts.len() == 0 {
        Seq::<char>::empty()
    } else if parts.len() == 1 {
        parts[0]
    } else {
        spec_join_spaces(parts.drop_last()) + seq![' '] + parts.last()
    }
}

/// A signed 16-bit value truncated to its low 8 bits, read as signed.
pub open spec fn trunc8(v: i16) -> i8 {
    crate::ir::low_byte(v)
}

/// The parse of a directive, given its keyword and the operand tokens.
pub open spec fn spec_parse_directive(kw: Seq<char>, args: Seq<Seq<char>>) -> Result<
    DirectiveView,
    ErrView,
> {
    if kw == "space"@ {
        if args.len() < 1 {
            Err(ErrView::MissingOperand)
        } else {
            match spec_parse_num_unsigned(args[0]) {
                Some(v) => Ok(DirectiveView::Space(v)),
                Option::<u16>::None => Err(ErrView::BadNumber(args[0])),
            }
        }
    } else if kw == "word"@ {
        if args.len() < 1 {
            Err(ErrView::MissingOperand)
        } else {
            match spec_parse_num_unsigned(args[0]) {
                Some(v) => Ok(DirectiveView::Word(v)),
                Option::<u16>::None => Err(ErrView::BadNumber(args[0])),
            }
        }
    } else if kw == "byte"@ {
        if args.len() < 1 {
            Err(ErrView::MissingOperand)
        } else {
            match spec_parse_num_unsigned(args[0]) {
                Some(v) => Ok(DirectiveView::Byte((v % 256) as u8)),
                Option::<u16>::None => Err(ErrView::BadNumber(args[0])),
            }
        }
    } else if kw == "asciiz"@ {
        let joined = spec_join_spaces(args);
        if joined.len() >= 2 && joined[0] == '"' && joined.last() == '"' {
            Ok(DirectiveView::Asciiz(joined.subrange(1, joined.len() - 1)))
        } else {
            Err(ErrView::BadAsciiz(joined))
        }
    } else if kw == "org"@ {
        if args.len() < 1 {
            Err(ErrView::MissingOperand)
        } else {
            match spec_parse_num_unsigned(args[0]) {
                Some(v) => Ok(DirectiveView::Org(v)),
                Option::<u16>::None => Err(ErrView::BadNumber(args[0])),
            }
        }
    } else {
        Err(ErrView::UnknownDirective(kw))
    }
}

/// The parse of a register-triad statement: three register operands, the
/// first two tolerating trailing commas.
pub open spec fn spec_rtype_case(rt: RType, args: Seq<Seq<char>>) -> Result<IrView, ErrView> {
    if args.len() < 3 {
        Err(ErrView::MissingOperand)
    } else {
        let t1 = strip_commas(args[0]);
        let t2 = strip_commas(args[1]);
        let t3 = args[2];
        match spec_parse_register(t1) {
            Option::<Register>::None => Err(ErrView::UnknownRegister(t1)),
            Some(r1) => match spec_parse_register(t2) {
                Option::<Register>::None => Err(ErrView::UnknownRegister(t2)),
                Some(r2) => match spec_parse_register(t3) {
                    Option::<Register>::None => Err(ErrView::UnknownRegister(t3)),
                    Some(r3) => Ok(IrView::RType(rt, r1, r2, r3)),
                },
            },
        }
    }
}

/// The parse of a jump statement: the operand is a hex address after a
/// `0x` prefix, a decimal address when all digits, and a label otherwise.
pub open spec fn spec_jtype_case(jt: JType, args: Seq<Seq<char>>) -> Result<IrView, ErrView> {
    if args.len() < 1 {
        Err(ErrView::MissingOperand)
    } else {
        let tok = args[0];
        if has_hex_prefix(tok) {
            match spec_parse_num_unsigned(tok) {
                Some(a) => Ok(IrView::JTypeAddr(jt, a)),
                Option::<u16>::None => Err(ErrView::BadNumber(tok)),
            }
        } else if all_dec_digits(tok) {
            match spec_parse_unsigned(tok, 10) {
                Some(a) => Ok(IrView::JTypeAddr(jt, a)),
                Option::<u16>::None => Err(ErrView::BadNumber(tok)),
            }
        } else {
            Ok(IrView::JTypeLabel(jt, tok))
        }
    }
}

/// The parse of a memory statement `REG, IMM(REG)`.
pub open spec fn spec_mem_case(it: IType, args: Seq<Seq<char>>) -> Result<IrView, ErrView> {
    if args.len() < 2 {
        Err(ErrView::MissingOperand)
    } else {
        let pair = args[1];
        match spec_find(pair, '(') {
            Option::<int>::None => Err(ErrView::MalformedOperand(pair)),
            Some(p) => {
                let im_txt = pair.take(p);
                let reg_txt = pair.skip(p + 1);
                match spec_parse_num(im_txt) {
                    Option::<i16>::None => Err(ErrView::BadNumber(im_txt)),
                    Some(v) => {
                        if reg_txt.len() == 0 || reg_txt.last() != ')' {
                            Err(ErrView::MalformedOperand(pair))
                        } else {
                            let rtok = reg_txt.drop_last();
                            let t1 = strip_commas(args[0]);
                            match spec_parse_register(t1) {
                                Option::<Register>::None => Err(ErrView::UnknownRegister(t1)),
                                Some(r1) => match spec_parse_register(rtok) {
                                    Option::<Register>::None => Err(
                                        ErrView::UnknownRegister(rtok),
                                    ),
                                    Some(r2) => Ok(IrView::IType(it, r1, r2, trunc8(v))),
                                },
                            }
                        }
                    },
                }
            },
        }
    }
}

/// The parse of a branch or arithmetic-immediate statement `REG, REG, IMM`.
pub open spec fn spec_branch_case(it: IType, args: Seq<Seq<char>>) -> Result<IrView, ErrView> {
    if args.len() < 3 {
        Err(ErrView::MissingOperand)
    } else {
        let t1 = strip_commas(args[0]);
        let t2 = strip_commas(args[1]);
        match spec_parse_register(t1) {
            Option::<Register>::None => Err(ErrView::UnknownRegister(t1)),
            Some(r1) => match spec_parse_register(t2) {
                Option::<Register>::None => Err(ErrView::UnknownRegister(t2)),
                Some(r2) => match spec_parse_num(args[2]) {
                    Option::<i16>::None => Err(ErrView::BadNumber(args[2])),
                    Some(v) => Ok(IrView::IType(it, r1, r2, trunc8(v))),
                },
            },
        }
    }
}

/// The parse of an indirect jump `IMM(REG)`: the second register slot is
/// the unused sentinel.
pub open spec fn spec_ijump_case(it: IType, args: Seq<Seq<char>>) -> Result<IrView, ErrView> {
    if args.len() < 1 {
        Err(ErrView::MissingOperand)
    } else {
        let pair = args[0];
        match spec_find(pair, '(') {
            Option::<int>::None => Err(ErrView::MalformedOperand(pair)),
            Some(p) => {
                let im_txt = pair.take(p);
                let reg_txt = pair.skip(p + 1);
                match spec_parse_num(im_txt) {
                    Option::<i16>::None => Err(ErrView::BadNumber(im_txt)),
                    Some(v) => {
                        if reg_txt.len() == 0 || reg_txt.last() != ')' {
                            Err(ErrView::MalformedOperand(pair))
                        } else {
                            let rtok = reg_txt.drop_last();
                            match spec_parse_register(rtok) {
                                Option::<Register>::None => Err(ErrView::UnknownRegister(rtok)),
                                Some(r1) => Ok(
                                    IrView::IType(it, r1, Register::Unused, trunc8(v)),
                                ),
                            }
                        }
                    },
                }
            },
        }
    }
}

/// The parse of a load-immediate-byte statement `REG, IMM`.
pub open spec fn spec_limm_case(it: IType, args: Seq<Seq<char>>) -> Result<IrView, ErrView> {
    if args.len() < 2 {
        Err(ErrView::MissingOperand)
    } else {
        let t1 = strip_commas(args[0]);
        match spec_parse_register(t1) {
            Option::<Register>::None => Err(ErrView::UnknownRegister(t1)),
            Some(r1) => match spec_parse_num(args[1]) {
                Option::<i16>::None => Err(ErrView::BadNumber(args[1])),
                Some(v) => Ok(IrView::IType(it, r1, Register::Unused, trunc8(v))),
            },
        }
    }
}

/// The parse of a pseudo-instruction statement: `li REG, IMM16`.
pub open spec fn spec_parse_pseudo(m: Seq<char>, args: Seq<Seq<char>>) -> Result<Pseudo, ErrView> {
    if m == "li"@ {
        if args.len() < 2 {
            Err(ErrView::MissingOperand)
        } else {
            let t1 = strip_commas(args[0]);
            match spec_parse_register(t1) {
                Option::<Register>::None => Err(ErrView::UnknownRegister(t1)),
                Some(r1) => match spec_parse_num(args[1]) {
                    Option::<i16>::None => Err(ErrView::BadNumber(args[1])),
                    Some(v) => Ok(Pseudo::LI(r1, v)),
                },
            }
        }
    } else {
        Err(ErrView::UnknownInstruction(m))
    }
}

/// The parse of an instruction statement, dispatched on the mnemonic.
pub open spec fn spec_parse_instruction(m: Seq<char>, args: Seq<Seq<char>>) -> Result<
    IrView,
    ErrView,
> {
    match spec_rtype_of(m) {
        Some(rt) => spec_rtype_case(rt, args),
        Option::<RType>::None => match spec_jtype_of(m) {
            Some(jt) => spec_jtype_case(jt, args),
            Option::<JType>::None => match spec_itype_of(m) {
                Some(it) => match it {
                    IType::LW | IType::SW => spec_mem_case(it, args),
                    IType::BEQ | IType::BNE | IType::AddI => spec_branch_case(it, args),
                    IType::JmpI | IType::JalI => spec_ijump_case(it, args),
                    IType::LLI | IType::LUI => spec_limm_case(it, args),
                },
                Option::<IType>::None => match spec_parse_pseudo(m, args) {
                    Ok(p) => Ok(IrView::Pseudo(p)),
                    Err(e) => Err(e),
                },
            },
        },
    }
}

/// The parse of one full source line.
pub open spec fn spec_parse_line(line: Seq<char>) -> Result<IrView, ErrView> {
    let toks = spec_line_tokens(line);
    if toks.len() == 0 {
        Ok(IrView::BlankLine)
    } else {
        match spec_find(toks[0], ':') {
            Some(k) => Ok(IrView::Label(toks[0].take(k))),
            Option::<int>::None => match spec_find(toks[0], '.') {
                Some(d) => match spec_parse_directive(toks[0].skip(d + 1), toks.drop_first()) {
                    Ok(dv) => Ok(IrView::Directive(dv)),
                    Err(e) => Err(e),
                },
                Option::<int>::None => spec_parse_instruction(toks[0], toks.drop_first()),
            },
        }
    }
}

/// A blank or comment-only line parses to the blank-line form: when
/// everything a comment leaves of the line is whitespace, no token
/// survives and the parser yields [`IrView::BlankLine`].
pub proof fn lemma_blank_line(line: Seq<char>)
    requires
        forall|i: int|
            0 <= i < before_hash(line).len() ==> is_space(#[trigger] before_hash(line)[i]),
    ensures
        spec_parse_line(line) == Ok::<IrView, ErrView>(IrView::BlankLine),
{
    lemma_tokens_all_space(before_hash(line));
}

/// A line whose first token holds a colon declares a label: the name is
/// the token's text before its first colon, and everything after the
/// first token — further tokens, whitespace, the comment — is discarded.
pub proof fn lemma_label_line(line: Seq<char>)
    requires
        spec_line_tokens(line).len() > 0,
        spec_find(spec_line_tokens(line)[0], ':') is Some,
    ensures
        spec_parse_line(line) == Ok::<IrView, ErrView>(
            IrView::Label(
                spec_line_tokens(line)[0].take(spec_find(spec_line_tokens(line)[0], ':').unwrap()),
            ),
        ),
{
}

/// Looks a register name up.
pub fn parse_register(register: &str) -> (r: Result<Register, AsmError>)
    ensures
        match r {
            Ok(reg) => spec_parse_register(register@) == Some(reg),
            Err(e) => spec_parse_register(register@) is None && e@ == ErrView::UnknownRegister(
                register@,
            ),
        },
{
    if str_eq(register, "$0") {
        Ok(Register::Zero)
    } else if str_eq(register, "$at") {
        Ok(Register::At)
    } else if str_eq(register, "$v0") {
        Ok(Register::V0)
    } else if str_eq(register, "$v1") {
        Ok(Register::V1)
    } else if str_eq(register, "$a0") {
        Ok(Register::A0)
    } else if str_eq(register, "$a1") {
        Ok(Register::A1)
    } else if str_eq(register, "$sp") {
        Ok(Register::Sp)
    } else if str_eq(register, "$ra") {
        Ok(Register::Ra)
    } else {
        Err(AsmError::UnknownRegister(register.to_owned()))
    }
}

/// Looks a register-triad mnemonic up.
pub fn parse_rtype(instruction: &str) -> (r: Option<RType>)
    ensures
        r == spec_rtype_of(instruction@),
{
    if str_eq(instruction, "add") {
        Some(RType::Add)
    } else if str_eq(instruction, "sub") {
        Some(RType::Sub)
    } else if str_eq(instruction, "and") {
        Some(RType::And)
    } else if str_eq(instruction, "or") {
        Some(RType::Or)
    } else if str_eq(instruction, "nor") {
        Some(RType::Nor)
    } else if str_eq(instruction, "sll") {
        Some(RType::SLL)
    } else if str_eq(instruction, "srl") {
        Some(RType::SRL)
    } else if str_eq(instruction, "sra") {
        Some(RType::SRA)
    } else {
        None
    }
}

/// Looks a jump mnemonic up.
pub fn parse_jtype(instruction: &str) -> (r: Option<JType>)
    ensures
        r == spec_jtype_of(instruction@),
{
    if str_eq(instruction, "jmp") {
        Some(JType::Jmp)
    } else if str_eq(instruction, "jal") {
        Some(JType::Jal)
    } else {
        None
    }
}

/// Looks an immediate-operation mnemonic up.
pub fn parse_itype(instruction: &str) -> (r: Option<IType>)
    ensures
        r == spec_itype_of(instruction@),
{
    if str_eq(instruction, "lw") {
        Some(IType::LW)
    } else if str_eq(instruction, "sw") {
        Some(IType::SW)
    } else if str_eq(instruction, "beq") {
        Some(IType::BEQ)
    } else if str_eq(instruction, "bne") {
        Some(IType::BNE)
    } else if str_eq(instruction, "addi") {
        Some(IType::AddI)
    } else if str_eq(instruction, "jmpi") {
        Some(IType::JmpI)
    } else if str_eq(instruction, "jali") {
        Some(IType::JalI)
    } else if str_eq(instruction, "lli") {
        Some(IType::LLI)
    } else if str_eq(instruction, "lui") {
        Some(IType::LUI)
    } else {
        None
    }
}

/// Rejoins operand tokens with single spaces.
fn join_spaces(args: &Vec<String>) -> (r: String)
    ensures
        r@ == spec_join_spaces(args.deep_view()),
{
    let n = args.len();
    let mut s = String::new();
    let mut i: usize = 0;
    while i < n
        invariant
            0 <= i <= n,
            n == args@.len(),
            s@ == spec_join_spaces(args.deep_view().take(i as int)),
        decreases n - i,
    {
        let ghost pre = args.deep_view().take(i as int);
        proof {
            assert(args.deep_view().take(i + 1).drop_last() =~= pre);
            assert(args.deep_view().take(i + 1).last() == args.deep_view()[i as int]);
        }
        if i > 0 {
            s.append(" ");
            proof {
                reveal_strlit(" ");
                assert(" "@ =~= seq![' ']);
            }
        }
        s.append(args[i].as_str());
        i += 1;
    }
    proof {
        assert(args.deep_view().take(n as int) =~= args.deep_view());
    }
    s
}

/// Truncates a signed 16-bit value to its low byte, read as signed.
fn trunc_to_i8(v: i16) -> (r: i8)
    ensures
        r == trunc8(v),
{
    crate::ir::low_byte_of(v)
}

/// Parses a directive, given its keyword (the text after the dot) and the
/// operand tokens that followed.
pub fn parse_directive(directive: &str, args: &Vec<String>) -> (r: Result<Directive, AsmError>)
    ensures
        result_view_is(r, spec_parse_directive(directive@, args.deep_view())),
{
    if str_eq(directive, "space") {
        if args.len() < 1 {
            return Err(AsmError::MissingOperand);
        }
        match parse_num_unsigned(args[0].as_str()) {
            Ok(v) => Ok(Directive::Space(v)),
            Err(e) => Err(e),
        }
    } else if str_eq(directive, "word") {
        if args.len() < 1 {
            return Err(AsmError::MissingOperand);
        }
        match parse_num_unsigned(args[0].as_str()) {
            Ok(v) => Ok(Directive::Word(v)),
            Err(e) => Err(e),
        }
    } else if str_eq(directive, "byte") {
        if args.len() < 1 {
            return Err(AsmError::MissingOperand);
        }
        match parse_num_unsigned(args[0].as_str()) {
            Ok(v) => Ok(Directive::Byte((v % 256) as u8)),
            Err(e) => Err(e),
        }
    } else if str_eq(directive, "asciiz") {
        let joined = join_spaces(args);
        let n = joined.as_str().unicode_len();
        if n >= 2 && joined.as_str().get_char(0) == '"' && joined.as_str().get_char(n - 1) == '"' {
            let inner = joined.as_str().substring_char(1, n - 1).to_owned();
            proof {
                assert(inner@ =~= joined@.subrange(1, joined@.len() - 1));
            }
            Ok(Directive::Asciiz(inner))
        } else {
            Err(AsmError::BadAsciiz(joined))
        }
    } else if str_eq(directive, "org") {
        if args.len() < 1 {
            return Err(AsmError::MissingOperand);
        }
        match parse_num_unsigned(args[0].as_str()) {
            Ok(v) => Ok(Directive::Org(v)),
            Err(e) => Err(e),
        }
    } else {
        Err(AsmError::UnknownDirective(directive.to_owned()))
    }
}

fn rtype_case(rt: RType, args: &Vec<String>) -> (r: Result<IRInstruction, AsmError>)
    ensures
        result_view_is(r, spec_rtype_case(rt, args.deep_view())),
{
    if args.len() < 3 {
        return Err(AsmError::MissingOperand);
    }
    let t1 = strip_commas_str(args[0].as_str());
    let r1 = match parse_register(t1) {
        Ok(reg) => reg,
        Err(e) => {
            return Err(e);
        },
    };
    let t2 = strip_commas_str(args[1].as_str());
    let r2 = match parse_register(t2) {
        Ok(reg) => reg,
        Err(e) => {
            return Err(e);
        },
    };
    let r3 = match parse_register(args[2].as_str()) {
        Ok(reg) => reg,
        Err(e) => {
            return Err(e);
        },
    };
    Ok(IRInstruction::RType(rt, r1, r2, r3))
}

fn jtype_case(jt: JType, args: &Vec<String>) -> (r: Result<IRInstruction, AsmError>)
    ensures
        result_view_is(r, spec_jtype_case(jt, args.deep_view())),
{
    if args.len() < 1 {
        return Err(AsmError::MissingOperand);
    }
    let tok = args[0].as_str();
    if has_hex_prefix_str(tok) {
        match parse_num_unsigned(tok) {
            Ok(a) => Ok(IRInstruction::JTypeAddr(jt, a)),
            Err(e) => Err(e),
        }
    } else if all_dec_digits_str(tok) {
        match parse_num_unsigned(tok) {
            Ok(a) => Ok(IRInstruction::JTypeAddr(jt, a)),
            Err(e) => Err(e),
        }
    } else {
        Ok(IRInstruction::JTypeLabel(jt, args[0].clone()))
    }
}

/// Splits an `IMM(REG)` operand at its first parenthesis, checks the
/// closing one, and parses the immediate; hands back the immediate and the
/// register token between the parentheses.
fn split_paren_operand(pair: &str) -> (r: Result<(i16, String), AsmError>)
    ensures
        match r {
            Ok((v, rtok)) => {
                &&& spec_find(pair@, '(') matches Some(p)
                &&& spec_parse_num(pair@.take(spec_find(pair@, '(').unwrap())) == Some(v)
                &&& {
                    let reg_txt = pair@.skip(spec_find(pair@, '(').unwrap() + 1);
                    reg_txt.len() > 0 && reg_txt.last() == ')' && rtok@ == reg_txt.drop_last()
                }
            },
            Err(e) => match spec_find(pair@, '(') {
                Option::<int>::None => e@ == ErrView::MalformedOperand(pair@),
                Some(p) => {
                    let im_txt = pair@.take(p);
                    let reg_txt = pair@.skip(p + 1);
                    match spec_parse_num(im_txt) {
                        Option::<i16>::None => e@ == ErrView::BadNumber(im_txt),
                        Some(_) => (reg_txt.len() == 0 || reg_txt.last() != ')') && e@
                            == ErrView::MalformedOperand(pair@),
                    }
                },
            },
        },
{
    let p = match find_char(pair, '(') {
        Some(p) => p,
        Option::<usize>::None => {
            return Err(AsmError::MalformedOperand(pair.to_owned()));
        },
    };
    proof {
        lemma_find_char(pair@, '(');
    }
    let im_txt = pair.substring_char(0, p);
    proof {
        assert(im_txt@ =~= pair@.take(p as int));
    }
    let v = match parse_num(im_txt) {
        Ok(v) => v,
        Err(e) => {
            return Err(e);
        },
    };
    let n = pair.unicode_len();
    let reg_all = pair.substring_char(p + 1, n);
    proof {
        assert(reg_all@ =~= pair@.skip(p + 1));
    }
    let rn = reg_all.unicode_len();
    if rn == 0 || reg_all.get_char(rn - 1) != ')' {
        return Err(AsmError::MalformedOperand(pair.to_owned()));
    }
    let rtok = reg_all.substring_char(0, rn - 1).to_owned();
    proof {
        assert(rtok@ =~= reg_all@.drop_last());
    }
    Ok((v, rtok))
}

fn mem_case(it: IType, args: &Vec<String>) -> (r: Result<IRInstruction, AsmError>)
    ensures
        result_view_is(r, spec_mem_case(it, args.deep_view())),
{
    if args.len() < 2 {
        return Err(AsmError::MissingOperand);
    }
    let (v, rtok) = match split_paren_operand(args[1].as_str()) {
        Ok(pair) => pair,
        Err(e) => {
            return Err(e);
        },
    };
    let t1 = strip_commas_str(args[0].as_str());
    let r1 = match parse_register(t1) {
        Ok(reg) => reg,
        Err(e) => {
            return Err(e);
        },
    };
    let r2 = match parse_register(rtok.as_str()) {
        Ok(reg) => reg,
        Err(e) => {
            return Err(e);
        },
    };
    Ok(IRInstruction::IType(it, r1, r2, trunc_to_i8(v)))
}

fn branch_case(it: IType, args: &Vec<String>) -> (r: Result<IRInstruction, AsmError>)
    ensures
        result_view_is(r, spec_branch_case(it, args.deep_view())),
{
    if args.len() < 3 {
        return Err(AsmError::MissingOperand);
    }
    let t1 = strip_commas_str(args[0].as_str());
    let r1 = match parse_register(t1) {
        Ok(reg) => reg,
        Err(e) => {
            return Err(e);
        },
    };
    let t2 = strip_commas_str(args[1].as_str());
    let r2 = match parse_register(t2) {
        Ok(reg) => reg,
        Err(e) => {
            return Err(e);
        },
    };
    let v = match parse_num(args[2].as_str()) {
        Ok(v) => v,
        Err(e) => {
            return Err(e);
        },
    };
    Ok(IRInstruction::IType(it, r1, r2, trunc_to_i8(v)))
}

fn ijump_case(it: IType, args: &Vec<String>) -> (r: Result<IRInstruction, AsmError>)
    ensures
        result_view_is(r, spec_ijump_case(it, args.deep_view())),
{
    if args.len() < 1 {
        return Err(AsmError::MissingOperand);
    }
    let (v, rtok) = match split_paren_operand(args[0].as_str()) {
        Ok(pair) => pair,
        Err(e) => {
            return Err(e);
        },
    };
    let r1 = match parse_register(rtok.as_str()) {
        Ok(reg) => reg,
        Err(e) => {
            return Err(e);
        },
    };
    Ok(IRInstruction::IType(it, r1, Register::Unused, trunc_to_i8(v)))
}

fn limm_case(it: IType, args: &Vec<String>) -> (r: Result<IRInstruction, AsmError>)
    ensures
        result_view_is(r, spec_limm_case(it, args.deep_view())),
{
    if args.len() < 2 {
        return Err(AsmError::MissingOperand);
    }
    let t1 = strip_commas_str(args[0].as_str());
    let r1 = match parse_register(t1) {
        Ok(reg) => reg,
        Err(e) => {
            return Err(e);
        },
    };
    let v = match parse_num(args[1].as_str()) {
        Ok(v) => v,
        Err(e) => {
            return Err(e);
        },
    };
    Ok(IRInstruction::IType(it, r1, Register::Unused, trunc_to_i8(v)))
}

/// Parses a pseudo-instruction statement.
pub fn parse_pseudo(instruction: &str, args: &Vec<String>) -> (r: Result<Pseudo, AsmError>)
    ensures
        result_view_is(r, spec_parse_pseudo(instruction@, args.deep_view())),
{
    if str_eq(instruction, "li") {
        if args.len() < 2 {
            return Err(AsmError::MissingOperand);
        }
        let t1 = strip_commas_str(args[0].as_str());
        let r1 = match parse_register(t1) {
            Ok(reg) => reg,
            Err(e) => {
                return Err(e);
            },
        };
        let v = match parse_num(args[1].as_str()) {
            Ok(v) => v,
            Err(e) => {
                return Err(e);
            },
        };
        Ok(Pseudo::LI(r1, v))
    } else {
        Err(AsmError::UnknownInstruction(instruction.to_owned()))
    }
}

/// Parses an instruction statement: a mnemonic and its operand tokens.
pub fn parse_instruction(instruction: &str, args: &Vec<String>) -> (r: Result<
    IRInstruction,
    AsmError,
>)
    ensures
        result_view_is(r, spec_parse_instruction(instruction@, args.deep_view())),
{
    match parse_rtype(instruction) {
        Some(rt) => rtype_case(rt, args),
        Option::<RType>::None => match parse_jtype(instruction) {
            Some(jt) => jtype_case(jt, args),
            Option::<JType>::None => match parse_itype(instruction) {
                Some(it) => match it {
                    IType::LW | IType::SW => mem_case(it, args),
                    IType::BEQ | IType::BNE | IType::AddI => branch_case(it, args),
                    IType::JmpI | IType::JalI => ijump_case(it, args),
                    IType::LLI | IType::LUI => limm_case(it, args),
                },
                Option::<IType>::None => match parse_pseudo(instruction, args) {
                    Ok(p) => Ok(IRInstruction::Pseudo(p)),
                    Err(e) => Err(e),
                },
            },
        },
    }
}

/// Parses one source line into its IR instruction.
///
/// A line may be blank or comment-only, declare a label, hold a directive,
/// or hold one (possibly pseudo-) instruction.
pub fn parse_line(raw_line: &str) -> (r: Result<IRInstruction, AsmError>)
    ensures
        result_view_is(r, spec_parse_line(raw_line@)),
{
    let toks = line_tokens(raw_line);
    if toks.len() == 0 {
        return Ok(IRInstruction::BlankLine);
    }
    let ghost tv = spec_line_tokens(raw_line@);
    let first = toks[0].as_str();
    let n = first.unicode_len();
    match find_char(first, ':') {
        Some(k) => {
            proof {
                lemma_find_char(first@, ':');
            }
            let name = first.substring_char(0, k).to_owned();
            proof {
                assert(name@ =~= tv[0].take(k as int));
            }
            return Ok(IRInstruction::Label(name));
        },
        Option::<usize>::None => {},
    }
    let mut args: Vec<String> = Vec::new();
    let mut i: usize = 1;
    while i < toks.len()
        invariant
            1 <= i <= toks@.len(),
            args.deep_view() =~= toks.deep_view().subrange(1, i as int),
        decreases toks@.len() - i,
    {
        let ghost old_args = args.deep_view();
        args.push(toks[i].clone());
        proof {
            assert(args.deep_view() =~= old_args.push(toks.deep_view()[i as int]));
            assert(args.deep_view() =~= toks.deep_view().subrange(1, i + 1));
        }
        i += 1;
    }
    proof {
        assert(args.deep_view() =~= tv.drop_first());
    }
    match find_char(first, '.') {
        Some(d) => {
            proof {
                lemma_find_char(first@, '.');
            }
            let kw = first.substring_char(d + 1, n);
            proof {
                assert(kw@ =~= tv[0].skip(d + 1));
            }
            match parse_directive(kw, &args) {
                Ok(dir) => Ok(IRInstruction::Directive(dir)),
                Err(e) => Err(e),
            }
        },
        Option::<usize>::None => parse_instruction(first, &args),
    }
}

} // verus!
