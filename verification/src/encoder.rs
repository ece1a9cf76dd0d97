//! The encoder: each resolved instruction becomes one 16-bit word (an
//! `asciiz` directive becomes one byte per byte of its text), rendered as
//! a memory-initialization listing with a fixed preamble and postamble.
//!
//! Word layouts, most-significant bit first:
//! - register triad: `[0:4][reg1:3][reg2:3][reg3:3][opcode:3]`
//! - resolved jump: `[jtype:4][addr:12]`, the address reduced to 16 bits
//! - immediate operation: `[itype:4][reg1:3][reg2:3][imm:6]`, only the low
//!   six bits of the immediate's byte reading are kept
//! - `byte`/`word` data: the operand itself

use vstd::prelude::*;
use vstd::utf8::encode_utf8;

use crate::error::AsmError;
use crate::error::ErrView;
use crate::ir::DirectiveView;
use crate::ir::IRInstruction;
use crate::ir::Directive;
use crate::ir::IrView;
use crate::ir::RType;
use crate::ir::Register;
use crate::ir::itype_code;
use crate::ir::itype_to_int;
use crate::ir::jtype_code;
use crate::ir::jtype_to_int;
use crate::ir::reg_code;
use crate::ir::reg_to_int;
use crate::ir::rtype_code;
use crate::ir::rtype_to_int;
use crate::ir::spec_encodable;
use crate::ir::unsigned8;
use crate::passes::lemma_pass2_encodable;
use crate::passes::spec_pass1;
use crate::passes::spec_pass2;
use crate::passes::to_ir1;
use crate::passes::to_ir2;
use crate::passes::view_pairs;
use crate::render::instr_text;
use crate::render::render_instr;
use crate::render::spec_hex;
use crate::render::u16_to_hex;
use crate::render::u8_to_hex;
use crate::text::spec_lines;

verus! {

/// The 16-bit word an instruction encodes to. Forms without a word of
/// their own (labels, blank lines, unresolved jumps, pseudo-instructions,
/// `space`, `org`, `asciiz`) count as zero here; the listing never asks
/// for them.
pub open spec fn encode_word(i: IrView) -> int {
    match i {
        IrView::RType(rt, r1, r2, r3) => reg_code(r1) * 512 + reg_code(r2) * 64 + reg_code(r3) * 8
            + rtype_code(rt),
        IrView::JTypeAddr(jt, addr) => (jtype_code(jt) * 4096 + addr) % 65536,
        IrView::IType(it, r1, r2, im) => itype_code(it) * 4096 + reg_code(r1) * 512 + reg_code(r2)
            * 64 + unsigned8(im) % 64,
        IrView::Directive(d) => match d {
            DirectiveView::Byte(b) => b as int,
            DirectiveView::Word(w) => w as int,
            _ => 0,
        },
        _ => 0,
    }
}

/// Encodes one instruction as its 16-bit word.
pub fn instr_to_int(instr: &IRInstruction) -> (r: u16)
    requires
        instr@ matches IrView::RType(..) || instr@ matches IrView::JTypeAddr(..) || instr@ matches
            IrView::IType(..) || instr@ matches IrView::Directive(_),
    ensures
        r == encode_word(instr@),
{
    match instr {
        IRInstruction::Directive(d) => match d {
            Directive::Byte(b) => *b as u16,
            Directive::Word(w) => *w,
            _ => 0,
        },
        IRInstruction::RType(rtype, reg1, reg2, reg3) => (reg_to_int(reg1) * 512 + reg_to_int(reg2)
            * 64 + reg_to_int(reg3) * 8 + rtype_to_int(rtype)),
        IRInstruction::JTypeAddr(jtype, addr) => (((jtype_to_int(jtype) as u32) * 4096
            + (*addr as u32)) % 65536) as u16,
        IRInstruction::IType(itype, reg1, reg2, immediate) => {
            let imm8: u16 = if *immediate >= 0 {
                *immediate as u16
            } else {
                (*immediate as i32 + 256) as u16
            };
            itype_to_int(itype) * 4096 + reg_to_int(reg1) * 512 + reg_to_int(reg2) * 64 + imm8 % 64
        },
        _ => 0,
    }
}

/// The hex rendering of the data bytes of an `asciiz` directive: one byte
/// per byte of the text, each preceded by one space.
pub open spec fn bytes_text(bs: Seq<u8>) -> Seq<char>
    decreases bs.len(),
{
    if bs.len() == 0 {
        Seq::<char>::empty()
    } else {
        bytes_text(bs.drop_last()) + " "@ + spec_hex(bs.last() as int)
    }
}

/// One listing line: the address in hex, the data in hex, and the echo of
/// the instruction as a trailing comment.
pub open spec fn spec_mif_line(addr: u16, i: IrView) -> Seq<char> {
    match i {
        IrView::Directive(DirectiveView::Asciiz(s)) => spec_hex(addr as int) + " : "@ + bytes_text(
            encode_utf8(s),
        ) + "; -- "@ + instr_text(i),
        _ => spec_hex(addr as int) + " : "@ + spec_hex(encode_word(i)) + "; -- "@ + instr_text(i),
    }
}

/// Renders one listing line for an encodable instruction at its address.
pub fn instr_to_mif(addr: &u16, instr: &IRInstruction) -> (r: String)
    requires
        spec_encodable(instr@),
    ensures
        r@ == spec_mif_line(*addr, instr@),
{
    let mut s = u16_to_hex(*addr);
    s.append(" : ");
    match instr {
        IRInstruction::Directive(Directive::Asciiz(text)) => {
            let bytes = text.as_str().as_bytes();
            let ghost bv = bytes@;
            let n = bytes.len();
            let mut k: usize = 0;
            while k < n
                invariant
                    0 <= k <= n,
                    n == bv.len(),
                    bv == bytes@,
                    s@ == spec_hex(addr as int) + " : "@ + bytes_text(bv.take(k as int)),
                decreases n - k,
            {
                proof {
                    assert(bv.take(k + 1).drop_last() =~= bv.take(k as int));
                    assert(bv.take(k + 1).last() == bv[k as int]);
                }
                s.append(" ");
                s.append(u8_to_hex(bytes[k]).as_str());
                k += 1;
            }
            proof {
                assert(bv.take(n as int) =~= bv);
            }
        },
        _ => {
            s.append(u16_to_hex(instr_to_int(instr)).as_str());
        },
    }
    s.append("; -- ");
    s.append(render_instr(instr).as_str());
    s
}

/// The listing body: one line per entry, joined with newlines.
pub open spec fn spec_mif_body(entries: Seq<(u16, IrView)>) -> Seq<char>
    decreases entries.len(),
{
    if entries.len() == 0 {
        Seq::<char>::empty()
    } else if entries.len() == 1 {
        spec_mif_line(entries[0].0, entries[0].1)
    } else {
        spec_mif_body(entries.drop_last()) + "\n"@ + spec_mif_line(
            entries.last().0,
            entries.last().1,
        )
    }
}

/// The fixed preamble of a listing.
pub open spec fn spec_mif_header() -> Seq<char> {
    "DEPTH = 16384;                -- The size of memory in words\nWIDTH = 16;                   -- The size of data in bits\nADDRESS_RADIX = HEX;          -- The radix for address values\nDATA_RADIX = BIN;             -- The radix for data values\nCONTENT                       -- start of (address : data pairs)\nBEGIN\n"@
}

/// The whole listing: preamble, one line per entry, postamble.
pub open spec fn spec_mif(entries: Seq<(u16, IrView)>) -> Seq<char> {
    spec_mif_header() + spec_mif_body(entries) + "\nEND;\n"@
}

/// Renders the full listing of a resolved instruction stream.
pub fn to_mif(instrs: &Vec<(u16, IRInstruction)>) -> (r: String)
    requires
        forall|i: int| 0 <= i < instrs@.len() ==> spec_encodable(#[trigger] view_pairs(instrs@)[i].1),
    ensures
        r@ == spec_mif(view_pairs(instrs@)),
{
    let ghost vp = view_pairs(instrs@);
    let mut s = String::from_str(
        "DEPTH = 16384;                -- The size of memory in words\nWIDTH = 16;                   -- The size of data in bits\nADDRESS_RADIX = HEX;          -- The radix for address values\nDATA_RADIX = BIN;             -- The radix for data values\nCONTENT                       -- start of (address : data pairs)\nBEGIN\n",
    );
    let n = instrs.len();
    let mut i: usize = 0;
    proof {
        assert(vp.take(0) =~= Seq::<(u16, IrView)>::empty());
        assert(s@ =~= spec_mif_header() + spec_mif_body(vp.take(0)));
    }
    while i < n
        invariant
            0 <= i <= n,
            n == instrs@.len(),
            vp == view_pairs(instrs@),
            n == vp.len(),
            forall|j: int| 0 <= j < n ==> spec_encodable(#[trigger] vp[j].1),
            s@ == spec_mif_header() + spec_mif_body(vp.take(i as int)),
        decreases n - i,
    {
        proof {
            assert(vp.take(i + 1).drop_last() =~= vp.take(i as int));
            assert(vp.take(i + 1).last() == vp[i as int]);
            assert(vp[i as int].1 == instrs@[i as int].1@);
        }
        if i > 0 {
            s.append("\n");
        }
        let line = instr_to_mif(&instrs[i].0, &instrs[i].1);
        s.append(line.as_str());
        i += 1;
    }
    proof {
        assert(vp.take(n as int) =~= vp);
    }
    s.append("\nEND;\n");
    s
}

/// The full assembly of a source text: parse every line, assign addresses
/// and collect labels, resolve and lower, and render the listing.
pub open spec fn spec_assemble(text: Seq<char>) -> Result<Seq<char>, ErrView> {
    match spec_pass1(spec_lines(text)) {
        Err(e) => Err(e),
        Ok((end, irs, m)) => match spec_pass2(irs, m) {
            Err(e) => Err(e),
            Ok(out) => Ok(spec_mif(out)),
        },
    }
}

/// Assembles a source text into its listing, or reports the first fatal
/// error: a malformed line, or a jump to an undefined label.
pub fn assemble(text: String) -> (r: Result<String, AsmError>)
    ensures
        match r {
            Ok(s) => spec_assemble(text@) == Ok::<Seq<char>, ErrView>(s@),
            Err(e) => spec_assemble(text@) matches Err(v) && e@ == v,
        },
{
    let (instrs, table) = match to_ir1(text) {
        Ok(p) => p,
        Err(e) => {
            return Err(e);
        },
    };
    let ghost m = table@;
    let resolved = match to_ir2(instrs, table) {
        Ok(v) => v,
        Err(e) => {
            return Err(e);
        },
    };
    proof {
        lemma_pass2_encodable(view_pairs(instrs@), m);
    }
    Ok(to_mif(&resolved))
}

/// The four fields of an encoded register-triad word are recoverable from
/// the documented bit positions: encoding loses none of the operands.
pub proof fn lemma_rtype_round_trip(rt: RType, r1: Register, r2: Register, r3: Register)
    ensures
        ({
            let w = encode_word(IrView::RType(rt, r1, r2, r3)) as u16;
            &&& (w >> 9) & 7 == reg_code(r1)
            &&& (w >> 6) & 7 == reg_code(r2)
            &&& (w >> 3) & 7 == reg_code(r3)
            &&& w & 7 == rtype_code(rt)
        }),
{
    let a = reg_code(r1) as u16;
    let b = reg_code(r2) as u16;
    let c = reg_code(r3) as u16;
    let d = rtype_code(rt) as u16;
    let w = encode_word(IrView::RType(rt, r1, r2, r3)) as u16;
    assert(w == (a * 512 + b * 64 + c * 8 + d) as u16);
    assert(((((a * 512 + b * 64 + c * 8 + d) as u16) >> 9) & 7 == a && (((a * 512 + b * 64 + c * 8
        + d) as u16) >> 6) & 7 == b && (((a * 512 + b * 64 + c * 8 + d) as u16) >> 3) & 7 == c && ((
    a * 512 + b * 64 + c * 8 + d) as u16) & 7 == d)) by (bit_vector)
        requires
            a < 8 && b < 8 && c < 8 && d < 8,
    ;
}

} // verus!
