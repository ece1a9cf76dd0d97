//! The two assembly passes.
//!
//! Pass one walks the parsed lines in source order, assigns each its
//! address and records every label in the symbol table. Pass two drops the
//! layout-only entries, resolves label references through the finished
//! table and expands pseudo-instructions, leaving only encodable forms.

use vstd::prelude::*;
use vstd::string::StringSliceAdditionalSpecFns;
use vstd::utf8::encode_utf8;

use crate::error::AsmError;
use crate::error::ErrView;
use crate::ir::Directive;
use crate::ir::DirectiveView;
use crate::ir::IRInstruction;
use crate::ir::IType;
use crate::ir::IrView;
use crate::ir::Pseudo;
use crate::ir::Register;
use crate::ir::high_byte;
use crate::ir::high_byte_of;
use crate::ir::low_byte;
use crate::ir::low_byte_of;
use crate::ir::spec_encodable;
use crate::parser::parse_line;
use crate::parser::spec_parse_line;
use crate::symtab::SymbolTable;
use crate::text::spec_lines;
use crate::text::split_lines;

verus! {

/// The address units one instruction slot takes.
pub const INSTR_SIZE: u16 = 1;

/// A value reduced to the 16 bits of the address counter.
pub open spec fn wrap16(v: int) -> u16
    recommends
        v >= 0,
{
    (v % 65536) as u16
}

/// Adds two counters with 16-bit wraparound.
pub fn wrap_add(a: u16, b: u16) -> (r: u16)
    ensures
        r == wrap16(a + b),
{
    ((a as u32 + b as u32) % 65536) as u16
}

/// The ghost pairing of each instruction with its view.
pub open spec fn view_pairs(s: Seq<(u16, IRInstruction)>) -> Seq<(u16, IrView)> {
    s.map_values(|p: (u16, IRInstruction)| (p.0, p.1@))
}

/// The address counter after one parsed line: labels and ordinary
/// instructions take one unit, `asciiz` one unit per byte of its text,
/// `space` its operand, and `org` resets the counter outright.
pub open spec fn addr_after(ir: IrView, addr: u16) -> u16 {
    match ir {
        IrView::Directive(d) => match d {
            DirectiveView::Asciiz(s) => wrap16(addr + (encode_utf8(s).len() as usize)),
            DirectiveView::Org(a) => a,
            DirectiveView::Space(n) => wrap16(addr + n),
            DirectiveView::Byte(_) => wrap16(addr + INSTR_SIZE),
            DirectiveView::Word(_) => wrap16(addr + INSTR_SIZE),
        },
        _ => wrap16(addr + INSTR_SIZE),
    }
}

/// The first pass over a line sequence: the final counter, the addressed
/// instruction list, and the symbol table. A label is recorded at the
/// counter's value before its own line increments it; a later definition
/// of the same name overwrites an earlier one.
pub open spec fn spec_pass1(lines: Seq<Seq<char>>) -> Result<
    (u16, Seq<(u16, IrView)>, Map<Seq<char>, u16>),
    ErrView,
>
    decreases lines.len(),
{
    if lines.len() == 0 {
        Ok((0u16, Seq::<(u16, IrView)>::empty(), Map::<Seq<char>, u16>::empty()))
    } else {
        match spec_pass1(lines.drop_last()) {
            Err(e) => Err(e),
            Ok((addr, irs, m)) => match spec_parse_line(lines.last()) {
                Err(e) => Err(e),
                Ok(ir) => Ok(
                    (
                        addr_after(ir, addr),
                        irs.push((addr, ir)),
                        match ir {
                            IrView::Label(name) => m.insert(name, addr),
                            _ => m,
                        },
                    ),
                ),
            },
        }
    }
}

/// A first pass that fails on a prefix fails on the whole input, with the
/// same error: lines after the first bad one change nothing.
pub proof fn lemma_pass1_error_persists(lines: Seq<Seq<char>>, i: int)
    requires
        0 <= i <= lines.len(),
        spec_pass1(lines.take(i)) is Err,
    ensures
        spec_pass1(lines) == spec_pass1(lines.take(i)),
    decreases lines.len(),
{
    if i == lines.len() {
        assert(lines.take(i) =~= lines);
    } else {
        assert(lines.drop_last().take(i) =~= lines.take(i));
        lemma_pass1_error_persists(lines.drop_last(), i);
    }
}

/// The second pass over pass-one output: layout-only entries are dropped,
/// label jumps are resolved to the label's address plus one, and each
/// pseudo-instruction expands to its low-byte and high-byte loads at
/// consecutive addresses.
pub open spec fn spec_pass2(entries: Seq<(u16, IrView)>, m: Map<Seq<char>, u16>) -> Result<
    Seq<(u16, IrView)>,
    ErrView,
>
    decreases entries.len(),
{
    if entries.len() == 0 {
        Ok(Seq::<(u16, IrView)>::empty())
    } else {
        match spec_pass2(entries.drop_last(), m) {
            Err(e) => Err(e),
            Ok(pre) => {
                let addr = entries.last().0;
                match entries.last().1 {
                    IrView::Label(_) => Ok(pre),
                    IrView::BlankLine => Ok(pre),
                    IrView::Directive(d) => match d {
                        DirectiveView::Space(_) => Ok(pre),
                        DirectiveView::Org(_) => Ok(pre),
                        _ => Ok(pre.push((addr, IrView::Directive(d)))),
                    },
                    IrView::JTypeLabel(jt, name) => if m.contains_key(name) {
                        Ok(pre.push((addr, IrView::JTypeAddr(jt, wrap16(m[name] + INSTR_SIZE)))))
                    } else {
                        Err(ErrView::UndefinedLabel(name))
                    },
                    IrView::Pseudo(p) => match p {
                        Pseudo::LI(reg, val) => Ok(
                            pre.push(
                                (addr, IrView::IType(IType::LLI, reg, Register::Unused, low_byte(val))),
                            ).push(
                                (
                                    wrap16(addr + INSTR_SIZE),
                                    IrView::IType(IType::LUI, reg, Register::Unused, high_byte(val)),
                                ),
                            ),
                        ),
                    },
                    _ => Ok(pre.push((addr, entries.last().1))),
                }
            },
        }
    }
}

/// A second pass that fails on a prefix fails on the whole input, with the
/// same error.
pub proof fn lemma_pass2_error_persists(
    entries: Seq<(u16, IrView)>,
    m: Map<Seq<char>, u16>,
    i: int,
)
    requires
        0 <= i <= entries.len(),
        spec_pass2(entries.take(i), m) is Err,
    ensures
        spec_pass2(entries, m) == spec_pass2(entries.take(i), m),
    decreases entries.len(),
{
    if i == entries.len() {
        assert(entries.take(i) =~= entries);
    } else {
        assert(entries.drop_last().take(i) =~= entries.take(i));
        lemma_pass2_error_persists(entries.drop_last(), m, i);
    }
}

/// Everything the second pass emits is encodable: no label, blank line,
/// unresolved jump, pseudo-instruction, `space` or `org` survives it.
pub proof fn lemma_pass2_encodable(entries: Seq<(u16, IrView)>, m: Map<Seq<char>, u16>)
    ensures
        spec_pass2(entries, m) matches Ok(out) ==> forall|i: int|
            0 <= i < out.len() ==> spec_encodable(#[trigger] out[i].1),
    decreases entries.len(),
{
    if entries.len() > 0 {
        lemma_pass2_encodable(entries.drop_last(), m);
    }
}

/// A jump through a label that the table does not hold makes the second
/// pass fail: assembly aborts rather than emit an unresolved jump.
pub proof fn lemma_undefined_label_aborts(
    entries: Seq<(u16, IrView)>,
    m: Map<Seq<char>, u16>,
    i: int,
)
    requires
        0 <= i < entries.len(),
        entries[i].1 matches IrView::JTypeLabel(jt, name) && !m.contains_key(name),
    ensures
        spec_pass2(entries, m) is Err,
    decreases entries.len(),
{
    if i < entries.len() - 1 {
        lemma_undefined_label_aborts(entries.drop_last(), m, i);
    }
}

/// The first pass: parses every line, assigns addresses, and builds the
/// symbol table.
pub fn to_ir1(text: String) -> (r: Result<(Vec<(u16, IRInstruction)>, SymbolTable), AsmError>)
    ensures
        match r {
            Ok(p) => spec_pass1(spec_lines(text@)) matches Ok(t) && view_pairs(p.0@) == t.1 && p.1@
                == t.2,
            Err(e) => spec_pass1(spec_lines(text@)) matches Err(v) && e@ == v,
        },
{
    let lines = split_lines(text.as_str());
    let ghost lv = lines.deep_view();
    let n = lines.len();
    let mut addr: u16 = 0;
    let mut table = SymbolTable::new();
    let mut instrs: Vec<(u16, IRInstruction)> = Vec::new();
    let mut i: usize = 0;
    proof {
        assert(lv.take(0) =~= Seq::<Seq<char>>::empty());
        assert(view_pairs(instrs@) =~= Seq::<(u16, IrView)>::empty());
    }
    while i < n
        invariant
            0 <= i <= n,
            n == lv.len(),
            lv == lines.deep_view(),
            lv == spec_lines(text@),
            n == lines@.len(),
            spec_pass1(lv.take(i as int)) == Ok::<_, ErrView>((addr, view_pairs(instrs@), table@)),
        decreases n - i,
    {
        proof {
            assert(lv.take(i + 1).drop_last() =~= lv.take(i as int));
            assert(lv.take(i + 1).last() == lv[i as int]);
            assert(lines@[i as int]@ == lv[i as int]);
        }
        let instr = match parse_line(lines[i].as_str()) {
            Ok(x) => x,
            Err(e) => {
                proof {
                    lemma_pass1_error_persists(lv, i + 1);
                }
                return Err(e);
            },
        };
        let cur = addr;
        let ghost old_table = table@;
        match &instr {
            IRInstruction::Label(name) => {
                table.insert(name.clone(), cur);
                addr = wrap_add(cur, INSTR_SIZE);
            },
            IRInstruction::Directive(d) => match d {
                Directive::Asciiz(s) => {
                    let sa = s.as_str();
                    let bl = sa.len();
                    proof {
                        assert(sa.spec_bytes() == encode_utf8(s@));
                    }
                    let units: u16 = (bl % 65536) as u16;
                    proof {
                        let l: int = (encode_utf8(s@).len() as usize) as int;
                        assert(units as int == l % 65536);
                        vstd::arithmetic::div_mod::lemma_add_mod_noop(cur as int, l, 65536);
                        vstd::arithmetic::div_mod::lemma_small_mod(cur as nat, 65536);
                        assert((cur as int % 65536 + l % 65536) % 65536 == (cur as int + l) % 65536);
                        assert(cur as int % 65536 == cur as int);
                        assert((cur + units) % 65536 == (cur as int + l) % 65536);
                    }
                    addr = wrap_add(cur, units);
                },
                Directive::Org(a) => {
                    addr = *a;
                },
                Directive::Space(space) => {
                    addr = wrap_add(cur, *space);
                },
                Directive::Byte(_) => {
                    addr = wrap_add(cur, INSTR_SIZE);
                },
                Directive::Word(_) => {
                    addr = wrap_add(cur, INSTR_SIZE);
                },
            },
            _ => {
                addr = wrap_add(cur, INSTR_SIZE);
            },
        }
        let ghost old_pairs = view_pairs(instrs@);
        proof {
            assert(addr == addr_after(instr@, cur));
            assert(table@ == (match instr@ {
                IrView::Label(nm) => old_table.insert(nm, cur),
                _ => old_table,
            }));
        }
        instrs.push((cur, instr));
        proof {
            assert(view_pairs(instrs@) =~= old_pairs.push((cur, instrs@.last().1@)));
        }
        i += 1;
    }
    proof {
        assert(lv.take(n as int) =~= lv);
    }
    Ok((instrs, table))
}

/// The second pass: resolves labels, expands pseudo-instructions, and
/// drops what only influenced addressing.
pub fn to_ir2(instrs: Vec<(u16, IRInstruction)>, symbols: SymbolTable) -> (r: Result<
    Vec<(u16, IRInstruction)>,
    AsmError,
>)
    ensures
        match r {
            Ok(out) => spec_pass2(view_pairs(instrs@), symbols@) == Ok::<_, ErrView>(view_pairs(out@)),
            Err(e) => spec_pass2(view_pairs(instrs@), symbols@) matches Err(v) && e@ == v,
        },
{
    let ghost vp = view_pairs(instrs@);
    let n = instrs.len();
    let mut out: Vec<(u16, IRInstruction)> = Vec::new();
    let mut i: usize = 0;
    proof {
        assert(vp.take(0) =~= Seq::<(u16, IrView)>::empty());
        assert(view_pairs(out@) =~= Seq::<(u16, IrView)>::empty());
    }
    while i < n
        invariant
            0 <= i <= n,
            n == instrs@.len(),
            vp == view_pairs(instrs@),
            n == vp.len(),
            spec_pass2(vp.take(i as int), symbols@) == Ok::<_, ErrView>(view_pairs(out@)),
        decreases n - i,
    {
        proof {
            assert(vp.take(i + 1).drop_last() =~= vp.take(i as int));
            assert(vp.take(i + 1).last() == vp[i as int]);
        }
        let addr = instrs[i].0;
        let instr = &instrs[i].1;
        let ghost old_out = view_pairs(out@);
        match instr {
            IRInstruction::Label(_) => {},
            IRInstruction::BlankLine => {},
            IRInstruction::Directive(d) => match d {
                Directive::Space(_) => {},
                Directive::Org(_) => {},
                _ => {
                    out.push((addr, IRInstruction::Directive(d.clone())));
                    proof {
                        assert(view_pairs(out@) =~= old_out.push((addr, out@.last().1@)));
                    }
                },
            },
            IRInstruction::JTypeLabel(jt, name) => match symbols.lookup(name.as_str()) {
                Some(a) => {
                    out.push((addr, IRInstruction::JTypeAddr(*jt, wrap_add(a, INSTR_SIZE))));
                    proof {
                        assert(view_pairs(out@) =~= old_out.push((addr, out@.last().1@)));
                    }
                },
                Option::<u16>::None => {
                    proof {
                        lemma_pass2_error_persists(vp, symbols@, i + 1);
                    }
                    return Err(AsmError::UndefinedLabel(name.clone()));
                },
            },
            IRInstruction::Pseudo(p) => match p {
                Pseudo::LI(reg, val) => {
                    out.push(
                        (addr, IRInstruction::IType(IType::LLI, *reg, Register::Unused, low_byte_of(*val))),
                    );
                    let ghost mid_out = view_pairs(out@);
                    proof {
                        assert(mid_out =~= old_out.push((addr, out@.last().1@)));
                    }
                    out.push(
                        (
                            wrap_add(addr, INSTR_SIZE),
                            IRInstruction::IType(IType::LUI, *reg, Register::Unused, high_byte_of(*val)),
                        ),
                    );
                    proof {
                        assert(view_pairs(out@) =~= mid_out.push(
                            (wrap16(addr + INSTR_SIZE), out@.last().1@),
                        ));
                    }
                },
            },
            _ => {
                out.push((addr, instr.clone()));
                proof {
                    assert(view_pairs(out@) =~= old_out.push((addr, out@.last().1@)));
                }
            },
        }
        i += 1;
    }
    proof {
        assert(vp.take(n as int) =~= vp);
    }
    Ok(out)
}

} // verus!
