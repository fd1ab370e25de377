use vstd::prelude::*;
use crate::assembler::{is_bound, plain, InstAssembler, Label};
use crate::error::{Error, ErrorKind};
use crate::flags::{capture_seq, get_z_seq, r64, set_reg_var_seq, set_var_seq, update_seq, var_to_reg_seq, map_x64_to_half_if};
use crate::guest::{Condition, GuestReg, Imm, Operand};
use crate::host::{HostReg, RAX, RCX, RDI, RSI};
use crate::inst::{BranchKind, Entry, HostInst, PlainOp, RegImmOp, RegOp, RegRegOp};
use crate::registers::{is_mapped, Layout, NZCV};

verus! {

/// The value of an unsigned 64-bit immediate operand.
pub open spec fn imm64_value(o: Operand) -> Option<u64> {
    match o {
        Operand::Imm64(Imm::Unsigned(v)) => Some(v),
        _ => None,
    }
}

/// The value of an unsigned 32-bit immediate operand.
pub open spec fn imm32_value(o: Operand) -> Option<u64> {
    match o {
        Operand::Imm32(Imm::Unsigned(v)) => Some(v),
        _ => None,
    }
}

/// The register and immediate of a compare `reg, #imm`, if the operands have that shape.
pub open spec fn cmp_shape(ops: Seq<Operand>) -> Option<(GuestReg, u64)> {
    if ops.len() != 2 {
        None
    } else {
        match (ops[0], imm64_value(ops[1])) {
            (Operand::Reg(reg), Some(imm)) => Some((reg, imm)),
            _ => None,
        }
    }
}

/// Why a compare with these operands cannot be translated, if it cannot.
pub open spec fn cmp_error(ops: Seq<Operand>) -> Option<ErrorKind> {
    match cmp_shape(ops) {
        None => Some(ErrorKind::Decode),
        Some((reg, _)) => if is_mapped(reg) { None } else { Some(ErrorKind::Unmapped) },
    }
}

/// The two's complement negation of `imm`.
pub open spec fn negated(imm: u64) -> u64 {
    if imm == 0 { 0 } else { (u64::MAX - imm + 1) as u64 }
}

/// Loads the guest register `reg`, applies `op` with `value` and captures the flags,
/// with the carry inverted when `invert_carry` holds.
pub open spec fn op_and_capture_seq(layout: Layout, reg: GuestReg, op: RegRegOp, value: u64, invert_carry: bool) -> Seq<HostInst> {
    var_to_reg_seq(layout.cell_of(reg), r64(RAX)) + seq![
        HostInst::MovImm { dst: r64(RCX), imm: value },
        HostInst::RegReg { op, dst: r64(RAX), src: r64(RCX) },
    ] + capture_seq(layout.nzcv, invert_carry)
}

/// Loads the guest register `reg`, subtracts `value` and captures the flags.
pub open spec fn sub_and_update_seq(layout: Layout, reg: GuestReg, value: u64) -> Seq<HostInst> {
    op_and_capture_seq(layout, reg, RegRegOp::Sub, value, true)
}

/// The code of `cmp reg, #imm`.
pub open spec fn cmp_seq(layout: Layout, reg: GuestReg, imm: u64) -> Seq<HostInst> {
    sub_and_update_seq(layout, reg, imm)
}

/// The code of `cmn reg, #imm`: a subtraction of the negated immediate; for a zero
/// immediate, whose negation borrows nothing, an addition of zero whose carry is kept.
pub open spec fn cmn_seq(layout: Layout, reg: GuestReg, imm: u64) -> Seq<HostInst> {
    if imm == 0 {
        op_and_capture_seq(layout, reg, RegRegOp::Add, 0, false)
    } else {
        sub_and_update_seq(layout, reg, negated(imm))
    }
}

/// Why a negative compare with these operands cannot be translated, if it cannot:
/// its immediate must be a non-negative 64-bit number.
pub open spec fn cmn_error(ops: Seq<Operand>) -> Option<ErrorKind> {
    match cmp_shape(ops) {
        None => Some(ErrorKind::Decode),
        Some((reg, imm)) => if imm > i64::MAX {
            Some(ErrorKind::Decode)
        } else if is_mapped(reg) {
            None
        } else {
            Some(ErrorKind::Unmapped)
        },
    }
}

/// The operands of `ccmn reg, #imm, #nzcv, cond` if they have that shape.
pub open spec fn ccmn_shape(ops: Seq<Operand>) -> Option<(GuestReg, u64, u64, Condition)> {
    if ops.len() != 4 {
        None
    } else {
        match (cmp_shape(ops.subrange(0, 2)), imm32_value(ops[2]), ops[3]) {
            (Some((reg, imm)), Some(nzcv), Operand::Cond(cond)) => if nzcv < 16 {
                Some((reg, imm, nzcv, cond))
            } else {
                None
            },
            _ => None,
        }
    }
}

/// Why a conditional compare with these operands cannot be translated, if it cannot.
pub open spec fn ccmn_error(ops: Seq<Operand>) -> Option<ErrorKind> {
    match ccmn_shape(ops) {
        None => Some(ErrorKind::Decode),
        Some((reg, imm, _, cond)) => if cond != Condition::NE || imm > i64::MAX {
            Some(ErrorKind::Decode)
        } else if !is_mapped(reg) {
            Some(ErrorKind::Unmapped)
        } else {
            None
        },
    }
}

/// Reads the zero flag into `rax` and compares it with 1.
pub open spec fn test_z_seq(layout: Layout) -> Seq<HostInst> {
    get_z_seq(layout.nzcv, r64(RAX)) + seq![HostInst::RegImm { op: RegImmOp::Cmp8, dst: r64(RAX), imm: 1 }]
}

pub open spec fn branch_entry(kind: BranchKind, label: u64) -> Entry {
    Entry { inst: HostInst::Branch { kind, label }, label: 0 }
}

pub open spec fn nop_at(label: u64) -> Entry {
    Entry { inst: HostInst::Plain { op: PlainOp::Nop }, label }
}

/// The code of `ccmn reg, #imm, #nzcv, ne` with labels `count + 1` (the compare) and
/// `count + 2` (the end): if the zero flag is clear, a real `cmn`; otherwise the flag
/// cell is set to `nzcv` in bits 31..28.
pub open spec fn ccmn_entries(layout: Layout, reg: GuestReg, imm: u64, nzcv: u64, count: u64) -> Seq<Entry> {
    let compare = (count + 1) as u64;
    let end = (count + 2) as u64;
    plain(test_z_seq(layout)) + seq![branch_entry(BranchKind::Jne, compare)] + plain(
        set_var_seq((nzcv * 0x1000_0000) as u64, layout.nzcv),
    ) + seq![branch_entry(BranchKind::Jmp, end), nop_at(compare)] + plain(cmn_seq(layout, reg, imm))
        + seq![nop_at(end)]
}

/// The target displacement of a branch with these operands, if they have that shape.
pub open spec fn branch_shape(ops: Seq<Operand>) -> Option<u64> {
    if ops.len() != 1 {
        None
    } else {
        match ops[0] {
            Operand::Label(Imm::Unsigned(v)) => Some(v),
            _ => None,
        }
    }
}

/// The code of a conditional branch taken on `kind` with labels `count + 1` (the call)
/// and `count + 2` (the end): when taken, it calls the branch entry routine with the
/// context in `rdi` and the displacement in `rsi`.
pub open spec fn branch_entries(layout: Layout, kind: BranchKind, addr: u64, count: u64) -> Seq<Entry> {
    let call = (count + 1) as u64;
    let end = (count + 2) as u64;
    plain(test_z_seq(layout)) + seq![
        branch_entry(kind, call),
        branch_entry(BranchKind::Jmp, end),
        Entry { inst: HostInst::MovImm { dst: r64(RSI), imm: addr }, label: call },
    ] + plain(
        seq![
            HostInst::MovImm { dst: r64(RDI), imm: layout.context },
            HostInst::Unary { op: RegOp::Push, reg: r64(RAX) },
            HostInst::MovImm { dst: r64(RAX), imm: layout.branch_entry },
            HostInst::Unary { op: RegOp::Call, reg: r64(RAX) },
            HostInst::Unary { op: RegOp::Pop, reg: r64(RAX) },
        ],
    ) + seq![nop_at(end)]
}

/// The register and displacement of `adr reg, label`, if the operands have that shape.
pub open spec fn adr_shape(ops: Seq<Operand>) -> Option<(GuestReg, u64)> {
    if ops.len() != 2 {
        None
    } else {
        match (ops[0], ops[1]) {
            (Operand::Reg(reg), Operand::Label(Imm::Unsigned(v))) => Some((reg, v)),
            _ => None,
        }
    }
}

/// The code of `adr reg, label`: the program counter plus the displacement, stored in `reg`.
pub open spec fn adr_seq(layout: Layout, reg: GuestReg, rel: u64) -> Seq<HostInst> {
    var_to_reg_seq(layout.pc, r64(RAX)) + seq![
        HostInst::MovImm { dst: r64(RCX), imm: rel },
        HostInst::RegReg { op: RegRegOp::Add, dst: r64(RAX), src: r64(RCX) },
    ] + set_reg_var_seq(r64(RAX), layout.cell_of(reg))
}

fn imm64_of(o: Operand) -> (r: Option<u64>)
    ensures
        r == imm64_value(o),
{
    match o {
        Operand::Imm64(Imm::Unsigned(v)) => Some(v),
        _ => None,
    }
}

fn imm32_of(o: Operand) -> (r: Option<u64>)
    ensures
        r == imm32_value(o),
{
    match o {
        Operand::Imm32(Imm::Unsigned(v)) => Some(v),
        _ => None,
    }
}

fn decode_error() -> (e: Error)
    ensures
        e.kind == ErrorKind::Decode,
{
    Error::with_kind(ErrorKind::Decode, "Unsupported operands".to_owned())
}

/// The register and immediate of a compare, or why they are not supported.
fn cmp_operands(layout: &Layout, operands: &[Operand]) -> (r: Result<(GuestReg, u64), Error>)
    ensures
        match cmp_error(operands@) {
            None => r == Ok::<(GuestReg, u64), Error>(cmp_shape(operands@)->Some_0),
            Some(k) => r is Err && r->Err_0.kind == k,
        },
{
    if operands.len() != 2 {
        return Err(decode_error());
    }
    let reg = match operands[0] {
        Operand::Reg(reg) => reg,
        _ => return Err(decode_error()),
    };
    let imm = match imm64_of(operands[1]) {
        Some(imm) => imm,
        None => return Err(decode_error()),
    };
    match layout.reg_cell(reg) {
        Ok(_) => Ok((reg, imm)),
        Err(e) => Err(e),
    }
}

fn emit_op_and_capture(
    layout: &Layout,
    builder: &mut InstAssembler,
    reg: GuestReg,
    op: RegRegOp,
    value: u64,
    invert_carry: bool,
)
    requires
        old(builder).wf(),
        is_mapped(reg),
    ensures
        final(builder)@ == old(builder)@ + plain(op_and_capture_seq(*layout, reg, op, value, invert_carry)),
        final(builder).label_count() == old(builder).label_count(),
        final(builder).wf(),
{
    let dest_register = HostReg::gpr64(RAX);
    let value_reg = HostReg::gpr64(RCX);
    let cell = match layout.reg_cell(reg) {
        Ok(cell) => cell,
        Err(_) => vstd::pervasive::unreached(),
    };
    builder.emit_var_to_reg(cell, dest_register);
    let insts = vec![
        HostInst::MovImm { dst: value_reg, imm: value },
        HostInst::RegReg { op, dst: dest_register, src: value_reg },
    ];
    builder.add_all(&insts);
    NZCV::emit_capture(builder, layout.nzcv, invert_carry);
    proof {
        assert(plain(op_and_capture_seq(*layout, reg, op, value, invert_carry)) =~= plain(var_to_reg_seq(cell, r64(RAX)))
            + plain(insts@) + plain(capture_seq(layout.nzcv, invert_carry)));
        assert(builder@ =~= old(builder)@ + plain(op_and_capture_seq(*layout, reg, op, value, invert_carry)));
    }
}

fn emit_sub_and_update(layout: &Layout, builder: &mut InstAssembler, reg: GuestReg, value: u64)
    requires
        old(builder).wf(),
        is_mapped(reg),
    ensures
        final(builder)@ == old(builder)@ + plain(sub_and_update_seq(*layout, reg, value)),
        final(builder).label_count() == old(builder).label_count(),
        final(builder).wf(),
{
    emit_op_and_capture(layout, builder, reg, RegRegOp::Sub, value, true);
}

/// Appends the code of `cmn reg, #imm`.
fn emit_cmn_code(layout: &Layout, builder: &mut InstAssembler, reg: GuestReg, imm: u64)
    requires
        old(builder).wf(),
        is_mapped(reg),
    ensures
        final(builder)@ == old(builder)@ + plain(cmn_seq(*layout, reg, imm)),
        final(builder).label_count() == old(builder).label_count(),
        final(builder).wf(),
{
    if imm == 0 {
        emit_op_and_capture(layout, builder, reg, RegRegOp::Add, 0, false);
    } else {
        emit_sub_and_update(layout, builder, reg, negate(imm));
    }
}

fn negate(imm: u64) -> (r: u64)
    ensures
        r == negated(imm),
{
    if imm == 0 { 0 } else { u64::MAX - imm + 1 }
}

/// Translates `cmp reg, #imm`: the guest flags become those of `reg - imm`.
pub fn emit_cmp(layout: &Layout, builder: &mut InstAssembler, operands: &[Operand]) -> (r: Result<bool, Error>)
    requires
        old(builder).wf(),
    ensures
        final(builder).wf(),
        final(builder).label_count() == old(builder).label_count(),
        match cmp_error(operands@) {
            None => r == Ok::<bool, Error>(true) && final(builder)@ == old(builder)@ + plain(
                cmp_seq(*layout, cmp_shape(operands@)->Some_0.0, cmp_shape(operands@)->Some_0.1),
            ),
            Some(k) => r is Err && r->Err_0.kind == k && final(builder)@ == old(builder)@,
        },
{
    let (reg, imm) = match cmp_operands(layout, operands) {
        Ok(v) => v,
        Err(e) => return Err(e),
    };
    emit_sub_and_update(layout, builder, reg, imm);
    Ok(true)
}

/// Translates `cmn reg, #imm` as a subtraction of the negated immediate (an addition when
/// the immediate is zero); immediates above `i64::MAX` are rejected.
pub fn emit_cmn(layout: &Layout, builder: &mut InstAssembler, operands: &[Operand]) -> (r: Result<bool, Error>)
    requires
        old(builder).wf(),
    ensures
        final(builder).wf(),
        final(builder).label_count() == old(builder).label_count(),
        match cmn_error(operands@) {
            None => r == Ok::<bool, Error>(true) && final(builder)@ == old(builder)@ + plain(
                cmn_seq(*layout, cmp_shape(operands@)->Some_0.0, cmp_shape(operands@)->Some_0.1),
            ),
            Some(k) => r is Err && r->Err_0.kind == k && final(builder)@ == old(builder)@,
        },
{
    if operands.len() != 2 {
        return Err(decode_error());
    }
    let reg = match operands[0] {
        Operand::Reg(reg) => reg,
        _ => return Err(decode_error()),
    };
    let imm = match imm64_of(operands[1]) {
        Some(imm) => imm,
        None => return Err(decode_error()),
    };
    if imm > i64::MAX as u64 {
        return Err(decode_error());
    }
    if let Err(e) = layout.reg_cell(reg) {
        return Err(e);
    }
    emit_cmn_code(layout, builder, reg, imm);
    Ok(true)
}

fn emit_test_z(layout: &Layout, builder: &mut InstAssembler)
    requires
        old(builder).wf(),
    ensures
        final(builder)@ == old(builder)@ + plain(test_z_seq(*layout)),
        final(builder).label_count() == old(builder).label_count(),
        final(builder).wf(),
{
    let mut regs_handler = crate::regalloc::RegistersHandler::new();
    proof { crate::regalloc::lemma_first_free_small(regs_handler@); }
    let z_reg = regs_handler.take();
    NZCV::emit_get_z(builder, layout.nzcv, z_reg);
    builder.add(HostInst::RegImm { op: RegImmOp::Cmp8, dst: z_reg, imm: 1 });
    proof {
        assert(plain(test_z_seq(*layout)) =~= plain(get_z_seq(layout.nzcv, r64(RAX))).push(
            Entry { inst: HostInst::RegImm { op: RegImmOp::Cmp8, dst: r64(RAX), imm: 1 }, label: 0 },
        ));
    }
}

/// The operands of a conditional compare, or why they are not supported.
fn ccmn_operands(layout: &Layout, operands: &[Operand]) -> (r: Result<(GuestReg, u64, u64), Error>)
    ensures
        match ccmn_error(operands@) {
            None => r == Ok::<(GuestReg, u64, u64), Error>(
                (ccmn_shape(operands@)->Some_0.0, ccmn_shape(operands@)->Some_0.1, ccmn_shape(operands@)->Some_0.2),
            ),
            Some(k) => r is Err && r->Err_0.kind == k,
        },
{
    if operands.len() != 4 {
        return Err(decode_error());
    }
    let ghost head = operands@.subrange(0, 2);
    assert(head.len() == 2 && head[0] == operands@[0] && head[1] == operands@[1]);
    let reg = match operands[0] {
        Operand::Reg(reg) => reg,
        _ => return Err(decode_error()),
    };
    let imm = match imm64_of(operands[1]) {
        Some(imm) => imm,
        None => return Err(decode_error()),
    };
    let nzcv = match imm32_of(operands[2]) {
        Some(nzcv) => nzcv,
        None => return Err(decode_error()),
    };
    if nzcv >= 16 || imm > i64::MAX as u64 {
        return Err(decode_error());
    }
    match operands[3] {
        Operand::Cond(Condition::NE) => {},
        _ => return Err(decode_error()),
    }
    match layout.reg_cell(reg) {
        Ok(_) => Ok((reg, imm, nzcv)),
        Err(e) => Err(e),
    }
}

/// Translates `ccmn reg, #imm, #nzcv, ne`: when the zero flag is clear the flags become
/// those of `cmn reg, #imm`; otherwise the flag register becomes `nzcv` in bits 31..28.
pub fn emit_ccmn(layout: &Layout, builder: &mut InstAssembler, operands: &[Operand]) -> (r: Result<bool, Error>)
    requires
        old(builder).wf(),
        old(builder).label_count() + 2 <= u64::MAX,
    ensures
        final(builder).wf(),
        match ccmn_error(operands@) {
            None => {
                let (reg, imm, nzcv, _) = ccmn_shape(operands@)->Some_0;
                &&& r == Ok::<bool, Error>(true)
                &&& final(builder)@ == old(builder)@ + ccmn_entries(*layout, reg, imm, nzcv, old(builder).label_count())
                &&& final(builder).label_count() == old(builder).label_count() + 2
            },
            Some(k) => r is Err && r->Err_0.kind == k && final(builder)@ == old(builder)@
                && final(builder).label_count() == old(builder).label_count(),
        },
{
    let (reg, imm, nzcv) = match ccmn_operands(layout, operands) {
        Ok(v) => v,
        Err(e) => return Err(e),
    };
    let ghost count = old(builder).label_count();
    emit_test_z(layout, builder);
    let compare_label = builder.create_label();
    let end_label = builder.create_label();
    let ghost s1 = builder@;
    builder.add_branch(BranchKind::Jne, &compare_label);
    NZCV::emit_set(builder, layout.nzcv, nzcv << 28);
    assert((nzcv << 28) == (nzcv * 0x1000_0000) as u64) by (bit_vector)
        requires
            nzcv < 16,
    ;
    builder.add_branch(BranchKind::Jmp, &end_label);
    proof {
        assert forall|i: int| 0 <= i < builder@.len() implies builder@[i].label != compare_label@ by {
            if i < s1.len() {
                assert(s1[i] == builder@[i]);
            } else {
                assert(builder@[i].label == 0);
            }
        }
    }
    builder.add_with_label(HostInst::Plain { op: PlainOp::Nop }, &compare_label);
    let ghost s4 = builder@;
    emit_cmn_code(layout, builder, reg, imm);
    proof {
        assert forall|i: int| 0 <= i < builder@.len() implies builder@[i].label != end_label@ by {
            if i < s1.len() {
                assert(s1[i] == builder@[i]);
            } else if i == s4.len() - 1 {
            } else {
                assert(builder@[i].label == 0 || builder@[i].label == compare_label@);
            }
        }
    }
    builder.add_with_label(HostInst::Plain { op: PlainOp::Nop }, &end_label);
    proof {
        assert(builder@ =~= old(builder)@ + ccmn_entries(*layout, reg, imm, nzcv, count));
    }
    Ok(true)
}

/// Translates a conditional branch taken on `kind`: when taken, the generated code calls
/// the branch entry routine with the context and the target displacement. The block
/// ends after it.
fn cmp_and_branch(layout: &Layout, builder: &mut InstAssembler, kind: BranchKind, addr: u64)
    requires
        old(builder).wf(),
        old(builder).label_count() + 2 <= u64::MAX,
    ensures
        final(builder).wf(),
        final(builder)@ == old(builder)@ + branch_entries(*layout, kind, addr, old(builder).label_count()),
        final(builder).label_count() == old(builder).label_count() + 2,
{
    let ghost count = old(builder).label_count();
    let call_label = builder.create_label();
    let end_label = builder.create_label();
    emit_test_z(layout, builder);
    builder.add_branch(kind, &call_label);
    builder.add_branch(BranchKind::Jmp, &end_label);
    let ghost s1 = builder@;
    builder.add_with_label(HostInst::MovImm { dst: HostReg::gpr64(RSI), imm: addr }, &call_label);
    let rax = HostReg::gpr64(RAX);
    let tail = vec![
        HostInst::MovImm { dst: HostReg::gpr64(RDI), imm: layout.context },
        HostInst::Unary { op: RegOp::Push, reg: rax },
        HostInst::MovImm { dst: rax, imm: layout.branch_entry },
        HostInst::Unary { op: RegOp::Call, reg: rax },
        HostInst::Unary { op: RegOp::Pop, reg: rax },
    ];
    builder.add_all(&tail);
    proof {
        assert forall|i: int| 0 <= i < builder@.len() implies builder@[i].label != end_label@ by {
            if i < old(builder)@.len() {
                assert(old(builder)@[i] == builder@[i]);
            } else if i == s1.len() {
            } else {
                assert(builder@[i].label == 0);
            }
        }
    }
    builder.add_with_label(HostInst::Plain { op: PlainOp::Nop }, &end_label);
    proof {
        assert(builder@ =~= old(builder)@ + branch_entries(*layout, kind, addr, count));
    }
}

fn branch_operand(operands: &[Operand]) -> (r: Result<u64, Error>)
    ensures
        match branch_shape(operands@) {
            Some(v) => r == Ok::<u64, Error>(v),
            None => r is Err && r->Err_0.kind == ErrorKind::Decode,
        },
{
    if operands.len() != 1 {
        return Err(decode_error());
    }
    match operands[0] {
        Operand::Label(Imm::Unsigned(v)) => Ok(v),
        _ => Err(decode_error()),
    }
}

/// Translates `b.eq label`; the block ends after it.
pub fn emit_beq(layout: &Layout, builder: &mut InstAssembler, operands: &[Operand]) -> (r: Result<bool, Error>)
    requires
        old(builder).wf(),
        old(builder).label_count() + 2 <= u64::MAX,
    ensures
        final(builder).wf(),
        match branch_shape(operands@) {
            Some(addr) => r == Ok::<bool, Error>(false)
                && final(builder)@ == old(builder)@ + branch_entries(*layout, BranchKind::Je, addr, old(builder).label_count())
                && final(builder).label_count() == old(builder).label_count() + 2,
            None => r is Err && r->Err_0.kind == ErrorKind::Decode && final(builder)@ == old(builder)@
                && final(builder).label_count() == old(builder).label_count(),
        },
{
    let addr = match branch_operand(operands) {
        Ok(addr) => addr,
        Err(e) => return Err(e),
    };
    cmp_and_branch(layout, builder, BranchKind::Je, addr);
    Ok(false)
}

/// Translates `b.ne label`; the block ends after it.
pub fn emit_bne(layout: &Layout, builder: &mut InstAssembler, operands: &[Operand]) -> (r: Result<bool, Error>)
    requires
        old(builder).wf(),
        old(builder).label_count() + 2 <= u64::MAX,
    ensures
        final(builder).wf(),
        match branch_shape(operands@) {
            Some(addr) => r == Ok::<bool, Error>(false)
                && final(builder)@ == old(builder)@ + branch_entries(*layout, BranchKind::Jne, addr, old(builder).label_count())
                && final(builder).label_count() == old(builder).label_count() + 2,
            None => r is Err && r->Err_0.kind == ErrorKind::Decode && final(builder)@ == old(builder)@
                && final(builder).label_count() == old(builder).label_count(),
        },
{
    let addr = match branch_operand(operands) {
        Ok(addr) => addr,
        Err(e) => return Err(e),
    };
    cmp_and_branch(layout, builder, BranchKind::Jne, addr);
    Ok(false)
}

/// Why `adr` with these operands cannot be translated, if it cannot.
pub open spec fn adr_error(ops: Seq<Operand>) -> Option<ErrorKind> {
    match adr_shape(ops) {
        None => Some(ErrorKind::Decode),
        Some((reg, _)) => if is_mapped(reg) { None } else { Some(ErrorKind::Unmapped) },
    }
}

/// Translates `adr reg, label`: `reg` becomes the program counter plus the displacement.
pub fn emit_adr(layout: &Layout, builder: &mut InstAssembler, operands: &[Operand]) -> (r: Result<bool, Error>)
    requires
        old(builder).wf(),
    ensures
        final(builder).wf(),
        final(builder).label_count() == old(builder).label_count(),
        match adr_error(operands@) {
            None => r == Ok::<bool, Error>(true) && final(builder)@ == old(builder)@ + plain(
                adr_seq(*layout, adr_shape(operands@)->Some_0.0, adr_shape(operands@)->Some_0.1),
            ),
            Some(k) => r is Err && r->Err_0.kind == k && final(builder)@ == old(builder)@,
        },
{
    if operands.len() != 2 {
        return Err(decode_error());
    }
    let reg = match operands[0] {
        Operand::Reg(reg) => reg,
        _ => return Err(decode_error()),
    };
    let relative_addr = match operands[1] {
        Operand::Label(Imm::Unsigned(v)) => v,
        _ => return Err(decode_error()),
    };
    let cell = match layout.reg_cell(reg) {
        Ok(cell) => cell,
        Err(e) => return Err(e),
    };
    let mut regs_handler = crate::regalloc::RegistersHandler::new();
    proof { crate::regalloc::lemma_first_free_small(regs_handler@); }
    let pc_reg = map_x64_to_half_if(regs_handler.take(), reg);
    proof { crate::regalloc::lemma_first_free_small(regs_handler@); }
    let addr_reg = regs_handler.take();
    builder.emit_var_to_reg(layout.pc, pc_reg);
    let insts = vec![
        HostInst::MovImm { dst: addr_reg, imm: relative_addr },
        HostInst::RegReg { op: RegRegOp::Add, dst: pc_reg, src: addr_reg },
    ];
    builder.add_all(&insts);
    builder.emit_set_reg_var(pc_reg, cell);
    proof {
        assert(builder@ =~= old(builder)@ + plain(adr_seq(*layout, reg, relative_addr)));
    }
    Ok(true)
}

/// The number of operands the translator expects of an operation whose code it does not
/// generate yet.
pub open spec fn expects_operands(ops: Seq<Operand>, n: nat) -> Option<ErrorKind> {
    if ops.len() == n { None } else { Some(ErrorKind::Decode) }
}

fn check_operand_count(operands: &[Operand], n: usize) -> (r: Result<bool, Error>)
    ensures
        match expects_operands(operands@, n as nat) {
            None => r == Ok::<bool, Error>(true),
            Some(k) => r is Err && r->Err_0.kind == k,
        },
{
    if operands.len() == n { Ok(true) } else { Err(decode_error()) }
}

/// The destination, first source and second source (a register or an unsigned 64-bit
/// immediate) of a three-operand arithmetic or logical instruction, if the operands have
/// that shape.
pub open spec fn alu_shape(ops: Seq<Operand>) -> Option<(GuestReg, GuestReg, Operand)> {
    if ops.len() != 3 {
        None
    } else {
        match (ops[0], ops[1], ops[2]) {
            (Operand::Reg(d), Operand::Reg(n), Operand::Reg(m)) => Some((d, n, ops[2])),
            (Operand::Reg(d), Operand::Reg(n), Operand::Imm64(Imm::Unsigned(_))) => Some((d, n, ops[2])),
            _ => None,
        }
    }
}

/// Why an arithmetic or logical instruction with these operands cannot be translated,
/// if it cannot.
pub open spec fn alu_error(ops: Seq<Operand>) -> Option<ErrorKind> {
    match alu_shape(ops) {
        None => Some(ErrorKind::Decode),
        Some((d, n, src)) => if is_mapped(d) && is_mapped(n) && (src matches Operand::Reg(m) ==> is_mapped(m)) {
            None
        } else {
            Some(ErrorKind::Unmapped)
        },
    }
}

/// Loads the second source operand into `rcx`.
pub open spec fn source_seq(layout: Layout, src: Operand) -> Seq<HostInst> {
    match src {
        Operand::Reg(m) => var_to_reg_seq(layout.cell_of(m), r64(RCX)),
        Operand::Imm64(Imm::Unsigned(v)) => seq![HostInst::MovImm { dst: r64(RCX), imm: v }],
        _ => Seq::empty(),
    }
}

/// The code of `op d, n, src`: `d` becomes `n op src`; with `set_flags`, the flags of a
/// subtraction are then captured.
pub open spec fn alu_seq(layout: Layout, d: GuestReg, n: GuestReg, src: Operand, op: RegRegOp, set_flags: bool) -> Seq<HostInst> {
    var_to_reg_seq(layout.cell_of(n), r64(RAX)) + source_seq(layout, src) + seq![
        HostInst::RegReg { op, dst: r64(RAX), src: r64(RCX) },
    ] + set_reg_var_seq(r64(RAX), layout.cell_of(d)) + (if set_flags { update_seq(layout.nzcv) } else { Seq::empty() })
}

fn alu_operands(layout: &Layout, operands: &[Operand]) -> (r: Result<(GuestReg, GuestReg, Operand), Error>)
    ensures
        match alu_error(operands@) {
            None => r == Ok::<(GuestReg, GuestReg, Operand), Error>(alu_shape(operands@)->Some_0),
            Some(k) => r is Err && r->Err_0.kind == k,
        },
{
    if operands.len() != 3 {
        return Err(decode_error());
    }
    let (d, n) = match (operands[0], operands[1]) {
        (Operand::Reg(d), Operand::Reg(n)) => (d, n),
        _ => return Err(decode_error()),
    };
    let src = operands[2];
    match src {
        Operand::Reg(m) => {
            if let Err(e) = layout.reg_cell(m) {
                return Err(e);
            }
        },
        Operand::Imm64(Imm::Unsigned(_)) => {},
        _ => return Err(decode_error()),
    }
    if let Err(e) = layout.reg_cell(d) {
        return Err(e);
    }
    if let Err(e) = layout.reg_cell(n) {
        return Err(e);
    }
    Ok((d, n, src))
}

/// Appends the code of `op d, n, src`.
fn emit_alu(
    layout: &Layout,
    builder: &mut InstAssembler,
    operands: &[Operand],
    op: RegRegOp,
    set_flags: bool,
) -> (r: Result<bool, Error>)
    requires
        old(builder).wf(),
    ensures
        final(builder).wf(),
        final(builder).label_count() == old(builder).label_count(),
        match alu_error(operands@) {
            None => r == Ok::<bool, Error>(true) && final(builder)@ == old(builder)@ + plain(
                alu_seq(*layout, alu_shape(operands@)->Some_0.0, alu_shape(operands@)->Some_0.1, alu_shape(operands@)->Some_0.2, op, set_flags),
            ),
            Some(k) => r is Err && r->Err_0.kind == k && final(builder)@ == old(builder)@,
        },
{
    let (d, n, src) = match alu_operands(layout, operands) {
        Ok(v) => v,
        Err(e) => return Err(e),
    };
    let rax = HostReg::gpr64(RAX);
    let rcx = HostReg::gpr64(RCX);
    let n_cell = match layout.reg_cell(n) {
        Ok(c) => c,
        Err(_) => vstd::pervasive::unreached(),
    };
    let d_cell = match layout.reg_cell(d) {
        Ok(c) => c,
        Err(_) => vstd::pervasive::unreached(),
    };
    builder.emit_var_to_reg(n_cell, rax);
    match src {
        Operand::Reg(m) => {
            let m_cell = match layout.reg_cell(m) {
                Ok(c) => c,
                Err(_) => vstd::pervasive::unreached(),
            };
            builder.emit_var_to_reg(m_cell, rcx);
        },
        Operand::Imm64(Imm::Unsigned(v)) => {
            builder.add(HostInst::MovImm { dst: rcx, imm: v });
            assert(seq![Entry { inst: HostInst::MovImm { dst: rcx, imm: v }, label: 0 }] =~= plain(source_seq(*layout, src)));
        },
        _ => vstd::pervasive::unreached(),
    }
    builder.add(HostInst::RegReg { op, dst: rax, src: rcx });
    builder.emit_set_reg_var(rax, d_cell);
    let ghost before_flags = builder@;
    if set_flags {
        NZCV::emit_update(builder, layout.nzcv);
    }
    proof {
        let s = alu_seq(*layout, d, n, src, op, set_flags);
        let flags_part = if set_flags { update_seq(layout.nzcv) } else { Seq::empty() };
        assert(plain(s) =~= plain(var_to_reg_seq(n_cell, r64(RAX))) + plain(source_seq(*layout, src))
            + seq![Entry { inst: HostInst::RegReg { op, dst: r64(RAX), src: r64(RCX) }, label: 0 }]
            + plain(set_reg_var_seq(r64(RAX), d_cell)) + plain(flags_part));
        if !set_flags {
            assert(plain(flags_part) =~= Seq::<Entry>::empty());
        }
        assert(builder@ =~= old(builder)@ + plain(s));
    }
    Ok(true)
}

/// Translates `add d, n, src`: `d` becomes `n + src`, wrapping.
pub fn emit_add(layout: &Layout, builder: &mut InstAssembler, operands: &[Operand]) -> (r: Result<bool, Error>)
    requires
        old(builder).wf(),
    ensures
        final(builder).wf(),
        final(builder).label_count() == old(builder).label_count(),
        match alu_error(operands@) {
            None => r == Ok::<bool, Error>(true) && final(builder)@ == old(builder)@ + plain(
                alu_seq(*layout, alu_shape(operands@)->Some_0.0, alu_shape(operands@)->Some_0.1, alu_shape(operands@)->Some_0.2, RegRegOp::Add, false),
            ),
            Some(k) => r is Err && r->Err_0.kind == k && final(builder)@ == old(builder)@,
        },
{
    emit_alu(layout, builder, operands, RegRegOp::Add, false)
}

/// Translates `sub d, n, src`: `d` becomes `n - src`, wrapping.
pub fn emit_sub(layout: &Layout, builder: &mut InstAssembler, operands: &[Operand]) -> (r: Result<bool, Error>)
    requires
        old(builder).wf(),
    ensures
        final(builder).wf(),
        final(builder).label_count() == old(builder).label_count(),
        match alu_error(operands@) {
            None => r == Ok::<bool, Error>(true) && final(builder)@ == old(builder)@ + plain(
                alu_seq(*layout, alu_shape(operands@)->Some_0.0, alu_shape(operands@)->Some_0.1, alu_shape(operands@)->Some_0.2, RegRegOp::Sub, false),
            ),
            Some(k) => r is Err && r->Err_0.kind == k && final(builder)@ == old(builder)@,
        },
{
    emit_alu(layout, builder, operands, RegRegOp::Sub, false)
}

/// Translates `subs d, n, src`: `d` becomes `n - src` and the flags those of the
/// subtraction.
pub fn emit_subs(layout: &Layout, builder: &mut InstAssembler, operands: &[Operand]) -> (r: Result<bool, Error>)
    requires
        old(builder).wf(),
    ensures
        final(builder).wf(),
        final(builder).label_count() == old(builder).label_count(),
        match alu_error(operands@) {
            None => r == Ok::<bool, Error>(true) && final(builder)@ == old(builder)@ + plain(
                alu_seq(*layout, alu_shape(operands@)->Some_0.0, alu_shape(operands@)->Some_0.1, alu_shape(operands@)->Some_0.2, RegRegOp::Sub, true),
            ),
            Some(k) => r is Err && r->Err_0.kind == k && final(builder)@ == old(builder)@,
        },
{
    emit_alu(layout, builder, operands, RegRegOp::Sub, true)
}

/// Translates `and d, n, src`: `d` becomes the bitwise and of `n` and `src`.
pub fn emit_and(layout: &Layout, builder: &mut InstAssembler, operands: &[Operand]) -> (r: Result<bool, Error>)
    requires
        old(builder).wf(),
    ensures
        final(builder).wf(),
        final(builder).label_count() == old(builder).label_count(),
        match alu_error(operands@) {
            None => r == Ok::<bool, Error>(true) && final(builder)@ == old(builder)@ + plain(
                alu_seq(*layout, alu_shape(operands@)->Some_0.0, alu_shape(operands@)->Some_0.1, alu_shape(operands@)->Some_0.2, RegRegOp::And, false),
            ),
            Some(k) => r is Err && r->Err_0.kind == k && final(builder)@ == old(builder)@,
        },
{
    emit_alu(layout, builder, operands, RegRegOp::And, false)
}

/// `ldp`: checked for its three operands; no code is generated for it, since guest memory
/// is not modelled.
pub fn emit_ldp(layout: &Layout, builder: &mut InstAssembler, operands: &[Operand]) -> (r: Result<bool, Error>)
    ensures
        final(builder)@ == old(builder)@,
        final(builder).label_count() == old(builder).label_count(),
        match expects_operands(operands@, 3) {
            None => r == Ok::<bool, Error>(true),
            Some(k) => r is Err && r->Err_0.kind == k,
        },
{
    check_operand_count(operands, 3)
}

/// `str`: checked for its two operands; no code is generated for it, since guest memory
/// is not modelled.
pub fn emit_str(layout: &Layout, builder: &mut InstAssembler, operands: &[Operand]) -> (r: Result<bool, Error>)
    ensures
        final(builder)@ == old(builder)@,
        final(builder).label_count() == old(builder).label_count(),
        match expects_operands(operands@, 2) {
            None => r == Ok::<bool, Error>(true),
            Some(k) => r is Err && r->Err_0.kind == k,
        },
{
    check_operand_count(operands, 2)
}

/// The destination and source of `mov d, n`, if the operands have that shape.
pub open spec fn mov_shape(ops: Seq<Operand>) -> Option<(GuestReg, GuestReg)> {
    if ops.len() != 2 {
        None
    } else {
        match (ops[0], ops[1]) {
            (Operand::Reg(d), Operand::Reg(n)) => Some((d, n)),
            _ => None,
        }
    }
}

/// Why `mov` with these operands cannot be translated, if it cannot.
pub open spec fn mov_error(ops: Seq<Operand>) -> Option<ErrorKind> {
    match mov_shape(ops) {
        None => Some(ErrorKind::Decode),
        Some((d, n)) => if is_mapped(d) && is_mapped(n) { None } else { Some(ErrorKind::Unmapped) },
    }
}

/// The code of `mov d, n`: the value of `n` is stored into `d`.
pub open spec fn mov_seq(layout: Layout, d: GuestReg, n: GuestReg) -> Seq<HostInst> {
    var_to_reg_seq(layout.cell_of(n), r64(RAX)) + set_reg_var_seq(r64(RAX), layout.cell_of(d))
}

/// Translates `mov d, n`: `d` becomes the value of `n`.
pub fn emit_mov(layout: &Layout, builder: &mut InstAssembler, operands: &[Operand]) -> (r: Result<bool, Error>)
    requires
        old(builder).wf(),
    ensures
        final(builder).wf(),
        final(builder).label_count() == old(builder).label_count(),
        match mov_error(operands@) {
            None => r == Ok::<bool, Error>(true) && final(builder)@ == old(builder)@ + plain(
                mov_seq(*layout, mov_shape(operands@)->Some_0.0, mov_shape(operands@)->Some_0.1),
            ),
            Some(k) => r is Err && r->Err_0.kind == k && final(builder)@ == old(builder)@,
        },
{
    if operands.len() != 2 {
        return Err(decode_error());
    }
    let (d, n) = match (operands[0], operands[1]) {
        (Operand::Reg(d), Operand::Reg(n)) => (d, n),
        _ => return Err(decode_error()),
    };
    let d_cell = match layout.reg_cell(d) {
        Ok(c) => c,
        Err(e) => return Err(e),
    };
    let n_cell = match layout.reg_cell(n) {
        Ok(c) => c,
        Err(e) => return Err(e),
    };
    let rax = HostReg::gpr64(RAX);
    builder.emit_var_to_reg(n_cell, rax);
    builder.emit_set_reg_var(rax, d_cell);
    proof {
        assert(plain(mov_seq(*layout, d, n)) =~= plain(var_to_reg_seq(n_cell, r64(RAX))) + plain(set_reg_var_seq(r64(RAX), d_cell)));
        assert(builder@ =~= old(builder)@ + plain(mov_seq(*layout, d, n)));
    }
    Ok(true)
}

} // verus!
