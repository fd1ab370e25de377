use vstd::prelude::*;
use crate::emitters::{cmn_seq, cmp_seq, negated, op_and_capture_seq, sub_and_update_seq};
use crate::flags::{capture_seq, pack_flag_seq, r16, r64, set_reg_var_seq, update_seq, var_to_reg_seq};
use crate::guest::GuestReg;
use crate::host::{HostReg, Width, RAX, RCX, RDX};
use crate::inst::{HostInst, PlainOp, RegImmOp, RegOp, RegRegOp};
use crate::machine::{bit, exec_seq, label_pos, run, sar, sext, signed, step, wrap, Machine};
use crate::labels::no_branch;
use crate::inst::Entry;
use crate::emitters::{ccmn_entries, test_z_seq};
use crate::labels::{lemma_compare_code_no_branch, lemma_flag_code_no_branch};
use crate::assembler::plain;
use crate::flags::set_var_seq;
use crate::inst::BranchKind;
use crate::context::{block_from, pc_of, ret_entry, translated};
use crate::emitters::{branch_entries, branch_shape, cmp_shape};
use crate::error::ErrorKind;
use crate::guest::{GuestInst, GuestOp, Imm, Operand};
use crate::host::{RDI, RSI};
use crate::labels::lemma_no_branch_concat;
use crate::registers::is_mapped;
use crate::registers::Layout;

verus! {

/// The guest's packed flags with the given negative, zero, carry and overflow flags.
pub open spec fn nzcv_of(n: bool, z: bool, c: bool, v: bool) -> u64 {
    (bit(n) << 31u64) | (bit(z) << 30u64) | (bit(c) << 29u64) | (bit(v) << 28u64)
}

/// The guest architecture's `AddWithCarry(x, y, carry_in)`: the 64-bit result and its
/// flags.
pub open spec fn add_with_carry(x: u64, y: u64, carry_in: u64) -> (u64, u64) {
    let unsigned_sum = x + y + carry_in;
    let signed_sum = signed(x) + signed(y) + carry_in;
    let result = wrap(unsigned_sum);
    (result, nzcv_of((result >> 63u64) == 1, result == 0, result != unsigned_sum, signed(result) != signed_sum))
}

/// The flags of the guest's `cmp x, #y`: `AddWithCarry(x, NOT(y), 1)`.
pub open spec fn guest_cmp_flags(x: u64, y: u64) -> u64 {
    add_with_carry(x, !y, 1).1
}

/// The flags of the guest's `cmn x, #y`: `AddWithCarry(x, y, 0)`.
pub open spec fn guest_cmn_flags(x: u64, y: u64) -> u64 {
    add_with_carry(x, y, 0).1
}

proof fn lemma_exec_concat(m: Machine, a: Seq<HostInst>, b: Seq<HostInst>)
    ensures
        exec_seq(m, a + b) == exec_seq(exec_seq(m, a), b),
    decreases a.len(),
{
    if a.len() > 0 {
        assert((a + b).drop_first() =~= a.drop_first() + b);
        lemma_exec_concat(step(m, a[0]), a.drop_first(), b);
    } else {
        assert(a + b =~= b);
    }
}

proof fn lemma_head_bits(rax: u64, fb: u64, o: u64)
    requires
        fb < 256,
        o <= 1,
    ensures
        ((((rax & !0xff00u64) | (fb << 8u64)) & !0xffu64) | (o & 0xff)) & 0xffff == (fb << 8u64) | o,
{
    assert(((((rax & !0xff00u64) | (fb << 8u64)) & !0xffu64) | (o & 0xff)) & 0xffff == (fb << 8u64) | o)
        by (bit_vector)
        requires
            fb < 256,
            o <= 1,
    ;
}

/// The bits `pack_flag_seq` adds: the image, complemented when asked, masked and shifted.
pub open spec fn packed(ax: u64, mask: i32, shift: i32, invert: bool) -> u64 {
    let img = if invert { (ax ^ 0xffffu64) & 0xffff } else { ax };
    (img & sext(mask)) << ((shift as u64) & 63)
}

proof fn lemma_pack(m: Machine, mask: i32, shift: i32, invert: bool)
    requires
        m.wf(),
        0 < mask,
        0 <= shift < 64,
    ensures
        ({
            let r = exec_seq(m, pack_flag_seq(mask, shift, invert));
            &&& r.wf()
            &&& r.regs[RCX as int] == m.regs[RCX as int] | packed(m.regs[RAX as int] & 0xffff, mask, shift, invert)
            &&& r.regs[RAX as int] == m.regs[RAX as int]
            &&& r.mem == m.mem
            &&& r.calls == m.calls
        }),
{
    let s = pack_flag_seq(mask, shift, invert);
    let ax = m.regs[RAX as int] & 0xffff;
    let m1 = step(m, s[0]);
    assert(m1.regs[RDX as int] == 0) by {
        let d = m.regs[RDX as int];
        assert(d ^ d == 0) by (bit_vector);
    }
    let m2 = step(m1, s[1]);
    assert(m2.regs[RDX as int] == ax) by {
        let a = m.regs[RAX as int];
        assert(((0u64 & !0xffffu64) | ((a & 0xffff) & 0xffff)) == a & 0xffff) by (bit_vector);
    }
    if invert {
        let m3 = step(m2, s[2]);
        assert(m3.regs[RDX as int] == (ax ^ 0xffffu64) & 0xffff) by {
            let a = m.regs[RAX as int];
            assert(sext(-1i32) == 0xffff_ffff_ffff_ffffu64);
            let x = a & 0xffff;
            assert((((x & !0xffffu64) | ((((x & 0xffff) ^ 0xffff_ffff_ffff_ffffu64) & 0xffff) & 0xffff)))
                == (x ^ 0xffffu64) & 0xffff) by (bit_vector)
                requires x == a & 0xffff;
        }
        reveal_with_fuel(exec_seq, 7);
        assert(s.len() == 6);
    } else {
        reveal_with_fuel(exec_seq, 6);
        assert(s.len() == 5);
    }
}

proof fn lemma_capture_bits(s: u64, z: u64, a: u64, p: u64, c: u64, o: u64)
    requires
        s <= 1,
        z <= 1,
        a <= 1,
        p <= 1,
        c <= 1,
        o <= 1,
    ensures
        ({
            let ax = ((((s << 7u64) | (z << 6u64) | (a << 4u64) | (p << 2u64) | 2 | c)) << 8u64) | o;
            &&& 0u64 | ((ax & 0xc000) << 16u64) | ((((ax ^ 0xffffu64) & 0xffff) & 0x100) << 21u64) | ((ax & 1)
                << 28u64) == (s << 31u64) | (z << 30u64) | ((c ^ 1) << 29u64) | (o << 28u64)
            &&& 0u64 | ((ax & 0xc000) << 16u64) | ((ax & 0x100) << 21u64) | ((ax & 1)
                << 28u64) == (s << 31u64) | (z << 30u64) | (c << 29u64) | (o << 28u64)
        }),
{
    assert({
        let ax = ((((s << 7u64) | (z << 6u64) | (a << 4u64) | (p << 2u64) | 2 | c)) << 8u64) | o;
        0u64 | ((ax & 0xc000) << 16u64) | ((ax & 0x100) << 21u64) | ((ax & 1)
            << 28u64) == (s << 31u64) | (z << 30u64) | (c << 29u64) | (o << 28u64)
    }) by (bit_vector)
        requires
            s <= 1,
            z <= 1,
            a <= 1,
            p <= 1,
            c <= 1,
            o <= 1,
    ;
    assert({
        let ax = ((((s << 7u64) | (z << 6u64) | (a << 4u64) | (p << 2u64) | 2 | c)) << 8u64) | o;
        0u64 | ((ax & 0xc000) << 16u64) | ((((ax ^ 0xffffu64) & 0xffff) & 0x100) << 21u64) | ((ax & 1)
            << 28u64) == (s << 31u64) | (z << 30u64) | ((c ^ 1) << 29u64) | (o << 28u64)
    }) by (bit_vector)
        requires
            s <= 1,
            z <= 1,
            a <= 1,
            p <= 1,
            c <= 1,
            o <= 1,
    ;
}

/// After the flag capture, the flag cell holds the host's sign, zero and overflow flags
/// and its carry flag, inverted when asked, packed as the guest's flags; no other cell
/// changes.
pub proof fn lemma_capture_packs_flags(m: Machine, cell: u64, invert: bool)
    requires
        m.wf(),
    ensures
        exec_seq(m, capture_seq(cell, invert)).mem == m.mem.insert(
            cell,
            nzcv_of(m.sf, m.zf, if invert { !m.cf } else { m.cf }, m.of),
        ),
        exec_seq(m, capture_seq(cell, invert)).wf(),
        exec_seq(m, capture_seq(cell, invert)).calls == m.calls,
{
    let head = seq![
        HostInst::Plain { op: PlainOp::Lahf },
        HostInst::Unary { op: RegOp::Seto, reg: HostReg { num: RAX, width: Width::B8 } },
        HostInst::RegReg { op: RegRegOp::Xor, dst: r64(RCX), src: r64(RCX) },
    ];
    let p1 = pack_flag_seq(0xC000, 16, false);
    let p2 = pack_flag_seq(0x100, 21, invert);
    let p3 = pack_flag_seq(1, 28, false);
    let st = set_reg_var_seq(r64(RCX), cell);
    assert(capture_seq(cell, invert) == head + p1 + p2 + p3 + st);
    lemma_exec_concat(m, head + p1 + p2 + p3, st);
    lemma_exec_concat(m, head + p1 + p2, p3);
    lemma_exec_concat(m, head + p1, p2);
    lemma_exec_concat(m, head, p1);
    let fb = m.flags_byte();
    let ax = (fb << 8u64) | bit(m.of);
    let m0 = exec_seq(m, head);
    assert(fb < 256) by {
        let (s, z, a, p, c) = (bit(m.sf), bit(m.zf), bit(m.af), bit(m.pf), bit(m.cf));
        assert((s << 7u64) | (z << 6u64) | (a << 4u64) | (p << 2u64) | 2 | c < 256) by (bit_vector)
            requires s <= 1, z <= 1, a <= 1, p <= 1, c <= 1;
    }
    assert(m0.regs[RAX as int] & 0xffff == ax && m0.regs[RCX as int] == 0 && m0.wf() && m0.mem == m.mem
        && m0.calls == m.calls) by {
        reveal_with_fuel(exec_seq, 4);
        lemma_head_bits(m.regs[RAX as int], fb, bit(m.of));
        let r1 = step(m, head[0]);
        let r2 = step(r1, head[1]);
        let x = r2.regs[RCX as int];
        assert(x ^ x == 0) by (bit_vector);
    }
    lemma_pack(m0, 0xC000, 16, false);
    let m1 = exec_seq(m0, p1);
    lemma_pack(m1, 0x100, 21, invert);
    let m2 = exec_seq(m1, p2);
    lemma_pack(m2, 1, 28, false);
    let m3 = exec_seq(m2, p3);
    lemma_capture_bits(bit(m.sf), bit(m.zf), bit(m.af), bit(m.pf), bit(m.cf), bit(m.of));
    assert(bit(!m.cf) == bit(m.cf) ^ 1) by {
        let c = bit(m.cf);
        assert(c <= 1 ==> (c == 0 <==> (c ^ 1) == 1)) by (bit_vector);
        assert(c <= 1 ==> (c == 1 <==> (c ^ 1) == 0)) by (bit_vector);
    }
    assert((16u64 & 63) == 16 && (21u64 & 63) == 21 && (28u64 & 63) == 28) by (bit_vector);
    assert(sext(0xC000) == 0xc000 && sext(0x100) == 0x100 && sext(1) == 1);
    assert(packed(ax, 0xC000, 16, false) == (ax & 0xc000) << 16u64);
    assert(packed(ax, 0x100, 21, true) == (((ax ^ 0xffffu64) & 0xffff) & 0x100) << 21u64);
    assert(packed(ax, 0x100, 21, false) == (ax & 0x100) << 21u64);
    assert(packed(ax, 1, 28, false) == (ax & 1) << 28u64);
    assert(m1.regs[RAX as int] == m0.regs[RAX as int] && m2.regs[RAX as int] == m0.regs[RAX as int]);
    assert(m3.regs[RCX as int] == 0u64 | packed(ax, 0xC000, 16, false) | packed(ax, 0x100, 21, invert) | packed(ax, 1, 28, false));
    assert(m3.regs[RCX as int] == nzcv_of(m.sf, m.zf, if invert { !m.cf } else { m.cf }, m.of));
    reveal_with_fuel(exec_seq, 3);
}

/// The flags the host sets for `a op v`, for a subtraction or an addition.
pub open spec fn host_flags(m: Machine, op: RegRegOp, a: u64, v: u64) -> Machine {
    if op == RegRegOp::Sub { m.sub_flags(a, v) } else { m.add_flags(a, v) }
}

proof fn lemma_op_then_capture(m: Machine, layout: Layout, reg: GuestReg, op: RegRegOp, v: u64, invert: bool)
    requires
        m.wf(),
        op == RegRegOp::Sub || op == RegRegOp::Add,
    ensures
        ({
            let a = m.mem[layout.cell_of(reg)];
            let f = host_flags(m, op, a, v);
            let r = exec_seq(m, op_and_capture_seq(layout, reg, op, v, invert));
            &&& r.mem == m.mem.insert(layout.nzcv, nzcv_of(f.sf, f.zf, if invert { !f.cf } else { f.cf }, f.of))
            &&& r.wf()
            &&& r.calls == m.calls
        }),
{
    let first = var_to_reg_seq(layout.cell_of(reg), r64(RAX)) + seq![
        HostInst::MovImm { dst: r64(RCX), imm: v },
        HostInst::RegReg { op, dst: r64(RAX), src: r64(RCX) },
    ];
    assert(op_and_capture_seq(layout, reg, op, v, invert) == first + capture_seq(layout.nzcv, invert));
    lemma_exec_concat(m, first, capture_seq(layout.nzcv, invert));
    let m1 = exec_seq(m, first);
    let a = m.mem[layout.cell_of(reg)];
    let f = host_flags(m, op, a, v);
    assert(m1.wf() && m1.mem == m.mem && m1.calls == m.calls && m1.sf == f.sf && m1.zf == f.zf
        && m1.cf == f.cf && m1.of == f.of) by {
        reveal_with_fuel(exec_seq, 5);
    }
    lemma_capture_packs_flags(m1, layout.nzcv, invert);
}

proof fn lemma_sub_then_update(m: Machine, layout: Layout, reg: GuestReg, v: u64)
    requires
        m.wf(),
    ensures
        ({
            let a = m.mem[layout.cell_of(reg)];
            let f = m.sub_flags(a, v);
            &&& exec_seq(m, sub_and_update_seq(layout, reg, v)).mem == m.mem.insert(
                layout.nzcv,
                nzcv_of(f.sf, f.zf, !f.cf, f.of),
            )
            &&& exec_seq(m, sub_and_update_seq(layout, reg, v)).wf()
            &&& exec_seq(m, sub_and_update_seq(layout, reg, v)).calls == m.calls
        }),
{
    lemma_op_then_capture(m, layout, reg, RegRegOp::Sub, v, true);
}

proof fn lemma_not_bits(v: u64)
    ensures
        !v == u64::MAX - v,
{
    assert(!v == 0xffff_ffff_ffff_ffffu64 - v) by (bit_vector);
}

/// The code of `cmp reg, #imm` leaves in the flag cell exactly the flags the guest
/// architecture defines for it, `AddWithCarry(x, NOT(imm), 1)` with `x` the register's
/// value, and writes no other cell.
pub proof fn lemma_cmp_sets_guest_flags(m: Machine, layout: Layout, reg: GuestReg, imm: u64)
    requires
        m.wf(),
    ensures
        exec_seq(m, cmp_seq(layout, reg, imm)).mem == m.mem.insert(
            layout.nzcv,
            guest_cmp_flags(m.mem[layout.cell_of(reg)], imm),
        ),
        exec_seq(m, cmp_seq(layout, reg, imm)).wf(),
        exec_seq(m, cmp_seq(layout, reg, imm)).calls == m.calls,
{
    let a = m.mem[layout.cell_of(reg)];
    lemma_sub_then_update(m, layout, reg, imm);
    lemma_not_bits(imm);
    let f = m.sub_flags(a, imm);
    let sum = a + !imm + 1;
    let result = wrap(sum);
    assert(result == wrap(a - imm));
    assert((result != sum) == !f.cf);
    assert(signed(!imm) == -signed(imm) - 1);
    assert((signed(result) != signed(a) + signed(!imm) + 1) == f.of);
}

/// The code of `cmn reg, #imm` leaves in the flag cell exactly the flags the guest
/// architecture defines for it, `AddWithCarry(x, imm, 0)`, for every immediate the
/// emitter accepts, and writes no other cell.
pub proof fn lemma_cmn_sets_guest_flags(m: Machine, layout: Layout, reg: GuestReg, imm: u64)
    requires
        m.wf(),
        imm <= i64::MAX,
    ensures
        exec_seq(m, cmn_seq(layout, reg, imm)).mem == m.mem.insert(
            layout.nzcv,
            guest_cmn_flags(m.mem[layout.cell_of(reg)], imm),
        ),
        exec_seq(m, cmn_seq(layout, reg, imm)).wf(),
        exec_seq(m, cmn_seq(layout, reg, imm)).calls == m.calls,
{
    if imm == 0 {
        let a = m.mem[layout.cell_of(reg)];
        lemma_op_then_capture(m, layout, reg, RegRegOp::Add, 0, false);
        assert(wrap(a + 0) == a);
        assert(i64::MIN <= signed(a) + signed(0) <= i64::MAX);
    } else {
        let a = m.mem[layout.cell_of(reg)];
        let v = negated(imm);
        lemma_sub_then_update(m, layout, reg, v);
        let f = m.sub_flags(a, v);
        let sum = a + imm;
        let result = wrap(sum);
        assert(v == 0x1_0000_0000_0000_0000 - imm);
        assert(result == wrap(a - v));
        assert((result != sum) == !f.cf);
        assert(signed(v) == -signed(imm));
        assert((signed(result) != signed(a) + signed(imm)) == f.of);
    }
}

/// Running a stretch of code without jumps has the effect of its instructions in order.
pub proof fn lemma_run_straight(code: Seq<Entry>, pc: int, m: Machine, s: Seq<HostInst>, fuel: nat)
    requires
        0 <= pc,
        pc + s.len() <= code.len(),
        no_branch(s),
        forall|i: int| 0 <= i < s.len() ==> (#[trigger] code[pc + i]).inst == s[i],
        fuel >= s.len(),
    ensures
        run(code, pc, m, fuel) == run(code, pc + s.len(), exec_seq(m, s), (fuel - s.len()) as nat),
    decreases s.len(),
{
    if s.len() > 0 {
        assert(code[pc + 0].inst == s[0]);
        assert(!(s[0] is Branch));
        let rest = s.drop_first();
        assert forall|i: int| 0 <= i < rest.len() implies (#[trigger] code[(pc + 1) + i]).inst == rest[i] by {
            assert(code[pc + (i + 1)].inst == s[i + 1]);
            assert(pc + (i + 1) == (pc + 1) + i);
        }
        assert forall|i: int| 0 <= i < rest.len() implies !(#[trigger] rest[i] is Branch) by {
            assert(rest[i] == s[i + 1]);
        }
        lemma_run_straight(code, pc + 1, step(m, s[0]), rest, (fuel - 1) as nat);
    }
}

/// The zero-flag test leaves the host zero flag set exactly when the guest's zero flag
/// (bit 30 of the flag cell) is set, and writes no memory.
pub proof fn lemma_test_z(m: Machine, layout: Layout)
    requires
        m.wf(),
    ensures
        exec_seq(m, test_z_seq(layout)).mem == m.mem,
        exec_seq(m, test_z_seq(layout)).zf == ((m.mem[layout.nzcv] >> 30u64) & 1 == 1),
        exec_seq(m, test_z_seq(layout)).calls == m.calls,
        exec_seq(m, test_z_seq(layout)).wf(),
{
    reveal_with_fuel(exec_seq, 6);
    let w = m.mem[layout.nzcv];
    assert((30u64 & 63) == 30) by (bit_vector);
    assert(sar(w, 30) & 1 == (w >> 30u64) & 1) by (bit_vector);
    assert(sext(1) == 1);
    let z = (w >> 30u64) & 1;
    assert(z <= 1) by (bit_vector) requires z == (w >> 30u64) & 1;
}

/// The flag image with `nzcv` in bits 31..28.
pub open spec fn literal_flags(nzcv: u64) -> u64 {
    (nzcv * 0x1000_0000) as u64
}

proof fn lemma_set_var(m: Machine, value: u64, cell: u64)
    requires
        m.wf(),
    ensures
        exec_seq(m, set_var_seq(value, cell)).mem == m.mem.insert(cell, value),
        exec_seq(m, set_var_seq(value, cell)).calls == m.calls,
        exec_seq(m, set_var_seq(value, cell)).wf(),
{
    reveal_with_fuel(exec_seq, 4);
}

/// When the condition of `ccmn reg, #imm, #nzcv, ne` is false, that is the guest's zero
/// flag is set, its code leaves the flag cell holding exactly `nzcv` in bits 31..28,
/// whatever the register holds, writes no other cell, and runs to its end.
pub proof fn lemma_ccmn_false_path_sets_literal(
    m: Machine,
    layout: Layout,
    reg: GuestReg,
    imm: u64,
    nzcv: u64,
    count: u64,
    fuel: nat,
)
    requires
        m.wf(),
        nzcv < 16,
        count + 2 <= u64::MAX,
        (m.mem[layout.nzcv] >> 30u64) & 1 == 1,
        fuel >= ccmn_entries(layout, reg, imm, nzcv, count).len(),
    ensures
        run(ccmn_entries(layout, reg, imm, nzcv, count), 0, m, fuel).mem == m.mem.insert(
            layout.nzcv,
            literal_flags(nzcv),
        ),
{
    let es = ccmn_entries(layout, reg, imm, nzcv, count);
    let value = literal_flags(nzcv);
    let a = test_z_seq(layout);
    let b = set_var_seq(value, layout.nzcv);
    let c = cmn_seq(layout, reg, imm);
    let na = a.len() as int;
    let nb = b.len() as int;
    let nc = c.len() as int;
    lemma_compare_code_no_branch(layout, reg, negated(imm));
    lemma_flag_code_no_branch(layout.nzcv, value, r64(RAX));
    assert(na == 5 && nb == 3);
    assert(es.len() == na + nb + nc + 4);
    assert forall|i: int| 0 <= i < na implies (#[trigger] es[0 + i]).inst == a[i] by {
        assert(es[i] == plain(a)[i]);
    }
    lemma_run_straight(es, 0, m, a, fuel);
    let m1 = exec_seq(m, a);
    lemma_test_z(m, layout);
    let f1 = (fuel - na) as nat;
    assert(es[na].inst == HostInst::Branch { kind: BranchKind::Jne, label: (count + 1) as u64 });
    assert(run(es, na, m1, f1) == run(es, na + 1, m1, (f1 - 1) as nat));
    assert forall|i: int| 0 <= i < nb implies (#[trigger] es[(na + 1) + i]).inst == b[i] by {
        assert(es[na + 1 + i] == plain(b)[i]);
    }
    lemma_run_straight(es, na + 1, m1, b, (f1 - 1) as nat);
    let m2 = exec_seq(m1, b);
    lemma_set_var(m1, value, layout.nzcv);
    let f2 = (f1 - 1 - nb) as nat;
    let end = (count + 2) as u64;
    let last = es.len() - 1;
    assert(es[na + 1 + nb].inst == HostInst::Branch { kind: BranchKind::Jmp, label: end });
    assert(es[last].label == end);
    assert forall|j: int| 0 <= j < es.len() && #[trigger] es[j].label == end implies j == last by {
        if j < na {
            assert(es[j] == plain(a)[j]);
        } else if na < j < na + 1 + nb {
            assert(es[j] == plain(b)[j - na - 1]);
        } else if na + nb + 3 <= j < na + nb + 3 + nc {
            assert(es[j] == plain(c)[j - na - nb - 3]);
        }
    }
    assert(label_pos(es, end) == last);
    assert(run(es, na + 1 + nb, m2, f2) == run(es, last, m2, (f2 - 1) as nat));
    assert(es[last].inst == HostInst::Plain { op: PlainOp::Nop });
    assert(run(es, last, m2, (f2 - 1) as nat) == run(es, last + 1, m2, (f2 - 2) as nat));
}

/// When the condition of `ccmn reg, #imm, #nzcv, ne` holds, that is the guest's zero
/// flag is clear, its code leaves in the flag cell exactly the flags of `cmn reg, #imm`,
/// `AddWithCarry(x, imm, 0)`, for every immediate the emitter accepts, and writes no
/// other cell.
pub proof fn lemma_ccmn_true_path_compares(
    m: Machine,
    layout: Layout,
    reg: GuestReg,
    imm: u64,
    nzcv: u64,
    count: u64,
    fuel: nat,
)
    requires
        m.wf(),
        nzcv < 16,
        imm <= i64::MAX,
        count + 2 <= u64::MAX,
        (m.mem[layout.nzcv] >> 30u64) & 1 == 0,
        fuel >= ccmn_entries(layout, reg, imm, nzcv, count).len(),
    ensures
        run(ccmn_entries(layout, reg, imm, nzcv, count), 0, m, fuel).mem == m.mem.insert(
            layout.nzcv,
            guest_cmn_flags(m.mem[layout.cell_of(reg)], imm),
        ),
{
    let es = ccmn_entries(layout, reg, imm, nzcv, count);
    let value = literal_flags(nzcv);
    let a = test_z_seq(layout);
    let b = set_var_seq(value, layout.nzcv);
    let c = cmn_seq(layout, reg, imm);
    let na = a.len() as int;
    let nb = b.len() as int;
    let nc = c.len() as int;
    lemma_compare_code_no_branch(layout, reg, negated(imm));
    lemma_flag_code_no_branch(layout.nzcv, value, r64(RAX));
    assert(na == 5 && nb == 3);
    assert(es.len() == na + nb + nc + 4);
    assert forall|i: int| 0 <= i < na implies (#[trigger] es[0 + i]).inst == a[i] by {
        assert(es[i] == plain(a)[i]);
    }
    lemma_run_straight(es, 0, m, a, fuel);
    let m1 = exec_seq(m, a);
    lemma_test_z(m, layout);
    let f1 = (fuel - na) as nat;
    let compare = (count + 1) as u64;
    let at = na + nb + 2;
    assert(es[na].inst == HostInst::Branch { kind: BranchKind::Jne, label: compare });
    assert(es[at].label == compare);
    assert forall|j: int| 0 <= j < es.len() && #[trigger] es[j].label == compare implies j == at by {
        if j < na {
            assert(es[j] == plain(a)[j]);
        } else if na < j < na + 1 + nb {
            assert(es[j] == plain(b)[j - na - 1]);
        } else if na + nb + 3 <= j < na + nb + 3 + nc {
            assert(es[j] == plain(c)[j - na - nb - 3]);
        }
    }
    assert(label_pos(es, compare) == at);
    assert(run(es, na, m1, f1) == run(es, at, m1, (f1 - 1) as nat));
    assert(es[at].inst == HostInst::Plain { op: PlainOp::Nop });
    assert(run(es, at, m1, (f1 - 1) as nat) == run(es, at + 1, m1, (f1 - 2) as nat));
    assert forall|i: int| 0 <= i < nc implies (#[trigger] es[(at + 1) + i]).inst == c[i] by {
        assert(es[at + 1 + i] == plain(c)[i]);
    }
    lemma_run_straight(es, at + 1, m1, c, (f1 - 2) as nat);
    let m2 = exec_seq(m1, c);
    lemma_cmn_sets_guest_flags(m1, layout, reg, imm);
    let last = es.len() - 1;
    assert(es[last].inst == HostInst::Plain { op: PlainOp::Nop });
    assert(run(es, last, m2, (f1 - 2 - nc) as nat) == run(es, last + 1, m2, (f1 - 3 - nc) as nat));
}

/// The calling tail of a taken branch: the displacement and context go to `rsi` and
/// `rdi`, and the branch entry routine is called with them.
proof fn lemma_call_tail(m: Machine, layout: Layout, target: u64)
    requires
        m.wf(),
    ensures
        ({
            let s = seq![
                HostInst::MovImm { dst: r64(RSI), imm: target },
                HostInst::MovImm { dst: r64(RDI), imm: layout.context },
                HostInst::Unary { op: RegOp::Push, reg: r64(RAX) },
                HostInst::MovImm { dst: r64(RAX), imm: layout.branch_entry },
                HostInst::Unary { op: RegOp::Call, reg: r64(RAX) },
                HostInst::Unary { op: RegOp::Pop, reg: r64(RAX) },
                HostInst::Plain { op: PlainOp::Nop },
                HostInst::Plain { op: PlainOp::Ret },
            ];
            &&& no_branch(s)
            &&& exec_seq(m, s).calls == m.calls.push((layout.context, target))
            &&& exec_seq(m, s).mem == m.mem
        }),
{
    reveal_with_fuel(exec_seq, 9);
}

/// The guest block `cmp reg, #imm; b.eq target` sets the guest zero flag exactly when
/// the register equals `imm`, and then, and only then, hands the target to the branch
/// entry routine; otherwise control falls through to the block's return.
pub proof fn lemma_cmp_beq_block(
    program: Seq<Option<GuestInst>>,
    layout: Layout,
    reg: GuestReg,
    imm: u64,
    target: u64,
    m: Machine,
    fuel: nat,
)
    requires
        program.len() == 2,
        program[0] matches Some(i) && i@ == (GuestOp::Cmp, seq![Operand::Reg(reg), Operand::Imm64(Imm::Unsigned(imm))]),
        program[1] matches Some(i) && i@ == (GuestOp::BEq, seq![Operand::Label(Imm::Unsigned(target))]),
        is_mapped(reg),
        layout.wf(),
        m.wf(),
        fuel >= 100,
    ensures
        translated(program, layout, 0) is Ok,
        ({
            let code = translated(program, layout, 0)->Ok_0;
            let r = run(code, 0, m, fuel);
            let equal = m.mem[layout.cell_of(reg)] == imm;
            &&& (r.mem[layout.nzcv] >> 30u64) & 1 == (if equal { 1u64 } else { 0u64 })
            &&& r.calls == (if equal { m.calls.push((layout.context, target)) } else { m.calls })
            &&& r.mem == m.mem.insert(layout.pc, pc_of(0)).insert(layout.nzcv, guest_cmp_flags(m.mem[layout.cell_of(reg)], imm))
                .insert(layout.pc, pc_of(1))
        }),
{
    let a = m.mem[layout.cell_of(reg)];
    reveal_with_fuel(block_from, 3);
    let ops0 = seq![Operand::Reg(reg), Operand::Imm64(Imm::Unsigned(imm))];
    let ops1 = seq![Operand::Label(Imm::Unsigned(target))];
    assert(cmp_shape(ops0) == Some((reg, imm)));
    assert(branch_shape(ops1) == Some(target));
    let set0 = set_var_seq(pc_of(0), layout.pc);
    let set1 = set_var_seq(pc_of(1), layout.pc);
    let cmp = cmp_seq(layout, reg, imm);
    let br = branch_entries(layout, BranchKind::Je, target, 0);
    let here0 = plain(set0) + plain(cmp);
    let here1 = plain(set1) + br;
    assert(block_from(program, layout, 1, 0) == Ok::<Seq<Entry>, ErrorKind>(here1));
    assert(block_from(program, layout, 0, 0) == Ok::<Seq<Entry>, ErrorKind>(here0 + here1));
    let code = (here0 + here1).push(ret_entry());
    assert(translated(program, layout, 0) == Ok::<Seq<Entry>, ErrorKind>(code));

    lemma_flag_code_no_branch(layout.pc, pc_of(0), r64(RAX));
    lemma_flag_code_no_branch(layout.pc, pc_of(1), r64(RAX));
    lemma_compare_code_no_branch(layout, reg, imm);
    let n0 = set0.len() as int;
    let nc = cmp.len() as int;
    let n1 = set1.len() as int;
    let nt = test_z_seq(layout).len() as int;
    assert(n0 == 3 && n1 == 3 && nt == 5);
    // the compare and the program counter updates
    let straight = set0 + cmp + set1 + test_z_seq(layout);
    lemma_no_branch_concat(set0, cmp);
    lemma_no_branch_concat(set0 + cmp, set1);
    lemma_no_branch_concat(set0 + cmp + set1, test_z_seq(layout));
    assert forall|i: int| 0 <= i < straight.len() implies (#[trigger] code[0 + i]).inst == straight[i] by {
        if i < n0 {
            assert(code[i] == plain(set0)[i]);
            assert(straight[i] == set0[i]);
        } else if i < n0 + nc {
            assert(code[i] == plain(cmp)[i - n0]);
            assert(straight[i] == cmp[i - n0]);
        } else if i < n0 + nc + n1 {
            assert(code[i] == plain(set1)[i - n0 - nc]);
            assert(straight[i] == set1[i - n0 - nc]);
        } else {
            assert(code[i] == plain(test_z_seq(layout))[i - n0 - nc - n1]);
            assert(straight[i] == test_z_seq(layout)[i - n0 - nc - n1]);
        }
    }
    lemma_run_straight(code, 0, m, straight, fuel);
    lemma_exec_concat(m, set0 + cmp + set1, test_z_seq(layout));
    lemma_exec_concat(m, set0 + cmp, set1);
    lemma_exec_concat(m, set0, cmp);
    lemma_set_var(m, pc_of(0), layout.pc);
    let m0 = exec_seq(m, set0);
    lemma_cmp_sets_guest_flags(m0, layout, reg, imm);
    let m1 = exec_seq(m0, cmp);
    lemma_set_var(m1, pc_of(1), layout.pc);
    let m2 = exec_seq(m1, set1);
    lemma_test_z(m2, layout);
    let m3 = exec_seq(m2, test_z_seq(layout));
    assert(exec_seq(m, straight) == m3);
    assert(run(code, 0, m, fuel) == run(code, straight.len() as int, m3, (fuel - straight.len()) as nat));
    lemma_sub_then_update(m0, layout, reg, imm);
    assert(m2.mem[layout.nzcv] == guest_cmp_flags(a, imm));
    assert(((guest_cmp_flags(a, imm) >> 30u64) & 1 == 1) == (a == imm)) by {
        lemma_not_bits(imm);
        let f = guest_cmp_flags(a, imm);
        let r = wrap(a + !imm + 1);
        assert(r == 0 <==> a == imm);
        let (n, z, c, v) = (bit((r >> 63u64) == 1), bit(r == 0), bit(r != a + !imm + 1), bit(signed(r) != signed(a) + signed(!imm) + 1));
        assert(f == (n << 31u64) | (z << 30u64) | (c << 29u64) | (v << 28u64));
        assert(((((n << 31u64) | (z << 30u64) | (c << 29u64) | (v << 28u64)) >> 30u64) & 1) == z) by (bit_vector)
            requires n <= 1, z <= 1, c <= 1, v <= 1;
    }
    let zb = (guest_cmp_flags(a, imm) >> 30u64) & 1;
    assert(zb <= 1) by (bit_vector) requires zb == (guest_cmp_flags(a, imm) >> 30u64) & 1;
    assert(m3.calls == m.calls);
    let p = straight.len() as int;
    let call = 1u64;
    let end = 2u64;
    let f0 = (fuel - p) as nat;
    assert(code[p].inst == HostInst::Branch { kind: BranchKind::Je, label: call });
    assert(code[p + 1].inst == HostInst::Branch { kind: BranchKind::Jmp, label: end });
    let last = code.len() - 1;
    assert(code[p + 2].label == call);
    assert(code[last - 1].label == end);
    assert forall|j: int| 0 <= j < code.len() && (#[trigger] code[j].label == call || code[j].label == end)
        implies (j == p + 2 && code[j].label == call) || (j == last - 1 && code[j].label == end) by {
        if j < n0 {
            assert(code[j] == plain(set0)[j]);
        } else if j < n0 + nc {
            assert(code[j] == plain(cmp)[j - n0]);
        } else if j < n0 + nc + n1 {
            assert(code[j] == plain(set1)[j - n0 - nc]);
        } else if j < p {
            assert(code[j] == plain(test_z_seq(layout))[j - n0 - nc - n1]);
        }
    }
    assert(label_pos(code, call) == p + 2);
    assert(label_pos(code, end) == last - 1);
    let tail = seq![
        HostInst::MovImm { dst: r64(RSI), imm: target },
        HostInst::MovImm { dst: r64(RDI), imm: layout.context },
        HostInst::Unary { op: RegOp::Push, reg: r64(RAX) },
        HostInst::MovImm { dst: r64(RAX), imm: layout.branch_entry },
        HostInst::Unary { op: RegOp::Call, reg: r64(RAX) },
        HostInst::Unary { op: RegOp::Pop, reg: r64(RAX) },
        HostInst::Plain { op: PlainOp::Nop },
        HostInst::Plain { op: PlainOp::Ret },
    ];
    lemma_call_tail(m3, layout, target);
    assert(code.len() == p + 2 + tail.len());
    if a == imm {
        assert(run(code, p, m3, f0) == run(code, p + 2, m3, (f0 - 1) as nat));
        assert forall|i: int| 0 <= i < tail.len() implies (#[trigger] code[(p + 2) + i]).inst == tail[i] by {
        }
        lemma_run_straight(code, p + 2, m3, tail, (f0 - 1) as nat);
        let e = exec_seq(m3, tail);
        assert(run(code, p + 2 + tail.len(), e, (f0 - 1 - tail.len()) as nat) == e);
        assert(run(code, 0, m, fuel) == e);
    } else {
        assert(run(code, p, m3, f0) == run(code, p + 1, m3, (f0 - 1) as nat));
        assert(run(code, p + 1, m3, (f0 - 1) as nat) == run(code, last - 1, m3, (f0 - 2) as nat));
        let tail2 = tail.subrange(6, 8);
        assert(no_branch(tail2));
        assert forall|i: int| 0 <= i < tail2.len() implies (#[trigger] code[(last - 1) + i]).inst == tail2[i] by {
        }
        lemma_run_straight(code, last - 1, m3, tail2, (f0 - 2) as nat);
        reveal_with_fuel(exec_seq, 3);
        let e = exec_seq(m3, tail2);
        assert(e.mem == m3.mem && e.calls == m3.calls);
        assert(run(code, last - 1 + tail2.len(), e, (f0 - 2 - tail2.len()) as nat) == e);
        assert(run(code, 0, m, fuel) == e);
    }
}

} // verus!
