use vstd::prelude::*;
use crate::assembler::{is_bound, labels_resolved, plain};
use crate::emitters::{
    alu_seq, alu_shape, mov_seq, mov_shape, negated, op_and_capture_seq, source_seq,
    adr_error, adr_seq, adr_shape, branch_entries, branch_shape, ccmn_entries, ccmn_error,
    ccmn_shape, cmn_seq, cmp_error, cmp_seq, cmp_shape, sub_and_update_seq, test_z_seq,
};
use crate::flags::{capture_seq, get_z_seq, pack_flag_seq, set_reg_var_seq, set_var_seq, update_seq, var_to_reg_seq};
use crate::guest::{GuestOp, GuestReg, Operand};
use crate::host::HostReg;
use crate::inst::{BranchKind, Entry, HostInst, RegRegOp};
use crate::parser::{inst_entries, inst_error};
use crate::registers::Layout;

verus! {

/// Whether no instruction of `s` is a branch.
pub open spec fn no_branch(s: Seq<HostInst>) -> bool {
    forall|i: int| 0 <= i < s.len() ==> !(#[trigger] s[i] is Branch)
}

pub proof fn lemma_plain_resolved(s: Seq<HostInst>)
    requires
        no_branch(s),
    ensures
        labels_resolved(plain(s)),
{
    assert forall|i: int| 0 <= i < plain(s).len() implies !(#[trigger] plain(s)[i].inst is Branch) by {
        assert(plain(s)[i].inst == s[i]);
    }
}

/// Two blocks whose branches all land within themselves still do when joined.
pub proof fn lemma_resolved_concat(a: Seq<Entry>, b: Seq<Entry>)
    requires
        labels_resolved(a),
        labels_resolved(b),
    ensures
        labels_resolved(a + b),
{
    let ab = a + b;
    assert forall|i: int| 0 <= i < ab.len() implies (#[trigger] ab[i].inst matches HostInst::Branch { label, .. }
        ==> is_bound(ab, label)) by {
        if let HostInst::Branch { label, .. } = ab[i].inst {
            if i < a.len() {
                assert(a[i] == ab[i]);
                let j = choose|j: int| 0 <= j < a.len() && a[j].label == label;
                assert(ab[j] == a[j]);
            } else {
                assert(b[i - a.len()] == ab[i]);
                let j = choose|j: int| 0 <= j < b.len() && b[j].label == label;
                assert(ab[j + a.len()] == b[j]);
            }
        }
    }
}

pub proof fn lemma_no_branch_concat(a: Seq<HostInst>, b: Seq<HostInst>)
    requires
        no_branch(a),
        no_branch(b),
    ensures
        no_branch(a + b),
{
    assert forall|i: int| 0 <= i < (a + b).len() implies !(#[trigger] (a + b)[i] is Branch) by {
        if i < a.len() {
            assert((a + b)[i] == a[i]);
        } else {
            assert((a + b)[i] == b[i - a.len()]);
        }
    }
}

pub proof fn lemma_flag_code_no_branch(cell: u64, value: u64, reg: HostReg)
    ensures
        no_branch(var_to_reg_seq(cell, reg)),
        no_branch(set_var_seq(value, cell)),
        no_branch(set_reg_var_seq(reg, cell)),
        no_branch(update_seq(cell)),
        no_branch(capture_seq(cell, false)),
        no_branch(get_z_seq(cell, reg)),
{
    lemma_capture_no_branch(cell, true);
    lemma_capture_no_branch(cell, false);
    lemma_no_branch_concat(var_to_reg_seq(cell, reg), seq![
        HostInst::RegImm { op: crate::inst::RegImmOp::Sar, dst: reg, imm: 30 },
        HostInst::RegImm { op: crate::inst::RegImmOp::And8, dst: reg, imm: 1 },
    ]);
}

proof fn lemma_capture_no_branch(cell: u64, invert: bool)
    ensures
        no_branch(capture_seq(cell, invert)),
{
    assert(no_branch(pack_flag_seq(0xC000, 16, false)));
    assert(no_branch(pack_flag_seq(0x100, 21, invert)));
    assert(no_branch(pack_flag_seq(1, 28, false)));
    let h = seq![
        HostInst::Plain { op: crate::inst::PlainOp::Lahf },
        HostInst::Unary { op: crate::inst::RegOp::Seto, reg: HostReg { num: crate::host::RAX, width: crate::host::Width::B8 } },
        HostInst::RegReg { op: crate::inst::RegRegOp::Xor, dst: crate::flags::r64(crate::host::RCX), src: crate::flags::r64(crate::host::RCX) },
    ];
    assert(no_branch(h));
    lemma_no_branch_concat(h, pack_flag_seq(0xC000, 16, false));
    lemma_no_branch_concat(h + pack_flag_seq(0xC000, 16, false), pack_flag_seq(0x100, 21, invert));
    lemma_no_branch_concat(h + pack_flag_seq(0xC000, 16, false) + pack_flag_seq(0x100, 21, invert), pack_flag_seq(1, 28, false));
    assert(no_branch(set_reg_var_seq(crate::flags::r64(crate::host::RCX), cell)));
    lemma_no_branch_concat(
        h + pack_flag_seq(0xC000, 16, false) + pack_flag_seq(0x100, 21, invert) + pack_flag_seq(1, 28, false),
        set_reg_var_seq(crate::flags::r64(crate::host::RCX), cell),
    );
}

pub proof fn lemma_compare_code_no_branch(layout: Layout, reg: GuestReg, imm: u64)
    ensures
        no_branch(sub_and_update_seq(layout, reg, imm)),
        no_branch(cmn_seq(layout, reg, imm)),
        no_branch(test_z_seq(layout)),
        no_branch(adr_seq(layout, reg, imm)),
{
    let rax = crate::flags::r64(crate::host::RAX);
    let rcx = crate::flags::r64(crate::host::RCX);
    lemma_flag_code_no_branch(layout.cell_of(reg), 0, rax);
    lemma_flag_code_no_branch(layout.nzcv, 0, rax);
    lemma_flag_code_no_branch(layout.pc, 0, rax);
    lemma_op_capture_no_branch(layout, reg, RegRegOp::Sub, imm, true);
    lemma_op_capture_no_branch(layout, reg, RegRegOp::Sub, negated(imm), true);
    lemma_op_capture_no_branch(layout, reg, RegRegOp::Add, 0, false);
    lemma_no_branch_concat(get_z_seq(layout.nzcv, rax), seq![HostInst::RegImm { op: crate::inst::RegImmOp::Cmp8, dst: rax, imm: 1 }]);
    let mid2 = seq![
        HostInst::MovImm { dst: rcx, imm },
        HostInst::RegReg { op: RegRegOp::Add, dst: rax, src: rcx },
    ];
    lemma_no_branch_concat(var_to_reg_seq(layout.pc, rax), mid2);
    lemma_no_branch_concat(var_to_reg_seq(layout.pc, rax) + mid2, set_reg_var_seq(rax, layout.cell_of(reg)));
}

proof fn lemma_op_capture_no_branch(layout: Layout, reg: GuestReg, op: RegRegOp, v: u64, invert: bool)
    ensures
        no_branch(op_and_capture_seq(layout, reg, op, v, invert)),
{
    let rax = crate::flags::r64(crate::host::RAX);
    let rcx = crate::flags::r64(crate::host::RCX);
    lemma_flag_code_no_branch(layout.cell_of(reg), 0, rax);
    lemma_flag_code_no_branch(layout.nzcv, 0, rax);
    let mid = seq![
        HostInst::MovImm { dst: rcx, imm: v },
        HostInst::RegReg { op, dst: rax, src: rcx },
    ];
    lemma_no_branch_concat(var_to_reg_seq(layout.cell_of(reg), rax), mid);
    lemma_no_branch_concat(var_to_reg_seq(layout.cell_of(reg), rax) + mid, capture_seq(layout.nzcv, invert));
}

proof fn lemma_move_code_no_branch(layout: Layout, d: GuestReg, n: GuestReg, src: Operand, op: RegRegOp, set_flags: bool)
    ensures
        no_branch(alu_seq(layout, d, n, src, op, set_flags)),
        no_branch(mov_seq(layout, d, n)),
{
    let rax = crate::flags::r64(crate::host::RAX);
    let rcx = crate::flags::r64(crate::host::RCX);
    lemma_flag_code_no_branch(layout.cell_of(n), 0, rax);
    lemma_flag_code_no_branch(layout.cell_of(d), 0, rax);
    lemma_flag_code_no_branch(layout.nzcv, 0, rax);
    let src_code = source_seq(layout, src);
    if let Operand::Reg(m) = src {
        lemma_flag_code_no_branch(layout.cell_of(m), 0, rcx);
    }
    assert(no_branch(src_code));
    let op_code = seq![HostInst::RegReg { op, dst: rax, src: rcx }];
    let flags_code = if set_flags { update_seq(layout.nzcv) } else { Seq::empty() };
    assert(no_branch(flags_code));
    lemma_no_branch_concat(var_to_reg_seq(layout.cell_of(n), rax), src_code);
    lemma_no_branch_concat(var_to_reg_seq(layout.cell_of(n), rax) + src_code, op_code);
    lemma_no_branch_concat(var_to_reg_seq(layout.cell_of(n), rax) + src_code + op_code, set_reg_var_seq(rax, layout.cell_of(d)));
    lemma_no_branch_concat(var_to_reg_seq(layout.cell_of(n), rax) + src_code + op_code + set_reg_var_seq(rax, layout.cell_of(d)), flags_code);
    lemma_no_branch_concat(var_to_reg_seq(layout.cell_of(n), rax), set_reg_var_seq(rax, layout.cell_of(d)));
}

pub proof fn lemma_set_var_resolved(value: u64, cell: u64)
    ensures
        labels_resolved(plain(set_var_seq(value, cell))),
{
    lemma_flag_code_no_branch(cell, value, crate::flags::r64(0));
    lemma_plain_resolved(set_var_seq(value, cell));
}

/// Every branch that the code of one guest instruction holds lands within that code.
pub proof fn lemma_inst_resolved(op: GuestOp, ops: Seq<Operand>, layout: Layout, count: u64)
    requires
        inst_error(op, ops) is None,
    ensures
        labels_resolved(inst_entries(op, ops, layout, count)),
{
    match op {
        GuestOp::Adr => {
            let (reg, rel) = adr_shape(ops)->Some_0;
            lemma_compare_code_no_branch(layout, reg, rel);
            lemma_plain_resolved(adr_seq(layout, reg, rel));
        },
        GuestOp::Cmp => {
            let (reg, imm) = cmp_shape(ops)->Some_0;
            lemma_compare_code_no_branch(layout, reg, imm);
            lemma_plain_resolved(cmp_seq(layout, reg, imm));
        },
        GuestOp::Cmn => {
            let (reg, imm) = cmp_shape(ops)->Some_0;
            lemma_compare_code_no_branch(layout, reg, imm);
            lemma_plain_resolved(cmn_seq(layout, reg, imm));
        },
        GuestOp::Add | GuestOp::Sub | GuestOp::Subs | GuestOp::And => {
            let (d, n, src) = alu_shape(ops)->Some_0;
            let flags = op is Subs;
            let host_op = match op { GuestOp::Add => RegRegOp::Add, GuestOp::And => RegRegOp::And, _ => RegRegOp::Sub };
            lemma_move_code_no_branch(layout, d, n, src, host_op, flags);
            lemma_plain_resolved(alu_seq(layout, d, n, src, host_op, flags));
        },
        GuestOp::Mov => {
            let (d, n) = mov_shape(ops)->Some_0;
            lemma_move_code_no_branch(layout, d, n, Operand::Other, RegRegOp::Add, false);
            lemma_plain_resolved(mov_seq(layout, d, n));
        },
        GuestOp::BEq | GuestOp::BNe => {
            let kind = if op is BEq { BranchKind::Je } else { BranchKind::Jne };
            let es = branch_entries(layout, kind, branch_shape(ops)->Some_0, count);
            lemma_compare_code_no_branch(layout, GuestReg::X(0), 0);
            lemma_plain_resolved(test_z_seq(layout));
            let n = plain(test_z_seq(layout)).len() as int;
            assert forall|i: int| 0 <= i < es.len() implies (#[trigger] es[i].inst matches HostInst::Branch { label, .. }
                ==> is_bound(es, label)) by {
                if i < n {
                    assert(es[i] == plain(test_z_seq(layout))[i]);
                } else if i == n {
                    assert(es[n + 2].label == (count + 1) as u64);
                } else if i == n + 1 {
                    assert(es[es.len() - 1].label == (count + 2) as u64);
                }
            }
        },
        GuestOp::Ccmn => {
            let (reg, imm, nzcv, _) = ccmn_shape(ops)->Some_0;
            let es = ccmn_entries(layout, reg, imm, nzcv, count);
            lemma_compare_code_no_branch(layout, reg, imm);
            lemma_flag_code_no_branch(layout.nzcv, (nzcv * 0x1000_0000) as u64, crate::flags::r64(0));
            let a = plain(test_z_seq(layout));
            let b = plain(set_var_seq((nzcv * 0x1000_0000) as u64, layout.nzcv));
            let c = plain(cmn_seq(layout, reg, imm));
            lemma_plain_resolved(test_z_seq(layout));
            lemma_plain_resolved(set_var_seq((nzcv * 0x1000_0000) as u64, layout.nzcv));
            lemma_plain_resolved(cmn_seq(layout, reg, imm));
            assert forall|i: int| 0 <= i < es.len() implies (#[trigger] es[i].inst matches HostInst::Branch { label, .. }
                ==> is_bound(es, label)) by {
                let na = a.len() as int;
                let nb = b.len() as int;
                let nc = c.len() as int;
                if i < na {
                    assert(es[i] == a[i]);
                } else if i == na {
                    assert(es[na + nb + 2].label == (count + 1) as u64);
                } else if i < na + 1 + nb {
                    assert(es[i] == b[i - na - 1]);
                } else if i == na + 1 + nb {
                    assert(es[es.len() - 1].label == (count + 2) as u64);
                } else if i == na + nb + 2 {
                } else if i < na + nb + 3 + nc {
                    assert(es[i] == c[i - na - nb - 3]);
                }
            }
        },
        _ => {
            assert(labels_resolved(Seq::<Entry>::empty()));
        },
    }
}

} // verus!
