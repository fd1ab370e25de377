use vstd::prelude::*;
use crate::assembler::{plain, InstAssembler};
use crate::emitters::{
    adr_error, adr_seq, adr_shape, branch_entries, branch_shape, ccmn_entries, ccmn_error, ccmn_shape,
    cmn_seq, cmp_error, cmp_seq, cmp_shape, emit_add, emit_adr, emit_and, emit_beq, emit_bne,
    emit_ccmn, emit_cmn, emit_cmp, emit_ldp, emit_mov, emit_str, emit_sub, emit_subs,
    expects_operands, mov_error, alu_error, alu_seq, alu_shape, cmn_error, mov_seq, mov_shape,
};
use crate::inst::RegRegOp;
use crate::error::{Error, ErrorKind};
use crate::guest::{GuestInst, GuestOp, Operand};
use crate::inst::{BranchKind, Entry};
use crate::registers::Layout;

verus! {

/// Why a guest instruction cannot be translated, if it cannot.
pub open spec fn inst_error(op: GuestOp, ops: Seq<Operand>) -> Option<ErrorKind> {
    match op {
        GuestOp::Add | GuestOp::Sub | GuestOp::Subs | GuestOp::And => alu_error(ops),
        GuestOp::Ldp => expects_operands(ops, 3),
        GuestOp::Str => expects_operands(ops, 2),
        GuestOp::Mov => mov_error(ops),
        GuestOp::Adr => adr_error(ops),
        GuestOp::BEq | GuestOp::BNe => if branch_shape(ops) is Some { None } else { Some(ErrorKind::Decode) },
        GuestOp::Cmp => cmp_error(ops),
        GuestOp::Cmn => cmn_error(ops),
        GuestOp::Ccmn => ccmn_error(ops),
    }
}

/// The host code of a guest instruction, given the number of labels made before it.
pub open spec fn inst_entries(op: GuestOp, ops: Seq<Operand>, layout: Layout, count: u64) -> Seq<Entry> {
    match op {
        GuestOp::Adr => plain(adr_seq(layout, adr_shape(ops)->Some_0.0, adr_shape(ops)->Some_0.1)),
        GuestOp::Add => plain(alu_seq(layout, alu_shape(ops)->Some_0.0, alu_shape(ops)->Some_0.1, alu_shape(ops)->Some_0.2, RegRegOp::Add, false)),
        GuestOp::Sub => plain(alu_seq(layout, alu_shape(ops)->Some_0.0, alu_shape(ops)->Some_0.1, alu_shape(ops)->Some_0.2, RegRegOp::Sub, false)),
        GuestOp::Subs => plain(alu_seq(layout, alu_shape(ops)->Some_0.0, alu_shape(ops)->Some_0.1, alu_shape(ops)->Some_0.2, RegRegOp::Sub, true)),
        GuestOp::And => plain(alu_seq(layout, alu_shape(ops)->Some_0.0, alu_shape(ops)->Some_0.1, alu_shape(ops)->Some_0.2, RegRegOp::And, false)),
        GuestOp::Mov => plain(mov_seq(layout, mov_shape(ops)->Some_0.0, mov_shape(ops)->Some_0.1)),
        GuestOp::BEq => branch_entries(layout, BranchKind::Je, branch_shape(ops)->Some_0, count),
        GuestOp::BNe => branch_entries(layout, BranchKind::Jne, branch_shape(ops)->Some_0, count),
        GuestOp::Cmp => plain(cmp_seq(layout, cmp_shape(ops)->Some_0.0, cmp_shape(ops)->Some_0.1)),
        GuestOp::Cmn => plain(cmn_seq(layout, cmp_shape(ops)->Some_0.0, cmp_shape(ops)->Some_0.1)),
        GuestOp::Ccmn => ccmn_entries(
            layout,
            ccmn_shape(ops)->Some_0.0,
            ccmn_shape(ops)->Some_0.1,
            ccmn_shape(ops)->Some_0.2,
            count,
        ),
        _ => Seq::empty(),
    }
}

/// The number of labels the translation of an operation makes.
pub open spec fn inst_labels(op: GuestOp) -> u64 {
    match op {
        GuestOp::Ccmn | GuestOp::BEq | GuestOp::BNe => 2,
        _ => 0,
    }
}

/// Whether the block goes on after an instruction of this operation.
pub open spec fn inst_continues(op: GuestOp) -> bool {
    !(op is BEq || op is BNe)
}

/// Translates one decoded guest instruction into `builder` and says whether the block
/// goes on after it.
pub fn parse_inst(layout: &Layout, builder: &mut InstAssembler, inst: &GuestInst) -> (r: Result<bool, Error>)
    requires
        old(builder).wf(),
        old(builder).label_count() + 2 <= u64::MAX,
    ensures
        final(builder).wf(),
        match inst_error(inst@.0, inst@.1) {
            None => {
                &&& r == Ok::<bool, Error>(inst_continues(inst.op))
                &&& final(builder)@ == old(builder)@ + inst_entries(inst.op, inst@.1, *layout, old(builder).label_count())
                &&& final(builder).label_count() == old(builder).label_count() + inst_labels(inst.op)
            },
            Some(k) => r is Err && r->Err_0.kind == k,
        },
{
    let operands = inst.operands.as_slice();
    let r = match inst.op {
        GuestOp::Add => emit_add(layout, builder, operands),
        GuestOp::Adr => emit_adr(layout, builder, operands),
        GuestOp::Sub => emit_sub(layout, builder, operands),
        GuestOp::Subs => emit_subs(layout, builder, operands),
        GuestOp::And => emit_and(layout, builder, operands),
        GuestOp::BEq => emit_beq(layout, builder, operands),
        GuestOp::BNe => emit_bne(layout, builder, operands),
        GuestOp::Cmp => emit_cmp(layout, builder, operands),
        GuestOp::Cmn => emit_cmn(layout, builder, operands),
        GuestOp::Ccmn => emit_ccmn(layout, builder, operands),
        GuestOp::Ldp => emit_ldp(layout, builder, operands),
        GuestOp::Mov => emit_mov(layout, builder, operands),
        GuestOp::Str => emit_str(layout, builder, operands),
    };
    proof {
        if inst_entries(inst.op, inst@.1, *layout, old(builder).label_count()) == Seq::<Entry>::empty() {
            assert(old(builder)@ + Seq::<Entry>::empty() =~= old(builder)@);
        }
    }
    r
}

} // verus!
