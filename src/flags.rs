use vstd::prelude::*;
use crate::assembler::{plain, InstAssembler};
use crate::guest::{is_aarch64_half_reg, is_half_spec, GuestReg};
use crate::host::{map_reg_16, map_reg_32, map_reg_8, HostReg, Width, RAX, RCX, RDX};
use crate::inst::{Entry, HostInst, PlainOp, RegImmOp, RegOp, RegRegOp};
use crate::regalloc::{lemma_first_free_small, RegistersHandler};
use crate::registers::NZCV;

verus! {

/// The 64-bit view of host register `num`.
pub open spec fn r64(num: u8) -> HostReg {
    HostReg::full_of(num)
}

/// The 16-bit view of host register `num`.
pub open spec fn r16(num: u8) -> HostReg {
    HostReg { num, width: Width::B16 }
}

/// Loads the 64-bit cell at `addr` into `reg`.
pub open spec fn var_to_reg_seq(addr: u64, reg: HostReg) -> Seq<HostInst> {
    seq![HostInst::MovImm { dst: reg, imm: addr }, HostInst::Load { dst: reg, base: reg }]
}

/// Stores the constant `value` into the 64-bit cell at `addr`, through `rax` and `rcx`.
pub open spec fn set_var_seq(value: u64, addr: u64) -> Seq<HostInst> {
    seq![
        HostInst::MovImm { dst: r64(RAX), imm: addr },
        HostInst::MovImm { dst: r64(RCX), imm: value },
        HostInst::Store { base: r64(RAX), src: r64(RCX) },
    ]
}

/// The scratch register that holds the address when `src` is stored.
pub open spec fn store_addr_reg(src: HostReg) -> HostReg {
    if src.num == RAX {
        r64(RCX)
    } else {
        r64(RAX)
    }
}

/// Stores register `src` into the 64-bit cell at `addr`.
pub open spec fn set_reg_var_seq(src: HostReg, addr: u64) -> Seq<HostInst> {
    seq![
        HostInst::MovImm { dst: store_addr_reg(src), imm: addr },
        HostInst::Store { base: store_addr_reg(src), src },
    ]
}

/// Moves bits `mask` of the flags image in `ax` to bits moved `shift` places left, and
/// adds them to `rcx`; with `invert`, the image is complemented first.
pub open spec fn pack_flag_seq(mask: i32, shift: i32, invert: bool) -> Seq<HostInst> {
    let head = seq![
        HostInst::RegReg { op: RegRegOp::Xor, dst: r64(RDX), src: r64(RDX) },
        HostInst::RegReg { op: RegRegOp::Mov16, dst: r16(RDX), src: r16(RAX) },
    ];
    let flip = if invert {
        seq![HostInst::RegImm { op: RegImmOp::Xor16, dst: r16(RDX), imm: -1i32 }]
    } else {
        Seq::empty()
    };
    head + flip + seq![
        HostInst::RegImm { op: RegImmOp::And32, dst: r64(RDX), imm: mask },
        HostInst::RegImm { op: RegImmOp::Shl, dst: r64(RDX), imm: shift },
        HostInst::RegReg { op: RegRegOp::Or, dst: r64(RCX), src: r64(RDX) },
    ]
}

/// Captures the host flags just set and stores them, packed as the guest's flags, into
/// the cell at `cell`; with `invert_carry` the carry flag is complemented, as a guest
/// subtraction needs.
pub open spec fn capture_seq(cell: u64, invert_carry: bool) -> Seq<HostInst> {
    seq![
        HostInst::Plain { op: PlainOp::Lahf },
        HostInst::Unary { op: RegOp::Seto, reg: HostReg { num: RAX, width: Width::B8 } },
        HostInst::RegReg { op: RegRegOp::Xor, dst: r64(RCX), src: r64(RCX) },
    ] + pack_flag_seq(0xC000, 16, false) + pack_flag_seq(0x100, 21, invert_carry) + pack_flag_seq(1, 28, false)
        + set_reg_var_seq(r64(RCX), cell)
}

/// Captures the flags of a host subtraction as the guest's flags into the cell at `cell`.
pub open spec fn update_seq(cell: u64) -> Seq<HostInst> {
    capture_seq(cell, true)
}

/// Leaves in `dest` the zero flag of the flag cell at `cell`.
pub open spec fn get_z_seq(cell: u64, dest: HostReg) -> Seq<HostInst> {
    var_to_reg_seq(cell, dest) + seq![
        HostInst::RegImm { op: RegImmOp::Sar, dst: dest, imm: 30 },
        HostInst::RegImm { op: RegImmOp::And8, dst: dest, imm: 1 },
    ]
}

impl InstAssembler {
    /// Appends code that loads the 64-bit cell at `addr` into `reg`.
    pub fn emit_var_to_reg(&mut self, addr: u64, reg: HostReg)
        requires
            old(self).wf(),
            reg.wf(),
        ensures
            final(self)@ == old(self)@ + plain(var_to_reg_seq(addr, reg)),
            final(self).label_count() == old(self).label_count(),
            final(self).wf(),
    {
        let insts = vec![HostInst::MovImm { dst: reg, imm: addr }, HostInst::Load { dst: reg, base: reg }];
        self.add_all(&insts);
    }

    /// Appends code that stores the constant `src` into the 64-bit cell at `dest`.
    pub fn emit_set_var(&mut self, src: u64, dest: u64)
        requires
            old(self).wf(),
        ensures
            final(self)@ == old(self)@ + plain(set_var_seq(src, dest)),
            final(self).label_count() == old(self).label_count(),
            final(self).wf(),
    {
        let mut regs_handler = RegistersHandler::new();
        proof { lemma_first_free_small(regs_handler@); }
        let addr_reg = regs_handler.take();
        proof { lemma_first_free_small(regs_handler@); }
        let value_reg = regs_handler.take();
        let insts = vec![
            HostInst::MovImm { dst: addr_reg, imm: dest },
            HostInst::MovImm { dst: value_reg, imm: src },
            HostInst::Store { base: addr_reg, src: value_reg },
        ];
        self.add_all(&insts);
    }

    /// Appends code that stores register `src` into the 64-bit cell at `dest`.
    pub fn emit_set_reg_var(&mut self, src: HostReg, dest: u64)
        requires
            old(self).wf(),
            src.wf(),
        ensures
            final(self)@ == old(self)@ + plain(set_reg_var_seq(src, dest)),
            final(self).label_count() == old(self).label_count(),
            final(self).wf(),
    {
        let mut regs_handler = RegistersHandler::new();
        regs_handler.reserve(src);
        proof { lemma_first_free_small(regs_handler@); }
        let addr_reg = regs_handler.take();
        let insts = vec![
            HostInst::MovImm { dst: addr_reg, imm: dest },
            HostInst::Store { base: addr_reg, src },
        ];
        self.add_all(&insts);
    }
}

fn pack_flag(builder: &mut InstAssembler, nzcv_reg: HostReg, process_reg: HostReg, mask: i32, shift: i32, invert: bool)
    requires
        old(builder).wf(),
        nzcv_reg == r64(RCX),
        process_reg == r64(RDX),
    ensures
        final(builder)@ == old(builder)@ + plain(pack_flag_seq(mask, shift, invert)),
        final(builder).label_count() == old(builder).label_count(),
        final(builder).wf(),
{
    let process_reg_16 = map_reg_16(&process_reg);
    let ax = HostReg { num: RAX, width: Width::B16 };
    let mut insts = vec![
        HostInst::RegReg { op: RegRegOp::Xor, dst: process_reg, src: process_reg },
        HostInst::RegReg { op: RegRegOp::Mov16, dst: process_reg_16, src: ax },
    ];
    if invert {
        insts.push(HostInst::RegImm { op: RegImmOp::Xor16, dst: process_reg_16, imm: -1 });
    }
    insts.push(HostInst::RegImm { op: RegImmOp::And32, dst: process_reg, imm: mask });
    insts.push(HostInst::RegImm { op: RegImmOp::Shl, dst: process_reg, imm: shift });
    insts.push(HostInst::RegReg { op: RegRegOp::Or, dst: nzcv_reg, src: process_reg });
    assert(insts@ =~= pack_flag_seq(mask, shift, invert));
    builder.add_all(&insts);
}

impl NZCV {
    /// Appends code that captures the host flags set by a subtraction just before and
    /// stores them, packed as the guest's flags with the carry inverted, into the flag
    /// cell at `cell`.
    pub fn emit_update(builder: &mut InstAssembler, cell: u64)
        requires
            old(builder).wf(),
        ensures
            final(builder)@ == old(builder)@ + plain(update_seq(cell)),
            final(builder).label_count() == old(builder).label_count(),
            final(builder).wf(),
    {
        NZCV::emit_capture(builder, cell, true);
    }

    /// Appends code that captures the host flags set by the instruction just before and
    /// stores them, packed as the guest's flags, into the flag cell at `cell`; the carry
    /// is inverted when `invert_carry` holds.
    pub fn emit_capture(builder: &mut InstAssembler, cell: u64, invert_carry: bool)
        requires
            old(builder).wf(),
        ensures
            final(builder)@ == old(builder)@ + plain(capture_seq(cell, invert_carry)),
            final(builder).label_count() == old(builder).label_count(),
            final(builder).wf(),
    {
        let rax = HostReg::gpr64(RAX);
        let head = vec![
            HostInst::Plain { op: PlainOp::Lahf },
            HostInst::Unary { op: RegOp::Seto, reg: map_reg_8(&rax) },
        ];
        builder.add_all(&head);

        let mut regs_handler = RegistersHandler::new();
        regs_handler.reserve(rax);
        proof { lemma_first_free_small(regs_handler@); }
        let nzcv_reg = regs_handler.take();
        proof { lemma_first_free_small(regs_handler@); }
        let process_reg = regs_handler.take().full_register();

        builder.add(HostInst::RegReg { op: RegRegOp::Xor, dst: nzcv_reg, src: nzcv_reg });
        // negative and zero
        pack_flag(builder, nzcv_reg, process_reg, 0xC000, 16, false);
        // carry: the host sets it on a borrow, the guest on its absence
        pack_flag(builder, nzcv_reg, process_reg, 0x100, 21, invert_carry);
        // overflow
        pack_flag(builder, nzcv_reg, process_reg, 1, 28, false);
        builder.emit_set_reg_var(nzcv_reg, cell);
        proof {
            let s = capture_seq(cell, invert_carry);
            assert(plain(s) =~= plain(head@) + seq![Entry { inst: HostInst::RegReg { op: RegRegOp::Xor, dst: r64(RCX), src: r64(RCX) }, label: 0 }]
                + plain(pack_flag_seq(0xC000, 16, false)) + plain(pack_flag_seq(0x100, 21, invert_carry))
                + plain(pack_flag_seq(1, 28, false)) + plain(set_reg_var_seq(r64(RCX), cell)));
            assert(builder@ =~= old(builder)@ + plain(s));
        }
    }

    /// Appends code that leaves in `dest` the zero flag of the flag cell at `cell`.
    pub fn emit_get_z(builder: &mut InstAssembler, cell: u64, dest: HostReg)
        requires
            old(builder).wf(),
            dest.wf(),
        ensures
            final(builder)@ == old(builder)@ + plain(get_z_seq(cell, dest)),
            final(builder).label_count() == old(builder).label_count(),
            final(builder).wf(),
    {
        builder.emit_var_to_reg(cell, dest);
        let tail = vec![
            HostInst::RegImm { op: RegImmOp::Sar, dst: dest, imm: 30 },
            HostInst::RegImm { op: RegImmOp::And8, dst: dest, imm: 1 },
        ];
        builder.add_all(&tail);
        proof {
            assert(plain(get_z_seq(cell, dest)) =~= plain(var_to_reg_seq(cell, dest)) + plain(tail@));
        }
    }

    /// Appends code that stores `value` into the flag cell at `cell`.
    pub fn emit_set(builder: &mut InstAssembler, cell: u64, value: u64)
        requires
            old(builder).wf(),
        ensures
            final(builder)@ == old(builder)@ + plain(set_var_seq(value, cell)),
            final(builder).label_count() == old(builder).label_count(),
            final(builder).wf(),
    {
        builder.emit_set_var(value, cell);
    }
}

/// The 32-bit view of `x64_reg` when `aarch64_reg` is a 32-bit guest register, else
/// `x64_reg` itself.
pub fn map_x64_to_half_if(x64_reg: HostReg, aarch64_reg: GuestReg) -> (r: HostReg)
    ensures
        r.num == x64_reg.num,
        r.width == (if is_half_spec(aarch64_reg) { Width::B32 } else { x64_reg.width }),
{
    if is_aarch64_half_reg(aarch64_reg) {
        map_reg_32(&x64_reg)
    } else {
        x64_reg
    }
}

} // verus!
