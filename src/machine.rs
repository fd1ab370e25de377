use vstd::prelude::*;
use crate::host::{HostReg, Width, RAX, RDI, RSI};
use crate::inst::{BranchKind, Entry, HostInst, PlainOp, RegImmOp, RegOp, RegRegOp};

verus! {

/// A state of the host machine as far as the generated code uses it: the sixteen
/// general-purpose registers, the arithmetic flags, 64-bit memory cells, the stack, and the
/// calls made so far (each with the `rdi` and `rsi` it passed; the routine called is
/// assumed to return).
pub struct Machine {
    pub regs: Seq<u64>,
    pub cf: bool,
    pub zf: bool,
    pub sf: bool,
    pub of: bool,
    pub af: bool,
    pub pf: bool,
    pub mem: Map<u64, u64>,
    pub stack: Seq<u64>,
    pub calls: Seq<(u64, u64)>,
}

pub open spec fn bit(b: bool) -> u64 {
    if b { 1 } else { 0 }
}

/// Even parity of the low byte of `v`.
pub open spec fn parity_even(v: u64) -> bool {
    ((v ^ (v >> 1u64) ^ (v >> 2u64) ^ (v >> 3u64) ^ (v >> 4u64) ^ (v >> 5u64) ^ (v >> 6u64) ^ (v >> 7u64)) & 1) == 0
}

/// `imm` sign-extended to 64 bits.
pub open spec fn sext(imm: i32) -> u64 {
    if imm >= 0 { imm as u64 } else { (imm + 0x1_0000_0000_0000_0000) as u64 }
}

/// `v` read as a signed 64-bit number.
pub open spec fn signed(v: u64) -> int {
    if v <= i64::MAX { v as int } else { v - 0x1_0000_0000_0000_0000 }
}

/// `x` modulo 2^64, for `x` within one wrap of the 64-bit range.
pub open spec fn wrap(x: int) -> u64 {
    if x < 0 {
        (x + 0x1_0000_0000_0000_0000) as u64
    } else if x > u64::MAX {
        (x - 0x1_0000_0000_0000_0000) as u64
    } else {
        x as u64
    }
}

/// `v` shifted right by `n`, copying the sign bit.
pub open spec fn sar(v: u64, n: u64) -> u64 {
    if (v >> 63u64) == 1 { (v >> n) | !(0xffff_ffff_ffff_ffffu64 >> n) } else { v >> n }
}

impl Machine {
    pub open spec fn wf(self) -> bool {
        self.regs.len() == 16
    }

    pub open spec fn read(self, r: HostReg) -> u64 {
        let v = self.regs[r.num as int];
        match r.width {
            Width::B64 => v,
            Width::B32 => v & 0xffff_ffff,
            Width::B16 => v & 0xffff,
            Width::B8 => v & 0xff,
        }
    }

    /// Writes `v` to a register view: a 32-bit write clears the upper half, 16 and 8-bit
    /// writes keep the other bits.
    pub open spec fn write(self, r: HostReg, v: u64) -> Machine {
        let old = self.regs[r.num as int];
        let new = match r.width {
            Width::B64 => v,
            Width::B32 => v & 0xffff_ffff,
            Width::B16 => (old & !0xffffu64) | (v & 0xffff),
            Width::B8 => (old & !0xffu64) | (v & 0xff),
        };
        Machine { regs: self.regs.update(r.num as int, new), ..self }
    }

    /// The flags of a logical operation with 64-bit result `v`.
    pub open spec fn logic_flags(self, v: u64) -> Machine {
        Machine { cf: false, of: false, zf: v == 0, sf: (v >> 63u64) == 1, pf: parity_even(v), ..self }
    }

    /// The flags of `a - b`.
    pub open spec fn sub_flags(self, a: u64, b: u64) -> Machine {
        let r = wrap(a - b);
        Machine {
            cf: a < b,
            zf: r == 0,
            sf: (r >> 63u64) == 1,
            of: !(i64::MIN <= signed(a) - signed(b) <= i64::MAX),
            af: ((a ^ b ^ r) & 0x10) != 0,
            pf: parity_even(r),
            ..self
        }
    }

    /// The flags of `a + b`.
    pub open spec fn add_flags(self, a: u64, b: u64) -> Machine {
        let r = wrap(a + b);
        Machine {
            cf: a + b > u64::MAX,
            zf: r == 0,
            sf: (r >> 63u64) == 1,
            of: !(i64::MIN <= signed(a) + signed(b) <= i64::MAX),
            af: ((a ^ b ^ r) & 0x10) != 0,
            pf: parity_even(r),
            ..self
        }
    }

    /// The image that `lahf` loads into `ah`.
    pub open spec fn flags_byte(self) -> u64 {
        (bit(self.sf) << 7u64) | (bit(self.zf) << 6u64) | (bit(self.af) << 4u64) | (bit(self.pf) << 2u64) | 2
            | bit(self.cf)
    }
}

/// The effect of one instruction other than a jump.
pub open spec fn step(m: Machine, inst: HostInst) -> Machine {
    match inst {
        HostInst::Plain { op } => match op {
            PlainOp::Lahf => {
                let rax = m.regs[RAX as int];
                Machine { regs: m.regs.update(RAX as int, (rax & !0xff00u64) | (m.flags_byte() << 8u64)), ..m }
            },
            _ => m,
        },
        HostInst::Unary { op, reg } => match op {
            RegOp::Seto => m.write(reg, bit(m.of)),
            RegOp::Push => Machine { stack: m.stack.push(m.read(reg)), ..m },
            RegOp::Pop => Machine { stack: m.stack.drop_last(), ..m.write(reg, m.stack.last()) },
            RegOp::Call => Machine { calls: m.calls.push((m.regs[RDI as int], m.regs[RSI as int])), ..m },
        },
        HostInst::RegReg { op, dst, src } => {
            let a = m.read(dst);
            let b = m.read(src);
            match op {
                RegRegOp::Mov16 => m.write(dst, b),
                RegRegOp::Xor => m.write(dst, a ^ b).logic_flags(a ^ b),
                RegRegOp::Or => m.write(dst, a | b).logic_flags(a | b),
                RegRegOp::And => m.write(dst, a & b).logic_flags(a & b),
                RegRegOp::Sub => m.write(dst, wrap(a - b)).sub_flags(a, b),
                RegRegOp::Add => m.write(dst, wrap(a + b)).add_flags(a, b),
            }
        },
        HostInst::RegImm { op, dst, imm } => {
            let a = m.read(dst);
            match op {
                RegImmOp::And32 | RegImmOp::And8 => m.write(dst, a & sext(imm)).logic_flags(a & sext(imm)),
                RegImmOp::Shl => {
                    let v = a << ((imm as u64) & 63);
                    Machine { zf: v == 0, sf: (v >> 63u64) == 1, ..m.write(dst, v) }
                },
                RegImmOp::Sar => {
                    let v = sar(a, (imm as u64) & 63);
                    Machine { zf: v == 0, sf: (v >> 63u64) == 1, ..m.write(dst, v) }
                },
                RegImmOp::Cmp8 => m.sub_flags(a, sext(imm)),
                RegImmOp::Xor16 => {
                    let v = (a ^ sext(imm)) & 0xffff;
                    Machine { cf: false, of: false, zf: v == 0, sf: (v >> 15u64) == 1, pf: parity_even(v), ..m.write(dst, v) }
                },
            }
        },
        HostInst::MovImm { dst, imm } => m.write(dst, imm),
        HostInst::Load { dst, base } => m.write(dst, m.mem[m.read(base)]),
        HostInst::Store { base, src } => Machine { mem: m.mem.insert(m.read(base), m.read(src)), ..m },
        HostInst::Branch { .. } => m,
    }
}

/// The effect of a run of instructions without jumps.
pub open spec fn exec_seq(m: Machine, s: Seq<HostInst>) -> Machine
    decreases s.len(),
{
    if s.len() == 0 {
        m
    } else {
        exec_seq(step(m, s[0]), s.drop_first())
    }
}

/// Whether a jump of this kind is taken in state `m`.
pub open spec fn taken(m: Machine, kind: BranchKind) -> bool {
    match kind {
        BranchKind::Je => m.zf,
        BranchKind::Jne => !m.zf,
        BranchKind::Jmp => true,
    }
}

/// The position of the instruction bound to `label`.
pub open spec fn label_pos(code: Seq<Entry>, label: u64) -> int {
    choose|j: int| 0 <= j < code.len() && code[j].label == label
}

/// Runs `code` from position `pc` for at most `fuel` instructions; the run ends when it
/// leaves the code, which a block does through its final return.
pub open spec fn run(code: Seq<Entry>, pc: int, m: Machine, fuel: nat) -> Machine
    decreases fuel,
{
    if fuel == 0 || pc < 0 || pc >= code.len() {
        m
    } else {
        match code[pc].inst {
            HostInst::Branch { kind, label } => if taken(m, kind) {
                run(code, label_pos(code, label), m, (fuel - 1) as nat)
            } else {
                run(code, pc + 1, m, (fuel - 1) as nat)
            },
            inst => run(code, pc + 1, step(m, inst), (fuel - 1) as nat),
        }
    }
}

} // verus!
