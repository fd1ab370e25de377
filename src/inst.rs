use vstd::prelude::*;
use crate::host::HostReg;

verus! {

/// Host instructions without operands.
#[derive(Clone, Copy, Debug, PartialEq, Eq, Structural)]
pub enum PlainOp {
    /// Loads the sign, zero, auxiliary, parity and carry flags into `ah`.
    Lahf,
    Nop,
    Ret,
}

/// Host instructions with one register operand.
#[derive(Clone, Copy, Debug, PartialEq, Eq, Structural)]
pub enum RegOp {
    /// Sets the 8-bit register to the overflow flag.
    Seto,
    Push,
    Pop,
    /// Calls the address held by the register.
    Call,
}

/// Host instructions with two register operands.
#[derive(Clone, Copy, Debug, PartialEq, Eq, Structural)]
pub enum RegRegOp {
    /// 16-bit move.
    Mov16,
    Xor,
    Or,
    Sub,
    Add,
    And,
}

/// Host instructions with a register and an immediate operand.
#[derive(Clone, Copy, Debug, PartialEq, Eq, Structural)]
pub enum RegImmOp {
    /// 64-bit and with a 32-bit immediate.
    And32,
    /// 64-bit and with an 8-bit immediate.
    And8,
    /// Shift left.
    Shl,
    /// Arithmetic shift right.
    Sar,
    /// 64-bit compare with an 8-bit immediate.
    Cmp8,
    /// 16-bit exclusive or with an 8-bit immediate.
    Xor16,
}

/// Relative jumps to a label of the block.
#[derive(Clone, Copy, Debug, PartialEq, Eq, Structural)]
pub enum BranchKind {
    /// Jump if the zero flag is set.
    Je,
    /// Jump if the zero flag is clear.
    Jne,
    /// Unconditional jump.
    Jmp,
}

/// One abstract host instruction, before it is encoded.
#[derive(Clone, Copy, Debug, PartialEq, Eq, Structural)]
pub enum HostInst {
    Plain { op: PlainOp },
    Unary { op: RegOp, reg: HostReg },
    RegReg { op: RegRegOp, dst: HostReg, src: HostReg },
    RegImm { op: RegImmOp, dst: HostReg, imm: i32 },
    /// Moves a 64-bit immediate into a register.
    MovImm { dst: HostReg, imm: u64 },
    /// Loads the 64-bit cell whose address is in `base`.
    Load { dst: HostReg, base: HostReg },
    /// Stores into the 64-bit cell whose address is in `base`.
    Store { base: HostReg, src: HostReg },
    /// Jumps to the instruction bound to the label.
    Branch { kind: BranchKind, label: u64 },
}

impl HostInst {
    /// Every register operand names one of the host's registers.
    pub open spec fn wf(self) -> bool {
        match self {
            HostInst::Plain { .. } => true,
            HostInst::Unary { reg, .. } => reg.wf(),
            HostInst::RegReg { dst, src, .. } => dst.wf() && src.wf(),
            HostInst::RegImm { dst, .. } => dst.wf(),
            HostInst::MovImm { dst, .. } => dst.wf(),
            HostInst::Load { dst, base } => dst.wf() && base.wf(),
            HostInst::Store { base, src } => base.wf() && src.wf(),
            HostInst::Branch { .. } => true,
        }
    }
}

/// An instruction of a block under construction, with the label bound to it
/// (`0` when none is).
#[derive(Clone, Copy, Debug, PartialEq, Eq, Structural)]
pub struct Entry {
    pub inst: HostInst,
    pub label: u64,
}

} // verus!
