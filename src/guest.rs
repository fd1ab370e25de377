use vstd::prelude::*;

verus! {

/// A register of the guest, as the decoder names it.
#[derive(Clone, Copy, Debug, PartialEq, Eq, Structural)]
pub enum GuestReg {
    /// A 64-bit general-purpose register `x0`..`x30`.
    X(u8),
    /// A 32-bit general-purpose register `w0`..`w30`.
    W(u8),
    Xzr,
    Wzr,
    Sp,
    Wsp,
    /// Any register the translator does not distinguish.
    Other,
}

/// An immediate, with the signedness the decoder gave it.
#[derive(Clone, Copy, Debug, PartialEq, Eq, Structural)]
pub enum Imm {
    Signed(i64),
    Unsigned(u64),
}

/// A condition code of the guest.
#[derive(Clone, Copy, Debug, PartialEq, Eq, Structural)]
pub enum Condition {
    EQ,
    NE,
    CS,
    CC,
    MI,
    PL,
    VS,
    VC,
    HI,
    LS,
    GE,
    LT,
    GT,
    LE,
    AL,
    NV,
}

/// An operand of a decoded guest instruction.
#[derive(Clone, Copy, Debug, PartialEq, Eq, Structural)]
pub enum Operand {
    Imm32(Imm),
    Imm64(Imm),
    Reg(GuestReg),
    /// A branch or address target, relative to the instruction.
    Label(Imm),
    Cond(Condition),
    /// Any other operand shape.
    Other,
}

/// The guest operations the translator supports.
#[derive(Clone, Copy, Debug, PartialEq, Eq, Structural)]
pub enum GuestOp {
    Add,
    Adr,
    Sub,
    Subs,
    And,
    BEq,
    BNe,
    Cmp,
    Cmn,
    Ccmn,
    Ldp,
    Mov,
    Str,
}

/// One decoded guest instruction: its operation and its operands in order.
#[derive(Clone, Debug)]
pub struct GuestInst {
    pub op: GuestOp,
    pub operands: Vec<Operand>,
}

impl View for GuestInst {
    type V = (GuestOp, Seq<Operand>);

    open spec fn view(&self) -> (GuestOp, Seq<Operand>) {
        (self.op, self.operands@)
    }
}

/// Whether `reg` is a 32-bit view of a guest register.
pub open spec fn is_half_spec(reg: GuestReg) -> bool {
    reg is W || reg is Wzr || reg is Wsp
}

/// Whether `reg` is a 32-bit view of a guest register.
pub fn is_aarch64_half_reg(reg: GuestReg) -> (r: bool)
    ensures
        r == is_half_spec(reg),
{
    match reg {
        GuestReg::W(_) | GuestReg::Wzr | GuestReg::Wsp => true,
        _ => false,
    }
}

} // verus!
