use vstd::prelude::*;

verus! {

/// Number of general-purpose registers of the host.
pub const GPR_COUNT: u8 = 16;

/// Register numbers of the host, in the order the host encodes them.
pub const RAX: u8 = 0;
pub const RCX: u8 = 1;
pub const RDX: u8 = 2;
pub const RBX: u8 = 3;
pub const RSP: u8 = 4;
pub const RBP: u8 = 5;
pub const RSI: u8 = 6;
pub const RDI: u8 = 7;
pub const R8: u8 = 8;
pub const R9: u8 = 9;
pub const R10: u8 = 10;
pub const R11: u8 = 11;

/// Which part of a general-purpose register an operand names.
#[derive(Clone, Copy, Debug, PartialEq, Eq, Structural)]
pub enum Width {
    /// The low 8 bits.
    B8,
    /// The low 16 bits.
    B16,
    /// The low 32 bits.
    B32,
    /// The whole 64 bits.
    B64,
}

/// One width-view of a host general-purpose register: `num` is the physical register,
/// so that all views of one register share it.
#[derive(Clone, Copy, Debug, PartialEq, Eq, Structural)]
pub struct HostReg {
    pub num: u8,
    pub width: Width,
}

impl HostReg {
    pub open spec fn wf(self) -> bool {
        self.num < GPR_COUNT
    }

    /// The 64-bit view of the register numbered `num`.
    pub open spec fn full_of(num: u8) -> HostReg {
        HostReg { num, width: Width::B64 }
    }

    /// The 64-bit view of the register numbered `num`.
    pub fn gpr64(num: u8) -> (r: HostReg)
        requires
            num < GPR_COUNT,
        ensures
            r == HostReg::full_of(num),
            r.wf(),
    {
        HostReg { num, width: Width::B64 }
    }

    /// The view of the same physical register at the given width.
    pub fn with_width(self, width: Width) -> (r: HostReg)
        ensures
            r.num == self.num,
            r.width == width,
    {
        HostReg { num: self.num, width }
    }

    /// The whole 64-bit register of which this is a view.
    pub fn full_register(self) -> (r: HostReg)
        ensures
            r == HostReg::full_of(self.num),
    {
        self.with_width(Width::B64)
    }

    pub fn is_gpr64(self) -> (r: bool)
        ensures
            r == (self.width == Width::B64),
    {
        match self.width {
            Width::B64 => true,
            _ => false,
        }
    }
}

/// The 32-bit view of the same physical register.
pub fn map_reg_32(reg: &HostReg) -> (r: HostReg)
    ensures
        r.num == reg.num && r.width == Width::B32,
{
    reg.with_width(Width::B32)
}

/// The 16-bit view of the same physical register.
pub fn map_reg_16(reg: &HostReg) -> (r: HostReg)
    ensures
        r.num == reg.num && r.width == Width::B16,
{
    reg.with_width(Width::B16)
}

/// The low 8-bit view of the same physical register.
pub fn map_reg_8(reg: &HostReg) -> (r: HostReg)
    ensures
        r.num == reg.num && r.width == Width::B8,
{
    reg.with_width(Width::B8)
}

} // verus!
