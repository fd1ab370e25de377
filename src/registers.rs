use vstd::prelude::*;
use crate::error::{Error, ErrorKind};
use crate::guest::GuestReg;

verus! {

/// The reset value of the flag register: only the zero flag (bit 30) is set.
pub const NZCV_RESET: u64 = 0x4000_0000;

/// The guest's packed condition flags: negative, zero, carry and overflow in bits 31..28.
pub struct NZCV {
    value: u64,
}

impl NZCV {
    pub closed spec fn spec_value(&self) -> u64 {
        self.value
    }

    /// The cell that generated code reads and writes.
    pub fn borrow_mut_value(&mut self) -> (r: &mut u64)
        ensures
            *r == old(self).spec_value(),
            final(self).spec_value() == *final(r),
    {
        &mut self.value
    }

    /// The packed flags.
    pub fn value(&self) -> (r: u64)
        ensures
            r == self.spec_value(),
    {
        self.value
    }
}

impl Default for NZCV {
    fn default() -> (r: NZCV)
        ensures
            r.spec_value() == NZCV_RESET,
    {
        NZCV { value: NZCV_RESET }
    }
}

/// The guest's register file: the registers the translator models, each a 64-bit cell.
pub struct Registers {
    pub x0: u64,
    pub x1: u64,
    pub pc: u64,
    pub nzcv: NZCV,
}

/// Whether the register file models `reg`.
pub open spec fn is_mapped(reg: GuestReg) -> bool {
    reg == GuestReg::X(0) || reg == GuestReg::X(1)
}

impl Registers {
    pub open spec fn spec_x0(&self) -> u64 {
        self.x0
    }

    pub open spec fn spec_x1(&self) -> u64 {
        self.x1
    }

    pub open spec fn spec_pc(&self) -> u64 {
        self.pc
    }

    /// The value of a modelled register.
    pub open spec fn spec_reg(&self, reg: GuestReg) -> u64 {
        if reg == GuestReg::X(0) {
            self.spec_x0()
        } else {
            self.spec_x1()
        }
    }

    /// The cell of a modelled guest register.
    pub fn borrow_mut_reg(&mut self, reg: GuestReg) -> (r: &mut u64)
        requires
            is_mapped(reg),
        ensures
            *r == old(self).spec_reg(reg),
            final(self).spec_reg(reg) == *final(r),
            reg == GuestReg::X(0) ==> final(self).spec_x1() == old(self).spec_x1(),
            reg == GuestReg::X(1) ==> final(self).spec_x0() == old(self).spec_x0(),
            final(self).spec_pc() == old(self).spec_pc(),
            final(self).nzcv == old(self).nzcv,
    {
        if reg == GuestReg::X(0) {
            &mut self.x0
        } else {
            &mut self.x1
        }
    }

    /// The cell of the program counter.
    pub fn borrow_mut_pc(&mut self) -> (r: &mut u64)
        ensures
            *r == old(self).spec_pc(),
            final(self).spec_pc() == *final(r),
            final(self).spec_x0() == old(self).spec_x0(),
            final(self).spec_x1() == old(self).spec_x1(),
            final(self).nzcv == old(self).nzcv,
    {
        &mut self.pc
    }

    pub fn x0(&self) -> (r: u64)
        ensures
            r == self.spec_x0(),
    {
        self.x0
    }

    pub fn x1(&self) -> (r: u64)
        ensures
            r == self.spec_x1(),
    {
        self.x1
    }

    pub fn pc(&self) -> (r: u64)
        ensures
            r == self.spec_pc(),
    {
        self.pc
    }
}

impl Default for Registers {
    fn default() -> (r: Registers)
        ensures
            r.spec_x0() == 0 && r.spec_x1() == 0 && r.spec_pc() == 0,
            r.nzcv.spec_value() == NZCV_RESET,
    {
        Registers { x0: 0, x1: 0, pc: 0, nzcv: NZCV::default() }
    }
}

/// Where the generated code finds the execution context: the fixed host addresses of
/// the register file's cells, of the context itself and of its branch entry routine.
#[derive(Clone, Copy, Debug, PartialEq, Eq, Structural)]
pub struct Layout {
    pub x0: u64,
    pub x1: u64,
    pub pc: u64,
    pub nzcv: u64,
    pub context: u64,
    pub branch_entry: u64,
}

impl Layout {
    /// The register file's cells lie at distinct addresses.
    pub open spec fn wf(self) -> bool {
        &&& self.x0 != self.x1 && self.x0 != self.pc && self.x0 != self.nzcv
        &&& self.x1 != self.pc && self.x1 != self.nzcv
        &&& self.pc != self.nzcv
    }

    /// Whether the register file's cells lie at distinct addresses.
    pub fn is_wf(&self) -> (r: bool)
        ensures
            r == self.wf(),
    {
        self.x0 != self.x1 && self.x0 != self.pc && self.x0 != self.nzcv && self.x1 != self.pc
            && self.x1 != self.nzcv && self.pc != self.nzcv
    }

    /// The address of the cell of a modelled register.
    pub open spec fn cell_of(self, reg: GuestReg) -> u64 {
        if reg == GuestReg::X(0) {
            self.x0
        } else {
            self.x1
        }
    }

    /// The address of the cell of `reg`, or an error if the register file does not
    /// model it.
    pub fn reg_cell(&self, reg: GuestReg) -> (r: Result<u64, Error>)
        ensures
            is_mapped(reg) ==> r == Ok::<u64, Error>(self.cell_of(reg)),
            !is_mapped(reg) ==> r is Err && r->Err_0.kind == ErrorKind::Unmapped,
    {
        if reg == GuestReg::X(0) {
            Ok(self.x0)
        } else if reg == GuestReg::X(1) {
            Ok(self.x1)
        } else {
            Err(Error::with_kind(ErrorKind::Unmapped, "Unmapped register".to_owned()))
        }
    }
}

} // verus!
