use std::collections::HashMap;

use jitarm::context::{branch_target, Context, TEXT_OFFSET};
use jitarm::assembler::InstAssembler;
use jitarm::emitters::{emit_add, emit_mov};
use jitarm::error::ErrorKind;
use jitarm::guest::{Condition, GuestInst, GuestOp, GuestReg, Imm, Operand};
use jitarm::host::{HostReg, Width, RAX, RDI, RSI};
use jitarm::inst::{BranchKind, Entry, HostInst, PlainOp, RegImmOp, RegOp, RegRegOp};
use jitarm::registers::{Layout, Registers, NZCV, NZCV_RESET};

const X0: u64 = 0x1000;
const X1: u64 = 0x1008;
const PC: u64 = 0x1010;
const FLAGS: u64 = 0x1018;

fn layout() -> Layout {
    Layout { x0: X0, x1: X1, pc: PC, nzcv: FLAGS, context: 0x2000, branch_entry: 0x3000 }
}

/// A model of the host that runs translated code; calls are recorded, not made.
struct Sim {
    regs: [u64; 16],
    cf: bool,
    zf: bool,
    sf: bool,
    of: bool,
    mem: HashMap<u64, u64>,
    stack: Vec<u64>,
    calls: Vec<(u64, u64)>,
}

impl Sim {
    fn new(x0: u64, flags: u64) -> Sim {
        let mut mem = HashMap::new();
        mem.insert(X0, x0);
        mem.insert(X1, 0);
        mem.insert(PC, 0);
        mem.insert(FLAGS, flags);
        Sim { regs: [0; 16], cf: false, zf: false, sf: false, of: false, mem, stack: Vec::new(), calls: Vec::new() }
    }

    fn read(&self, r: HostReg) -> u64 {
        let v = self.regs[r.num as usize];
        match r.width {
            Width::B64 => v,
            Width::B32 => v & 0xffff_ffff,
            Width::B16 => v & 0xffff,
            Width::B8 => v & 0xff,
        }
    }

    fn write(&mut self, r: HostReg, v: u64) {
        let old = self.regs[r.num as usize];
        self.regs[r.num as usize] = match r.width {
            Width::B64 => v,
            Width::B32 => v & 0xffff_ffff,
            Width::B16 => (old & !0xffff) | (v & 0xffff),
            Width::B8 => (old & !0xff) | (v & 0xff),
        };
    }

    fn sub_flags(&mut self, a: u64, b: u64) {
        let r = a.wrapping_sub(b);
        self.cf = a < b;
        self.zf = r == 0;
        self.sf = r >> 63 == 1;
        self.of = (a as i64).checked_sub(b as i64).is_none();
    }

    fn logic_flags(&mut self, v: u64) {
        self.cf = false;
        self.of = false;
        self.zf = v == 0;
        self.sf = v >> 63 == 1;
    }

    fn step(&mut self, inst: HostInst) {
        match inst {
            HostInst::Plain { op: PlainOp::Lahf } => {
                let fb = ((self.sf as u64) << 7) | ((self.zf as u64) << 6) | 2 | self.cf as u64;
                self.regs[RAX as usize] = (self.regs[RAX as usize] & !0xff00) | (fb << 8);
            }
            HostInst::Plain { .. } => {}
            HostInst::Unary { op, reg } => match op {
                RegOp::Seto => self.write(reg, self.of as u64),
                RegOp::Push => self.stack.push(self.read(reg)),
                RegOp::Pop => {
                    let v = self.stack.pop().unwrap();
                    self.write(reg, v);
                }
                RegOp::Call => self.calls.push((self.regs[RDI as usize], self.regs[RSI as usize])),
            },
            HostInst::RegReg { op, dst, src } => {
                let (a, b) = (self.read(dst), self.read(src));
                match op {
                    RegRegOp::Mov16 => self.write(dst, b),
                    RegRegOp::Xor => {
                        self.write(dst, a ^ b);
                        self.logic_flags(a ^ b);
                    }
                    RegRegOp::Or => {
                        self.write(dst, a | b);
                        self.logic_flags(a | b);
                    }
                    RegRegOp::Sub => {
                        self.write(dst, a.wrapping_sub(b));
                        self.sub_flags(a, b);
                    }
                    RegRegOp::Add => {
                        let (r, carry) = a.overflowing_add(b);
                        self.write(dst, r);
                        self.cf = carry;
                        self.zf = r == 0;
                        self.sf = r >> 63 == 1;
                        self.of = (a as i64).checked_add(b as i64).is_none();
                    }
                    RegRegOp::And => {
                        self.write(dst, a & b);
                        self.logic_flags(a & b);
                    }
                }
            }
            HostInst::RegImm { op, dst, imm } => {
                let a = self.read(dst);
                let s = imm as i64 as u64;
                match op {
                    RegImmOp::And32 | RegImmOp::And8 => {
                        self.write(dst, a & s);
                        self.logic_flags(a & s);
                    }
                    RegImmOp::Shl => self.write(dst, a << (imm & 63)),
                    RegImmOp::Sar => self.write(dst, ((a as i64) >> (imm & 63)) as u64),
                    RegImmOp::Cmp8 => self.sub_flags(a, s),
                    RegImmOp::Xor16 => self.write(dst, (a ^ s) & 0xffff),
                }
            }
            HostInst::MovImm { dst, imm } => self.write(dst, imm),
            HostInst::Load { dst, base } => {
                let v = self.mem[&self.read(base)];
                self.write(dst, v);
            }
            HostInst::Store { base, src } => {
                let (a, v) = (self.read(base), self.read(src));
                self.mem.insert(a, v);
            }
            HostInst::Branch { .. } => unreachable!(),
        }
    }

    fn run(&mut self, code: &[Entry]) {
        let mut pc = 0usize;
        let mut budget = 10_000;
        while pc < code.len() {
            budget -= 1;
            assert!(budget > 0);
            match code[pc].inst {
                HostInst::Branch { kind, label } => {
                    let taken = match kind {
                        BranchKind::Je => self.zf,
                        BranchKind::Jne => !self.zf,
                        BranchKind::Jmp => true,
                    };
                    if taken {
                        pc = code.iter().position(|e| e.label == label).unwrap();
                    } else {
                        pc += 1;
                    }
                }
                inst => {
                    self.step(inst);
                    pc += 1;
                }
            }
        }
    }
}

fn inst(op: GuestOp, operands: Vec<Operand>) -> Option<GuestInst> {
    Some(GuestInst { op, operands })
}

fn x(n: u8) -> Operand {
    Operand::Reg(GuestReg::X(n))
}

fn imm(v: u64) -> Operand {
    Operand::Imm64(Imm::Unsigned(v))
}

fn run_block(program: Vec<Option<GuestInst>>, x0: u64, flags: u64) -> Sim {
    let ctx = Context::new(program, layout());
    let builder = ctx.translate(0).unwrap();
    let mut sim = Sim::new(x0, flags);
    sim.run(builder.entries());
    sim
}

fn cmp_then_beq() -> Vec<Option<GuestInst>> {
    vec![
        inst(GuestOp::Cmp, vec![x(0), imm(5)]),
        inst(GuestOp::BEq, vec![Operand::Label(Imm::Unsigned(8))]),
    ]
}

#[test]
fn cmp_beq_takes_branch_when_equal() {
    let sim = run_block(cmp_then_beq(), 5, 0);
    assert_eq!((sim.mem[&FLAGS] >> 30) & 1, 1);
    assert_eq!(sim.calls, vec![(0x2000, 8)]);
    assert_eq!(sim.mem[&PC], TEXT_OFFSET + 4);
}

#[test]
fn cmp_beq_falls_through_when_different() {
    let sim = run_block(cmp_then_beq(), 6, 0);
    assert_eq!((sim.mem[&FLAGS] >> 30) & 1, 0);
    assert!(sim.calls.is_empty());
}

fn ccmn_ne(nzcv: u64) -> Vec<Option<GuestInst>> {
    vec![inst(
        GuestOp::Ccmn,
        vec![x(0), imm(3), Operand::Imm32(Imm::Unsigned(nzcv)), Operand::Cond(Condition::NE)],
    )]
}

#[test]
fn ccmn_false_condition_writes_literal_flags() {
    for x0 in [0u64, 3, 5, u64::MAX - 2, u64::MAX] {
        let sim = run_block(ccmn_ne(0b0100), x0, NZCV_RESET);
        assert_eq!(sim.mem[&FLAGS], 0b0100 << 28);
    }
    let sim = run_block(ccmn_ne(0b1011), 9, 0x4000_0000);
    assert_eq!(sim.mem[&FLAGS], 0b1011 << 28);
}

#[test]
fn ccmn_true_condition_compares() {
    let sim = run_block(ccmn_ne(0b0100), u64::MAX - 2, 0);
    assert_eq!(sim.mem[&FLAGS], 0x6000_0000);
    let sim = run_block(ccmn_ne(0b0100), 1, 0);
    assert_eq!(sim.mem[&FLAGS], 0);
}

/// The guest's flags for `x - y` (a compare), computed from the definition.
fn guest_cmp(x: u64, y: u64) -> u64 {
    let r = x.wrapping_sub(y);
    let n = r >> 63;
    let z = (r == 0) as u64;
    let c = (x >= y) as u64;
    let v = (x as i64).checked_sub(y as i64).is_none() as u64;
    (n << 31) | (z << 30) | (c << 29) | (v << 28)
}

/// The guest's flags for `x + y` (a negative compare), computed from the definition.
fn guest_cmn(x: u64, y: u64) -> u64 {
    let (r, carry) = x.overflowing_add(y);
    let n = r >> 63;
    let z = (r == 0) as u64;
    let v = (x as i64).checked_add(y as i64).is_none() as u64;
    (n << 31) | (z << 30) | ((carry as u64) << 29) | (v << 28)
}

#[test]
fn cmp_flags_match_guest_definition() {
    assert_eq!(run_block(vec![inst(GuestOp::Cmp, vec![x(0), imm(5)])], 5, 0).mem[&FLAGS], 0x6000_0000);
    assert_eq!(run_block(vec![inst(GuestOp::Cmp, vec![x(0), imm(5)])], 6, 0).mem[&FLAGS], 0x2000_0000);
    assert_eq!(run_block(vec![inst(GuestOp::Cmp, vec![x(0), imm(5)])], 4, 0).mem[&FLAGS], 0x8000_0000);
    let values = [0u64, 1, 5, 0x7fff_ffff_ffff_ffff, 0x8000_0000_0000_0000, u64::MAX, 0xfff000];
    for a in values {
        for b in values {
            let sim = run_block(vec![inst(GuestOp::Cmp, vec![x(0), imm(b)])], a, 0);
            assert_eq!(sim.mem[&FLAGS], guest_cmp(a, b), "cmp {:#x}, {:#x}", a, b);
        }
    }
}

#[test]
fn cmn_flags_match_guest_definition() {
    assert_eq!(run_block(vec![inst(GuestOp::Cmn, vec![x(0), imm(1)])], u64::MAX, 0).mem[&FLAGS], 0x6000_0000);
    assert_eq!(run_block(vec![inst(GuestOp::Cmn, vec![x(0), imm(1)])], i64::MAX as u64, 0).mem[&FLAGS], 0x9000_0000);
    let values = [0u64, 1, 3, 0x7fff_ffff_ffff_ffff, 0x8000_0000_0000_0000, u64::MAX];
    for a in values {
        for b in [0u64, 1, 3, 0xfff, 0xfff000, i64::MAX as u64] {
            let sim = run_block(vec![inst(GuestOp::Cmn, vec![x(0), imm(b)])], a, 0);
            assert_eq!(sim.mem[&FLAGS], guest_cmn(a, b), "cmn {:#x}, {:#x}", a, b);
        }
    }
}

#[test]
fn adr_adds_displacement_to_program_counter() {
    let program = vec![inst(GuestOp::Cmp, vec![x(0), imm(0)]), inst(GuestOp::Adr, vec![x(1), Operand::Label(Imm::Unsigned(0x20))])];
    let sim = run_block(program, 0, 0);
    assert_eq!(sim.mem[&X1], TEXT_OFFSET + 4 + 0x20);
}

#[test]
fn block_ends_with_return_and_stops_at_branch() {
    let mut program = cmp_then_beq();
    program.push(inst(GuestOp::Cmp, vec![x(1), imm(1)]));
    let ctx = Context::new(program, layout());
    let b = ctx.translate(0).unwrap();
    let entries = b.entries();
    assert_eq!(entries[entries.len() - 1].inst, HostInst::Plain { op: PlainOp::Ret });
    assert!(!entries.iter().any(|e| e.inst == HostInst::MovImm { dst: HostReg::gpr64(RAX), imm: X1 }));
    // entered at the third instruction, the block compares x1
    let b = ctx.translate(8).unwrap();
    assert!(b.entries().iter().any(|e| e.inst == HostInst::MovImm { dst: HostReg::gpr64(RAX), imm: X1 }));
    // past the end: only the return
    let b = ctx.translate(40).unwrap();
    assert_eq!(b.entries().len(), 1);
}

#[test]
fn translation_errors_carry_their_kind() {
    let ctx = Context::new(vec![inst(GuestOp::Cmp, vec![x(2), imm(1)])], layout());
    assert_eq!(ctx.translate(0).unwrap_err().kind, ErrorKind::Unmapped);
    let ctx = Context::new(vec![inst(GuestOp::Cmp, vec![x(0), Operand::Imm64(Imm::Signed(-1))])], layout());
    assert_eq!(ctx.translate(0).unwrap_err().kind, ErrorKind::Decode);
    let ctx = Context::new(vec![None], layout());
    assert_eq!(ctx.translate(0).unwrap_err().kind, ErrorKind::Decode);
    let ctx = Context::new(
        vec![inst(
            GuestOp::Ccmn,
            vec![x(0), imm(3), Operand::Imm32(Imm::Unsigned(4)), Operand::Cond(Condition::EQ)],
        )],
        layout(),
    );
    assert_eq!(ctx.translate(0).unwrap_err().kind, ErrorKind::Decode);
    let ctx = Context::new(vec![inst(GuestOp::BEq, vec![x(0)])], layout());
    assert_eq!(ctx.translate(0).unwrap_err().kind, ErrorKind::Decode);
    assert_eq!(emit_add(&layout(), &mut InstAssembler::new(), &[x(0), x(1)]).unwrap_err().kind, ErrorKind::Decode);
    let mut b = InstAssembler::new();
    assert_eq!(emit_add(&layout(), &mut b, &[x(0), x(1), imm(1)]).unwrap(), true);
    assert_eq!(b.entries().len(), 6);
    assert_eq!(emit_mov(&layout(), &mut InstAssembler::new(), &[x(0), imm(1)]).unwrap_err().kind, ErrorKind::Decode);
}

#[test]
fn cache_reuses_compiled_block() {
    let mut ctx = Context::new(cmp_then_beq(), layout());
    assert!(!ctx.is_cached(0));
    assert_eq!(ctx.prepare(0).unwrap(), false);
    assert!(ctx.is_cached(0));
    let first: Vec<u8> = ctx.cached(0).unwrap().code().to_vec();
    assert_eq!(ctx.prepare(0).unwrap(), true);
    let again: Vec<u8> = ctx.cached(0).unwrap().code().to_vec();
    assert_eq!(first, again);
    let fresh = ctx.translate(0).unwrap().finalize().unwrap();
    assert_eq!(fresh.code().to_vec(), first);
    assert_eq!(*first.last().unwrap(), 0xC3);
    assert!(!ctx.set_layout(layout()));
}

#[test]
fn failed_translation_caches_nothing() {
    let mut ctx = Context::new(vec![None], layout());
    assert_eq!(ctx.prepare(0).unwrap_err().kind, ErrorKind::Decode);
    assert!(!ctx.is_cached(0));
    assert!(ctx.set_layout(layout()));
}

#[test]
fn branch_target_is_relative_to_program_counter() {
    assert_eq!(branch_target(TEXT_OFFSET + 8, -8), Some(0));
    assert_eq!(branch_target(TEXT_OFFSET + 8, 16), Some(24));
    assert_eq!(branch_target(TEXT_OFFSET, -4), None);
    assert_eq!(branch_target(TEXT_OFFSET - 4, 8), None);
}

#[test]
fn register_file_starts_with_zero_flag() {
    let mut regs = Registers::default();
    assert_eq!(regs.nzcv.value(), 0x4000_0000);
    *regs.borrow_mut_reg(GuestReg::X(1)) = 7;
    *regs.borrow_mut_pc() = TEXT_OFFSET;
    *regs.nzcv.borrow_mut_value() = 0;
    assert_eq!((regs.x0(), regs.x1(), regs.pc(), regs.nzcv.value()), (0, 7, TEXT_OFFSET, 0));
    assert_eq!(NZCV::default().value(), NZCV_RESET);
    assert_eq!(layout().reg_cell(GuestReg::X(1)).unwrap(), X1);
    assert_eq!(layout().reg_cell(GuestReg::W(0)).unwrap_err().kind, ErrorKind::Unmapped);
}

#[test]
fn cmn_with_zero_has_no_carry() {
    assert_eq!(run_block(vec![inst(GuestOp::Cmn, vec![x(0), imm(0)])], 0, 0).mem[&FLAGS], 0x4000_0000);
    assert_eq!(run_block(vec![inst(GuestOp::Cmn, vec![x(0), imm(0)])], u64::MAX, 0).mem[&FLAGS], 0x8000_0000);
    let sim = run_block(
        vec![inst(GuestOp::Ccmn, vec![x(0), imm(0), Operand::Imm32(Imm::Unsigned(0b0100)), Operand::Cond(Condition::NE)])],
        0,
        0,
    );
    assert_eq!(sim.mem[&FLAGS], 0x4000_0000);
}

#[test]
fn immediates_of_the_wrong_kind_are_rejected() {
    let decode = |program: Vec<Option<GuestInst>>| Context::new(program, layout()).translate(0).unwrap_err().kind;
    assert_eq!(decode(vec![inst(GuestOp::Cmp, vec![x(0), Operand::Imm32(Imm::Unsigned(5))])]), ErrorKind::Decode);
    assert_eq!(decode(vec![inst(GuestOp::Cmn, vec![x(0), Operand::Imm32(Imm::Unsigned(5))])]), ErrorKind::Decode);
    assert_eq!(decode(vec![inst(GuestOp::Cmn, vec![x(0), imm(1 << 63)])]), ErrorKind::Decode);
    assert_eq!(
        decode(vec![inst(GuestOp::Ccmn, vec![x(0), imm(3), imm(4), Operand::Cond(Condition::NE)])]),
        ErrorKind::Decode
    );
    assert_eq!(
        decode(vec![inst(
            GuestOp::Ccmn,
            vec![x(0), Operand::Imm32(Imm::Unsigned(3)), Operand::Imm32(Imm::Unsigned(4)), Operand::Cond(Condition::NE)],
        )]),
        ErrorKind::Decode
    );
}

fn run_with_x1(program: Vec<Option<GuestInst>>, x0: u64, x1: u64) -> Sim {
    let ctx = Context::new(program, layout());
    let builder = ctx.translate(0).unwrap();
    let mut sim = Sim::new(x0, 0);
    sim.mem.insert(X1, x1);
    sim.run(builder.entries());
    sim
}

#[test]
fn mov_copies_the_source_register() {
    let sim = run_with_x1(vec![inst(GuestOp::Mov, vec![x(0), x(1)])], 3, 42);
    assert_eq!((sim.mem[&X0], sim.mem[&X1]), (42, 42));
    assert_eq!(sim.mem[&FLAGS], 0);
    let ctx = Context::new(vec![inst(GuestOp::Mov, vec![x(0), x(5)])], layout());
    assert_eq!(ctx.translate(0).unwrap_err().kind, ErrorKind::Unmapped);
}

#[test]
fn arithmetic_and_logic_write_the_destination() {
    let sim = run_with_x1(vec![inst(GuestOp::Add, vec![x(0), x(1), imm(5)])], 0, u64::MAX);
    assert_eq!(sim.mem[&X0], 4);
    let sim = run_with_x1(vec![inst(GuestOp::Sub, vec![x(1), x(0), x(1)])], 10, 3);
    assert_eq!(sim.mem[&X1], 7);
    assert_eq!(sim.mem[&FLAGS], 0);
    let sim = run_with_x1(vec![inst(GuestOp::And, vec![x(0), x(0), x(1)])], 0b1100, 0b1010);
    assert_eq!(sim.mem[&X0], 0b1000);
    let sim = run_with_x1(vec![inst(GuestOp::Subs, vec![x(0), x(0), imm(5)])], 5, 0);
    assert_eq!(sim.mem[&X0], 0);
    assert_eq!(sim.mem[&FLAGS], guest_cmp(5, 5));
    let sim = run_with_x1(vec![inst(GuestOp::Subs, vec![x(0), x(1), x(0)])], 9, 4);
    assert_eq!(sim.mem[&X0], 4u64.wrapping_sub(9));
    assert_eq!(sim.mem[&FLAGS], guest_cmp(4, 9));
    let ctx = Context::new(vec![inst(GuestOp::Add, vec![x(0), x(1), Operand::Imm32(Imm::Unsigned(1))])], layout());
    assert_eq!(ctx.translate(0).unwrap_err().kind, ErrorKind::Decode);
    let ctx = Context::new(vec![inst(GuestOp::Add, vec![x(0), Operand::Reg(GuestReg::W(1)), imm(1)])], layout());
    assert_eq!(ctx.translate(0).unwrap_err().kind, ErrorKind::Unmapped);
}

#[test]
fn layouts_with_shared_cells_are_refused() {
    let mut ctx = Context::new(vec![], layout());
    let mut bad = layout();
    bad.pc = bad.nzcv;
    assert!(!bad.is_wf());
    assert!(!ctx.set_layout(bad));
    assert_eq!(ctx.get_layout(), layout());
    assert!(layout().is_wf());
}
