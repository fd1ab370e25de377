use vstd::prelude::*;
use iced_x86::{
    BlockEncoder, BlockEncoderOptions, Code, IcedError, Instruction, InstructionBlock,
    MemoryOperand, Register,
};
use memmap::{Mmap, MmapMut};
use crate::host::Width;
use crate::assembler::to_iced;
use crate::inst::{BranchKind, Entry, PlainOp, RegImmOp, RegOp, RegRegOp};

verus! {

#[verifier::external_type_specification]
#[verifier::external_body]
pub struct ExInstruction(iced_x86::Instruction);

#[verifier::external_type_specification]
#[verifier::external_body]
pub struct ExRegister(iced_x86::Register);

#[verifier::external_type_specification]
#[verifier::external_body]
pub struct ExIcedError(iced_x86::IcedError);

#[verifier::external_type_specification]
#[verifier::external_body]
pub struct ExMmap(memmap::Mmap);

#[verifier::external_type_specification]
#[verifier::external_body]
pub struct ExMmapMut(memmap::MmapMut);

#[verifier::external_type_specification]
#[verifier::external_body]
pub struct ExIoError(std::io::Error);

/// The bytes that an executable region holds.
pub uninterp spec fn region_bytes(m: Mmap) -> Seq<u8>;

/// The bytes that a writable region holds.
pub uninterp spec fn writable_bytes(m: MmapMut) -> Seq<u8>;

/// Relies on iced_x86's `Register + u32`: the register `slot` places after the first
/// register of the given width in iced's register order (`al`, `ax`, `eax`, `rax`).
#[verifier::external_body]
pub(crate) fn iced_register(width: Width, slot: u32) -> Register
    requires
        slot < 16 || (width == Width::B8 && slot < 20),
{
    let first = match width {
        Width::B8 => Register::AL,
        Width::B16 => Register::AX,
        Width::B32 => Register::EAX,
        Width::B64 => Register::RAX,
    };
    first + slot
}

/// Relies on iced_x86::Instruction::with: an instruction without operands.
#[verifier::external_body]
pub(crate) fn iced_with(op: PlainOp) -> Instruction {
    Instruction::with(match op {
        PlainOp::Lahf => Code::Lahf,
        PlainOp::Nop => Code::Nopd,
        PlainOp::Ret => Code::Retnq,
    })
}

/// Relies on iced_x86::Instruction::with1: an instruction with one register operand.
#[verifier::external_body]
pub(crate) fn iced_with1(op: RegOp, reg: Register) -> Result<Instruction, IcedError> {
    let code = match op {
        RegOp::Seto => Code::Seto_rm8,
        RegOp::Push => Code::Push_r64,
        RegOp::Pop => Code::Pop_r64,
        RegOp::Call => Code::Call_rm64,
    };
    Instruction::with1(code, reg)
}

/// Relies on iced_x86::Instruction::with2: an instruction with two register operands.
#[verifier::external_body]
pub(crate) fn iced_with2_regs(op: RegRegOp, dst: Register, src: Register) -> Result<
    Instruction,
    IcedError,
> {
    let code = match op {
        RegRegOp::Mov16 => Code::Mov_r16_rm16,
        RegRegOp::Xor => Code::Xor_r64_rm64,
        RegRegOp::Or => Code::Or_r64_rm64,
        RegRegOp::Sub => Code::Sub_r64_rm64,
        RegRegOp::Add => Code::Add_r64_rm64,
        RegRegOp::And => Code::And_r64_rm64,
    };
    Instruction::with2(code, dst, src)
}

/// Relies on iced_x86::Instruction::with2: a register and an immediate operand.
#[verifier::external_body]
pub(crate) fn iced_with2_imm(op: RegImmOp, dst: Register, imm: i32) -> Result<
    Instruction,
    IcedError,
> {
    let code = match op {
        RegImmOp::And32 => Code::And_rm64_imm32,
        RegImmOp::And8 => Code::And_rm64_imm8,
        RegImmOp::Shl => Code::Sal_rm64_imm8,
        RegImmOp::Sar => Code::Sar_rm64_imm8,
        RegImmOp::Cmp8 => Code::Cmp_rm64_imm8,
        RegImmOp::Xor16 => Code::Xor_rm16_imm8,
    };
    Instruction::with2(code, dst, imm)
}

/// Relies on iced_x86::Instruction::with2: `mov r64, imm64`.
#[verifier::external_body]
pub(crate) fn iced_with2_imm64(dst: Register, imm: u64) -> Result<Instruction, IcedError> {
    Instruction::with2(Code::Mov_r64_imm64, dst, imm)
}

/// Relies on iced_x86::Instruction::with2 and MemoryOperand::with_base: `mov r64, [base]`.
#[verifier::external_body]
pub(crate) fn iced_with2_load(dst: Register, base: Register) -> Result<Instruction, IcedError> {
    Instruction::with2(Code::Mov_r64_rm64, dst, MemoryOperand::with_base(base))
}

/// Relies on iced_x86::Instruction::with2 and MemoryOperand::with_base: `mov [base], r64`.
#[verifier::external_body]
pub(crate) fn iced_with2_store(base: Register, src: Register) -> Result<Instruction, IcedError> {
    Instruction::with2(Code::Mov_rm64_r64, MemoryOperand::with_base(base), src)
}

/// Relies on iced_x86::Instruction::with_branch: a relative jump to `target`.
#[verifier::external_body]
pub(crate) fn iced_with_branch(kind: BranchKind, target: u64) -> Result<Instruction, IcedError> {
    let code = match kind {
        BranchKind::Je => Code::Je_rel32_64,
        BranchKind::Jne => Code::Jne_rel32_64,
        BranchKind::Jmp => Code::Jmp_rel32_64,
    };
    Instruction::with_branch(code, target)
}

/// Relies on iced_x86::Instruction::set_ip: the address the block encoder resolves
/// branches against.
#[verifier::external_body]
pub(crate) fn iced_set_ip(inst: &mut Instruction, ip: u64) {
    inst.set_ip(ip);
}

/// The machine code that the block encoder lays out for these entries from address 0.
pub uninterp spec fn encoded(entries: Seq<Entry>) -> Seq<u8>;

/// Relies on iced_x86::BlockEncoder::encode: the entries, each in the encoder's form
/// (`to_iced`), laid out from address 0 in 64-bit mode, each branch resolved to the
/// instruction bound to its label; the bytes depend on the entries alone.
#[verifier::external_body]
pub(crate) fn iced_encode(entries: &Vec<Entry>) -> (r: Result<Vec<u8>, IcedError>)
    requires
        forall|i: int| 0 <= i < entries@.len() ==> (#[trigger] entries@[i]).inst.wf(),
    ensures
        r matches Ok(buf) ==> buf@ == encoded(entries@),
{
    let insts = entries.iter().map(to_iced).collect::<Result<Vec<Instruction>, IcedError>>()?;
    let block = InstructionBlock::new(&insts, 0);
    match BlockEncoder::encode(64, block, BlockEncoderOptions::NONE) {
        Ok(result) => Ok(result.code_buffer),
        Err(err) => Err(err),
    }
}

/// Relies on IcedError's Display: the error's message.
#[verifier::external_body]
pub(crate) fn iced_error_message(err: &IcedError) -> String {
    err.to_string()
}

/// Relies on memmap's MmapMut::map_anon: a fresh anonymous region of `len` bytes,
/// filled with zeros.
#[verifier::external_body]
pub(crate) fn map_anon(len: usize) -> (r: Result<MmapMut, std::io::Error>)
    ensures
        r matches Ok(m) ==> writable_bytes(m) == Seq::new(len as nat, |i: int| 0u8),
{
    MmapMut::map_anon(len)
}

/// Relies on the slice method copy_from_slice, reached through MmapMut's DerefMut: the
/// region then holds `bytes`; the lengths must agree.
#[verifier::external_body]
pub(crate) fn copy_into(m: &mut MmapMut, bytes: &Vec<u8>)
    requires
        writable_bytes(*old(m)).len() == bytes@.len(),
    ensures
        writable_bytes(*final(m)) == bytes@,
{
    m.copy_from_slice(bytes);
}

/// Relies on memmap's MmapMut::make_exec: the same bytes, now executable and read-only.
#[verifier::external_body]
pub(crate) fn make_exec(m: MmapMut) -> (r: Result<Mmap, std::io::Error>)
    ensures
        r matches Ok(x) ==> region_bytes(x) == writable_bytes(m),
{
    m.make_exec()
}

/// Relies on std::io::Error's Display: the error's message.
#[verifier::external_body]
pub(crate) fn io_error_message(err: &std::io::Error) -> String {
    err.to_string()
}

} // verus!
