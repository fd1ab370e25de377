use jitarm::assembler::InstAssembler;
use jitarm::flags::map_x64_to_half_if;
use jitarm::guest::{is_aarch64_half_reg, GuestReg};
use jitarm::inst::{HostInst, PlainOp};
use jitarm::registers::NZCV;
use jitarm::error::ErrorKind;
use jitarm::host::{map_reg_16, map_reg_32, map_reg_8, HostReg, Width, R10, R11, R8, R9, RAX, RCX, RDI, RDX, RSI};
use jitarm::regalloc::RegistersHandler;

#[test]
fn get_free_hands_out_pool_in_order_then_fails() {
    let mut h = RegistersHandler::new();
    let expected = [RAX, RCX, RDX, RSI, RDI, R8, R9, R10, R11];
    for num in expected {
        let r = h.get_free().unwrap();
        assert_eq!(r, HostReg { num, width: Width::B64 });
    }
    let err = h.get_free().unwrap_err();
    assert_eq!(err.kind, ErrorKind::Exhausted);
    assert_eq!(err.message(), "No free registers remaining");
}

#[test]
fn reserve_blocks_every_width_of_a_register() {
    let mut h = RegistersHandler::new();
    h.reserve(HostReg { num: RAX, width: Width::B16 });
    let r = h.get_free().unwrap();
    assert_eq!(r.num, RCX);
    let mut h = RegistersHandler::new();
    h.reserve(HostReg { num: RCX, width: Width::B8 });
    assert_eq!(h.get_free().unwrap().num, RAX);
    assert_eq!(h.get_free().unwrap().num, RDX);
}

#[test]
fn live_requests_are_distinct() {
    let mut h = RegistersHandler::new();
    let mut seen: Vec<u8> = Vec::new();
    while let Ok(r) = h.get_free() {
        assert!(!seen.contains(&r.num));
        seen.push(r.num);
    }
    assert_eq!(seen.len(), 9);
}

#[test]
fn reserving_whole_pool_exhausts_it() {
    let mut h = RegistersHandler::new();
    for num in [RAX, RCX, RDX, RSI, RDI, R8, R9, R10, R11] {
        h.reserve(HostReg { num, width: Width::B32 });
    }
    assert_eq!(h.get_free().unwrap_err().kind, ErrorKind::Exhausted);
}

#[test]
fn width_views_share_the_register() {
    let rsi = HostReg::gpr64(RSI);
    assert_eq!(map_reg_32(&rsi), HostReg { num: RSI, width: Width::B32 });
    assert_eq!(map_reg_16(&rsi), HostReg { num: RSI, width: Width::B16 });
    assert_eq!(map_reg_8(&rsi), HostReg { num: RSI, width: Width::B8 });
    assert_eq!(map_reg_8(&rsi).full_register(), rsi);
    assert!(rsi.is_gpr64());
    assert!(!map_reg_32(&rsi).is_gpr64());
}

#[test]
fn half_guest_registers_get_32_bit_views() {
    let rax = HostReg::gpr64(RAX);
    assert_eq!(map_x64_to_half_if(rax, GuestReg::W(3)), HostReg { num: RAX, width: Width::B32 });
    assert_eq!(map_x64_to_half_if(rax, GuestReg::X(3)), rax);
    assert!(is_aarch64_half_reg(GuestReg::Wzr));
    assert!(is_aarch64_half_reg(GuestReg::Wsp));
    assert!(!is_aarch64_half_reg(GuestReg::Sp));
}

#[test]
fn build_errors_carry_their_message() {
    let e = jitarm::error::Error::new("encoding failed".to_string());
    assert_eq!(e.kind, ErrorKind::Build);
    assert_eq!(e.message(), "encoding failed");
}

#[test]
fn flag_capture_code_is_stored_through_free_register() {
    let mut b = InstAssembler::new();
    NZCV::emit_update(&mut b, 0x1234);
    let e = b.entries();
    assert_eq!(e.len(), 21);
    assert_eq!(e[0].inst, HostInst::Plain { op: PlainOp::Lahf });
    assert_eq!(e[19].inst, HostInst::MovImm { dst: HostReg::gpr64(RAX), imm: 0x1234 });
    assert_eq!(e[20].inst, HostInst::Store { base: HostReg::gpr64(RAX), src: HostReg::gpr64(RCX) });
    let mut b = InstAssembler::new();
    b.emit_set_reg_var(HostReg::gpr64(RAX), 0x40);
    assert_eq!(b.entries()[1].inst, HostInst::Store { base: HostReg::gpr64(RCX), src: HostReg::gpr64(RAX) });
}
