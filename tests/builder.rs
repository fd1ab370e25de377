use jitarm::assembler::InstAssembler;
use jitarm::inst::{BranchKind, HostInst, PlainOp};

fn nop() -> HostInst {
    HostInst::Plain { op: PlainOp::Nop }
}

fn lahf() -> HostInst {
    HostInst::Plain { op: PlainOp::Lahf }
}

/// Follows the jump at `at` (short or near form) and returns where it lands.
fn jump_target(code: &[u8], at: usize) -> usize {
    match code[at] {
        0xEB => (at as i64 + 2 + code[at + 1] as i8 as i64) as usize,
        0xE9 => {
            let d = i32::from_le_bytes([code[at + 1], code[at + 2], code[at + 3], code[at + 4]]);
            (at as i64 + 5 + d as i64) as usize
        }
        other => panic!("not a jump: {:#x}", other),
    }
}

#[test]
fn labels_count_up_from_one() {
    let mut b = InstAssembler::new();
    assert_eq!(b.create_label().id(), 1);
    assert_eq!(b.create_label().id(), 2);
    assert!(b.entries().is_empty());
}

#[test]
fn forward_branch_lands_on_bound_instruction() {
    let mut b = InstAssembler::new();
    let label = b.create_label();
    b.add_branch(BranchKind::Jmp, &label);
    for _ in 0..3 {
        b.add(nop());
    }
    b.add_with_label(lahf(), &label);
    b.add(HostInst::Plain { op: PlainOp::Ret });
    let block = b.finalize().unwrap();
    let code: &[u8] = &block.code()[..];
    assert_eq!(code[0], 0xEB);
    let t = jump_target(code, 0);
    assert_eq!(code[t], 0x9F);
    assert_eq!(t, 5);
}

#[test]
fn far_forward_branch_takes_wide_displacement() {
    let mut b = InstAssembler::new();
    let label = b.create_label();
    b.add_branch(BranchKind::Jmp, &label);
    for _ in 0..200 {
        b.add(nop());
    }
    b.add_with_label(lahf(), &label);
    b.add(HostInst::Plain { op: PlainOp::Ret });
    let block = b.finalize().unwrap();
    let code: &[u8] = &block.code()[..];
    assert_eq!(code[0], 0xE9);
    let t = jump_target(code, 0);
    assert_eq!(t, 205);
    assert_eq!(code[t], 0x9F);
}

#[test]
fn backward_branch_lands_on_bound_instruction() {
    for count in [4usize, 300] {
        let mut b = InstAssembler::new();
        let label = b.create_label();
        b.add(nop());
        b.add_with_label(lahf(), &label);
        for _ in 0..count {
            b.add(nop());
        }
        b.add_branch(BranchKind::Jne, &label);
        b.add(HostInst::Plain { op: PlainOp::Ret });
        let block = b.finalize().unwrap();
        let code: &[u8] = &block.code()[..];
        let at = 2 + count;
        let t = if code[at] == 0x75 {
            (at as i64 + 2 + code[at + 1] as i8 as i64) as usize
        } else {
            assert_eq!(&code[at..at + 2], &[0x0F, 0x85]);
            let d = i32::from_le_bytes([code[at + 2], code[at + 3], code[at + 4], code[at + 5]]);
            (at as i64 + 6 + d as i64) as usize
        };
        assert_eq!(t, 1);
        assert_eq!(code[t], 0x9F);
        if count > 200 {
            assert_eq!(code[at], 0x0F);
        }
    }
}
