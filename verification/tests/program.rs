use loot_decompiler::a86::{
    load, normalize, Arg, Instruction, MachInst, MachMnemonic, MachOperand, MachReg, Register,
};
use loot_decompiler::Error;

fn mi(ip: u64, mnemonic: MachMnemonic, op0: MachOperand, op1: MachOperand) -> MachInst {
    MachInst {
        ip,
        mnemonic,
        op0,
        op1,
    }
}

fn sym(name: &str, addr: u64) -> (String, u64) {
    (name.to_string(), addr)
}

fn small_stream() -> Vec<MachInst> {
    vec![
        mi(
            100,
            MachMnemonic::Push,
            MachOperand::Reg(MachReg::Rbx),
            MachOperand::Absent,
        ),
        mi(
            101,
            MachMnemonic::Mov,
            MachOperand::Reg(MachReg::Rax),
            MachOperand::Imm(0x10),
        ),
        mi(
            105,
            MachMnemonic::Ret,
            MachOperand::Absent,
            MachOperand::Absent,
        ),
    ]
}

#[test]
fn load_resolves_entry_point() {
    let p = load(&small_stream(), vec![sym("entry", 100)]).unwrap();
    assert_eq!(p.entry_point(), 100);
    assert_eq!(p.instructions().len(), 3);
    // The entry symbol resolves to the entry point, which indexes the
    // first instruction.
    assert_eq!(p.symbol_to_address("entry"), Some(p.entry_point()));
    assert_eq!(p.address_to_index(p.entry_point()), Some(0));
    assert_eq!(p.index_to_address(0), Some(p.entry_point()));
}

#[test]
fn load_rejects_entry_not_at_start() {
    match load(&small_stream(), vec![sym("entry", 101)]) {
        Err(e) => assert_eq!(e, Error::EntryAddressMismatch),
        Ok(_) => panic!("expected an entry address mismatch error"),
    }
}

#[test]
fn load_normalizes_instructions() {
    let p = load(&small_stream(), vec![sym("entry", 100)]).unwrap();
    assert_eq!(
        p.instructions()[0],
        Instruction::Push(Arg::Register(Register::Rbx))
    );
    assert_eq!(
        p.instructions()[1],
        Instruction::Mov(Arg::Register(Register::Rax), Arg::Literal(0x10))
    );
    assert_eq!(p.instructions()[2], Instruction::Ret);
}

#[test]
fn address_index_bijection() {
    let p = load(&small_stream(), vec![sym("entry", 100)]).unwrap();
    assert_eq!(p.address_to_index(100), Some(0));
    assert_eq!(p.address_to_index(101), Some(1));
    assert_eq!(p.address_to_index(105), Some(2));
    assert_eq!(p.address_to_index(102), None);
    assert_eq!(p.index_to_address(0), Some(100));
    assert_eq!(p.index_to_address(1), Some(101));
    assert_eq!(p.index_to_address(2), Some(105));
    assert_eq!(p.index_to_address(3), None);
    // Round trip through both maps for every address in the program.
    for a in [100u64, 101, 105] {
        let i = p.address_to_index(a).unwrap();
        assert_eq!(p.index_to_address(i), Some(a));
    }
}

#[test]
fn symbol_lookup_latest_entry_wins() {
    let p = load(
        &small_stream(),
        vec![
            sym("entry", 100),
            sym("foo", 101),
            sym("bar", 101),
            sym("foo", 105),
        ],
    )
    .unwrap();
    assert_eq!(p.symbol_to_address("entry"), Some(100));
    assert_eq!(p.symbol_to_address("foo"), Some(105));
    assert_eq!(p.symbol_to_address("bar"), Some(101));
    assert_eq!(p.symbol_to_address("baz"), None);
}

#[test]
fn symbol_tables_are_consistent() {
    let p = load(
        &small_stream(),
        vec![
            sym("entry", 100),
            sym("foo", 101),
            sym("bar", 101),
            sym("foo", 105),
        ],
    )
    .unwrap();
    // Every name that resolves to an address is among that address's symbols.
    for name in ["entry", "foo", "bar"] {
        let a = p.symbol_to_address(name).unwrap();
        assert!(p.address_to_symbols(a).contains(&name.to_string()));
    }
    let at_101 = p.address_to_symbols(101);
    assert!(at_101.contains(&"foo".to_string()));
    assert!(at_101.contains(&"bar".to_string()));
    assert_eq!(at_101.len(), 2);
    assert!(p.address_to_symbols(999).is_empty());
}

#[test]
fn load_missing_entry_symbol() {
    match load(&small_stream(), vec![sym("err", 105)]) {
        Err(e) => assert_eq!(e, Error::MissingEntrySymbol),
        Ok(_) => panic!("expected a missing entry symbol error"),
    }
}

#[test]
fn load_rejects_unsupported_instruction() {
    let mut stream = small_stream();
    stream[1].mnemonic = MachMnemonic::Other;
    match load(&stream, vec![sym("entry", 100)]) {
        Err(e) => assert_eq!(e, Error::BadInstruction { index: 1 }),
        Ok(_) => panic!("expected a bad instruction error"),
    }
}

#[test]
fn load_rejects_non_increasing_addresses() {
    let mut stream = small_stream();
    stream[2].ip = 101;
    match load(&stream, vec![sym("entry", 100)]) {
        Err(e) => assert_eq!(e, Error::NonIncreasingAddress { index: 2 }),
        Ok(_) => panic!("expected a non-increasing address error"),
    }
}

#[test]
fn normalize_register_forms() {
    let m = mi(
        0,
        MachMnemonic::Add,
        MachOperand::Reg(MachReg::Rax),
        MachOperand::Reg(MachReg::R8),
    );
    assert_eq!(
        normalize(&m),
        Ok(Instruction::Add(
            Arg::Register(Register::Rax),
            Arg::Register(Register::R8)
        ))
    );
}

#[test]
fn normalize_memory_operand() {
    let m = mi(
        0,
        MachMnemonic::Mov,
        MachOperand::Mem {
            base: MachReg::Rbp,
            disp: 0xfffffffffffffff8,
        },
        MachOperand::Reg(MachReg::Rax),
    );
    assert_eq!(
        normalize(&m),
        Ok(Instruction::Mov(
            Arg::Offset(Register::Rbp, -8),
            Arg::Register(Register::Rax)
        ))
    );
}

#[test]
fn normalize_branches_resolve_to_addresses() {
    let m = mi(
        0,
        MachMnemonic::Jne,
        MachOperand::Near(0x401000),
        MachOperand::Absent,
    );
    assert_eq!(normalize(&m), Ok(Instruction::Jne(Arg::Address(0x401000))));
    let c = mi(
        0,
        MachMnemonic::Call,
        MachOperand::Near(0x402000),
        MachOperand::Absent,
    );
    assert_eq!(normalize(&c), Ok(Instruction::Call(0x402000)));
}

#[test]
fn normalize_rejects_unknown_register() {
    let m = mi(
        0,
        MachMnemonic::Push,
        MachOperand::Reg(MachReg::Other),
        MachOperand::Absent,
    );
    assert_eq!(normalize(&m), Err(Error::UnsupportedRegister));
}

#[test]
fn normalize_rejects_unknown_shape() {
    let m = mi(
        0,
        MachMnemonic::Push,
        MachOperand::Imm(4),
        MachOperand::Absent,
    );
    assert_eq!(normalize(&m), Err(Error::UnsupportedInstruction));
    let r = mi(
        0,
        MachMnemonic::Ret,
        MachOperand::Reg(MachReg::Rax),
        MachOperand::Absent,
    );
    assert_eq!(normalize(&r), Err(Error::UnsupportedInstruction));
    let o = mi(0, MachMnemonic::Other, MachOperand::Absent, MachOperand::Absent);
    assert_eq!(normalize(&o), Err(Error::UnsupportedInstruction));
}
