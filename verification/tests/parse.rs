use loot_decompiler::a86::{load, MachInst, MachMnemonic, MachOperand, MachReg, Program};
use loot_decompiler::decompiler::{parse, parse_defines, parse_expr};
use loot_decompiler::loot::{Datum, Expr, Operation};
use loot_decompiler::Error;

type Triple = (MachMnemonic, MachOperand, MachOperand);

fn reg(r: MachReg) -> MachOperand {
    MachOperand::Reg(r)
}

fn assemble(triples: Vec<Triple>, syms: Vec<(String, u64)>) -> Program {
    let mach: Vec<MachInst> = triples
        .into_iter()
        .enumerate()
        .map(|(i, (mnemonic, op0, op1))| MachInst {
            ip: i as u64,
            mnemonic,
            op0,
            op1,
        })
        .collect();
    load(&mach, syms).unwrap()
}

/// Wraps a body in the fixed prologue, the definitions cursor step, the
/// fixed four-instruction epilogue, and the error trap; addresses equal
/// indices, so the error trap's address is `4 + body len + 4`.
fn build(body: Vec<Triple>, mut extra_syms: Vec<(String, u64)>) -> Program {
    let mut triples: Vec<Triple> = vec![
        (MachMnemonic::Push, reg(MachReg::Rbx), MachOperand::Absent),
        (MachMnemonic::Push, reg(MachReg::R15), MachOperand::Absent),
        (MachMnemonic::Mov, reg(MachReg::Rbx), reg(MachReg::Rdi)),
        (MachMnemonic::Add, reg(MachReg::Rbx), MachOperand::Imm(8)),
    ];
    triples.extend(body);
    triples.push((MachMnemonic::Add, reg(MachReg::Rsp), MachOperand::Imm(8)));
    triples.push((MachMnemonic::Pop, reg(MachReg::R15), MachOperand::Absent));
    triples.push((MachMnemonic::Pop, reg(MachReg::Rbx), MachOperand::Absent));
    triples.push((MachMnemonic::Ret, MachOperand::Absent, MachOperand::Absent));
    let err_addr = triples.len() as u64;
    triples.push((MachMnemonic::Ret, MachOperand::Absent, MachOperand::Absent));
    let mut syms = vec![("entry".to_string(), 0), ("err".to_string(), err_addr)];
    syms.append(&mut extra_syms);
    assemble(triples, syms)
}

fn mov_rax_imm(lit: u64) -> Triple {
    (MachMnemonic::Mov, reg(MachReg::Rax), MachOperand::Imm(lit))
}

fn int_typecheck(src: MachReg, target: u64) -> Vec<Triple> {
    vec![
        (MachMnemonic::Mov, reg(MachReg::R9), reg(src)),
        (MachMnemonic::And, reg(MachReg::R9), MachOperand::Imm(0xf)),
        (MachMnemonic::Cmp, reg(MachReg::R9), MachOperand::Imm(0)),
        (MachMnemonic::Jne, MachOperand::Near(target), MachOperand::Absent),
    ]
}

fn lit_int(i: i64) -> Expr {
    Expr::Literal(Datum::Integer(i))
}

#[test]
fn scenario_literal_boolean() {
    // One move-accumulator-immediate of the true pattern.
    let p = build(vec![mov_rax_imm(0b011000)], vec![]);
    let prog = parse(&p).unwrap();
    assert!(prog.defines.is_empty());
    assert_eq!(*prog.expr, Expr::Literal(Datum::Boolean(true)));
}

#[test]
fn scenario_add1() {
    // Load Integer(1), type-check the accumulator against the error trap,
    // then add the tagged unit.
    let err_addr = 4 + 6 + 4;
    let mut body = vec![mov_rax_imm(0x10)];
    body.extend(int_typecheck(MachReg::Rax, err_addr));
    body.push((MachMnemonic::Add, reg(MachReg::Rax), MachOperand::Imm(0x10)));
    let p = build(body, vec![]);
    let prog = parse(&p).unwrap();
    assert_eq!(
        *prog.expr,
        Expr::Op(Operation::Add1(Box::new(lit_int(1))))
    );
}

#[test]
fn scenario_if() {
    // Test expression, compare-accumulator, jump-equal to the false arm,
    // true arm, jump to the end, false arm.
    let body = vec![
        mov_rax_imm(0x10),
        (MachMnemonic::Cmp, reg(MachReg::Rax), MachOperand::Imm(0b111000)),
        (MachMnemonic::Je, MachOperand::Near(9), MachOperand::Absent),
        mov_rax_imm(0b011000),
        (MachMnemonic::Jmp, MachOperand::Near(10), MachOperand::Absent),
        mov_rax_imm(0b111000),
    ];
    let p = build(body, vec![]);
    let prog = parse(&p).unwrap();
    assert_eq!(
        *prog.expr,
        Expr::If(
            Box::new(lit_int(1)),
            Box::new(Expr::Literal(Datum::Boolean(true))),
            Box::new(Expr::Literal(Datum::Boolean(false))),
        )
    );
}

#[test]
fn scenario_plus() {
    // Evaluate 1, spill it, evaluate 2, then the guarded binary idiom.
    let err_addr = 4 + 13 + 4;
    let mut body = vec![
        mov_rax_imm(0x10),
        (MachMnemonic::Push, reg(MachReg::Rax), MachOperand::Absent),
        mov_rax_imm(0x20),
        (MachMnemonic::Pop, reg(MachReg::R8), MachOperand::Absent),
    ];
    body.extend(int_typecheck(MachReg::R8, err_addr));
    body.extend(int_typecheck(MachReg::Rax, err_addr));
    body.push((MachMnemonic::Add, reg(MachReg::Rax), reg(MachReg::R8)));
    let p = build(body, vec![]);
    let prog = parse(&p).unwrap();
    assert_eq!(
        *prog.expr,
        Expr::Op(Operation::Plus(Box::new(lit_int(1)), Box::new(lit_int(2))))
    );
}

#[test]
fn scenario_read_byte() {
    // Stack-align pad + call + unpad, targeting the read_byte support symbol.
    let body = vec![
        (MachMnemonic::Mov, reg(MachReg::R15), reg(MachReg::Rsp)),
        (MachMnemonic::And, reg(MachReg::R15), MachOperand::Imm(0x8)),
        (MachMnemonic::Sub, reg(MachReg::Rsp), reg(MachReg::R15)),
        (MachMnemonic::Call, MachOperand::Near(1000), MachOperand::Absent),
        (MachMnemonic::Add, reg(MachReg::Rsp), reg(MachReg::R15)),
    ];
    let p = build(body, vec![("read_byte".to_string(), 1000)]);
    let prog = parse(&p).unwrap();
    assert_eq!(*prog.expr, Expr::Op(Operation::ReadByte));
}

#[test]
fn unknown_call_target_is_hard_failure() {
    let body = vec![
        (MachMnemonic::Mov, reg(MachReg::R15), reg(MachReg::Rsp)),
        (MachMnemonic::And, reg(MachReg::R15), MachOperand::Imm(0x8)),
        (MachMnemonic::Sub, reg(MachReg::Rsp), reg(MachReg::R15)),
        (MachMnemonic::Call, MachOperand::Near(1000), MachOperand::Absent),
        (MachMnemonic::Add, reg(MachReg::Rsp), reg(MachReg::R15)),
    ];
    let p = build(body, vec![]);
    assert_eq!(
        parse(&p).unwrap_err(),
        Error::UnknownCallTarget {
            index: 4,
            target: 1000
        }
    );
}

#[test]
fn malformed_guard_is_hard_failure() {
    // A type-check sequence whose conditional jump targets something other
    // than the resolved error trap must fail, never silently classify.
    let mut body = vec![mov_rax_imm(0x10)];
    body.extend(int_typecheck(MachReg::Rax, 13));
    body.push((MachMnemonic::Add, reg(MachReg::Rax), MachOperand::Imm(0x10)));
    let p = build(body, vec![]);
    assert_eq!(
        parse(&p).unwrap_err(),
        Error::GuardTargetMismatch { index: 5 }
    );
}

#[test]
fn guard_without_operand_is_hard_failure() {
    let err_addr = 4 + 5 + 4;
    let mut body = int_typecheck(MachReg::Rax, err_addr);
    body.push((MachMnemonic::Add, reg(MachReg::Rax), MachOperand::Imm(0x10)));
    let p = build(body, vec![]);
    assert_eq!(parse(&p).unwrap_err(), Error::MissingOperand { index: 4 });
}

#[test]
fn guard_with_unknown_operation_is_hard_failure() {
    let err_addr = 4 + 6 + 4;
    let mut body = vec![mov_rax_imm(0x10)];
    body.extend(int_typecheck(MachReg::Rax, err_addr));
    body.push((MachMnemonic::Sub, reg(MachReg::Rax), MachOperand::Imm(0x10)));
    let p = build(body, vec![]);
    assert_eq!(
        parse(&p).unwrap_err(),
        Error::UnsupportedOperation { index: 5 }
    );
}

#[test]
fn malformed_if_shape_is_hard_failure() {
    // The instruction before the false arm is not the expected trailing jump.
    let body = vec![
        mov_rax_imm(0x10),
        (MachMnemonic::Cmp, reg(MachReg::Rax), MachOperand::Imm(0b111000)),
        (MachMnemonic::Je, MachOperand::Near(9), MachOperand::Absent),
        mov_rax_imm(0b011000),
        (MachMnemonic::Mov, reg(MachReg::Rax), reg(MachReg::Rbx)),
        mov_rax_imm(0b111000),
    ];
    let p = build(body, vec![]);
    assert_eq!(parse(&p).unwrap_err(), Error::MalformedIf { index: 8 });
}

#[test]
fn branch_outside_program_is_hard_failure() {
    let body = vec![
        mov_rax_imm(0x10),
        (MachMnemonic::Cmp, reg(MachReg::Rax), MachOperand::Imm(0b111000)),
        (MachMnemonic::Je, MachOperand::Near(7777), MachOperand::Absent),
        mov_rax_imm(0b011000),
    ];
    let p = build(body, vec![]);
    assert_eq!(
        parse(&p).unwrap_err(),
        Error::BadBranchTarget {
            index: 5,
            target: 7777
        }
    );
}

#[test]
fn sequenced_literals_fold_into_begin() {
    let p = build(vec![mov_rax_imm(0x10), mov_rax_imm(0x20)], vec![]);
    let prog = parse(&p).unwrap();
    assert_eq!(
        *prog.expr,
        Expr::Begin(Box::new(lit_int(1)), Box::new(lit_int(2)))
    );
}

#[test]
fn unmatched_region_yields_unknown() {
    let body = vec![(MachMnemonic::Mov, reg(MachReg::Rdi), reg(MachReg::Rax))];
    let p = build(body, vec![]);
    let prog = parse(&p).unwrap();
    assert_eq!(*prog.expr, Expr::Unknown);
}

#[test]
fn partial_region_keeps_completed_prefix() {
    let body = vec![
        mov_rax_imm(0x10),
        (MachMnemonic::Mov, reg(MachReg::Rdi), reg(MachReg::Rax)),
    ];
    let p = build(body, vec![]);
    let prog = parse(&p).unwrap();
    assert_eq!(*prog.expr, lit_int(1));
}

#[test]
fn matching_is_deterministic() {
    let mk = || {
        build(
            vec![
                mov_rax_imm(0x10),
                (MachMnemonic::Cmp, reg(MachReg::Rax), MachOperand::Imm(0b111000)),
                (MachMnemonic::Je, MachOperand::Near(9), MachOperand::Absent),
                mov_rax_imm(0b011000),
                (MachMnemonic::Jmp, MachOperand::Near(10), MachOperand::Absent),
                mov_rax_imm(0b111000),
            ],
            vec![],
        )
    };
    let first = parse(&mk()).unwrap();
    let second = parse(&mk()).unwrap();
    assert_eq!(first, second);
}

#[test]
fn parse_rejects_missing_prologue() {
    let p = assemble(
        vec![
            mov_rax_imm(0x10),
            mov_rax_imm(0x20),
            mov_rax_imm(0x30),
            (MachMnemonic::Ret, MachOperand::Absent, MachOperand::Absent),
        ],
        vec![("entry".to_string(), 0), ("err".to_string(), 3)],
    );
    assert_eq!(parse(&p).unwrap_err(), Error::BadPrologue);
}

#[test]
fn parse_rejects_missing_err_symbol() {
    let body = vec![mov_rax_imm(0x10)];
    let mut triples: Vec<Triple> = vec![
        (MachMnemonic::Push, reg(MachReg::Rbx), MachOperand::Absent),
        (MachMnemonic::Push, reg(MachReg::R15), MachOperand::Absent),
        (MachMnemonic::Mov, reg(MachReg::Rbx), reg(MachReg::Rdi)),
        (MachMnemonic::Add, reg(MachReg::Rbx), MachOperand::Imm(8)),
    ];
    triples.extend(body);
    let p = assemble(triples, vec![("entry".to_string(), 0)]);
    assert_eq!(parse(&p).unwrap_err(), Error::MissingErrSymbol);
}

#[test]
fn parse_rejects_unmapped_err_symbol() {
    let p = build(vec![mov_rax_imm(0x10)], vec![("err".to_string(), 9999)]);
    // The later entry for "err" wins and points at no instruction.
    assert_eq!(parse(&p).unwrap_err(), Error::ErrSymbolUnmapped);
}

#[test]
fn parse_rejects_err_trap_too_early() {
    let p = build(vec![mov_rax_imm(0x10)], vec![("err".to_string(), 2)]);
    assert_eq!(parse(&p).unwrap_err(), Error::MalformedEpilogue);
}

#[test]
fn parse_defines_reports_none_and_advances() {
    let p = build(vec![mov_rax_imm(0x10)], vec![]);
    let (defines, next) = parse_defines(&p, 3);
    assert!(defines.is_empty());
    assert_eq!(next, 4);
}

#[test]
fn parse_expr_region_bounds() {
    // Reconstruct just the literal region directly through parse_expr.
    let p = build(vec![mov_rax_imm(0x10), mov_rax_imm(0x20)], vec![]);
    let mut stack = Vec::new();
    let (e, pos) = parse_expr(&p, 4, Some(5), &mut stack).unwrap();
    assert_eq!(e, lit_int(1));
    assert_eq!(pos, 5);
    assert!(stack.is_empty());
}

#[test]
fn scenario_nested_if() {
    // A conditional whose true arm is itself a conditional.
    let body = vec![
        mov_rax_imm(0x10),
        (MachMnemonic::Cmp, reg(MachReg::Rax), MachOperand::Imm(0b111000)),
        (MachMnemonic::Je, MachOperand::Near(14), MachOperand::Absent),
        mov_rax_imm(0x20),
        (MachMnemonic::Cmp, reg(MachReg::Rax), MachOperand::Imm(0b111000)),
        (MachMnemonic::Je, MachOperand::Near(12), MachOperand::Absent),
        mov_rax_imm(0b011000),
        (MachMnemonic::Jmp, MachOperand::Near(13), MachOperand::Absent),
        mov_rax_imm(0b111000),
        (MachMnemonic::Jmp, MachOperand::Near(15), MachOperand::Absent),
        mov_rax_imm(0b111000),
    ];
    let p = build(body, vec![]);
    let prog = parse(&p).unwrap();
    let inner = Expr::If(
        Box::new(lit_int(2)),
        Box::new(Expr::Literal(Datum::Boolean(true))),
        Box::new(Expr::Literal(Datum::Boolean(false))),
    );
    assert_eq!(
        *prog.expr,
        Expr::If(
            Box::new(lit_int(1)),
            Box::new(inner),
            Box::new(Expr::Literal(Datum::Boolean(false))),
        )
    );
}

#[test]
fn scenario_plus_with_sequenced_left_operand() {
    // Two completed expressions are folded into one sequence before being
    // spilled as the left operand of the binary primitive.
    let err_addr = 4 + 14 + 4;
    let mut body = vec![
        mov_rax_imm(0x10),
        mov_rax_imm(0x20),
        (MachMnemonic::Push, reg(MachReg::Rax), MachOperand::Absent),
        mov_rax_imm(0x30),
        (MachMnemonic::Pop, reg(MachReg::R8), MachOperand::Absent),
    ];
    body.extend(int_typecheck(MachReg::R8, err_addr));
    body.extend(int_typecheck(MachReg::Rax, err_addr));
    body.push((MachMnemonic::Add, reg(MachReg::Rax), reg(MachReg::R8)));
    let p = build(body, vec![]);
    let prog = parse(&p).unwrap();
    assert_eq!(
        *prog.expr,
        Expr::Op(Operation::Plus(
            Box::new(Expr::Begin(Box::new(lit_int(1)), Box::new(lit_int(2)))),
            Box::new(lit_int(3)),
        ))
    );
}
