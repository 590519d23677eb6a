//! The compiler-specific instruction model and its normalizer, plus the
//! indexed, normalized program.
//!
//! A generic decoded machine instruction ([`MachInst`]: mnemonic plus operand
//! kinds and values) is normalized into the closed [`Instruction`]/[`Arg`]
//! model that covers exactly the shapes this compiler's code generator emits.
//! Anything outside that set is a hard failure, never silently passed through.

use vstd::prelude::*;

use crate::memmap::{bm_fwd, bm_get_by_left, bm_get_by_right, bm_insert, bm_new};
use crate::Error;

verus! {

/// The general-purpose registers the compiler's output uses, with distinct
/// 32- and 64-bit views of the same physical register where relevant.
#[derive(Debug, Clone, Copy, PartialEq, Eq, Structural)]
pub enum Register {
    // 32-bit views.
    Eax,
    R9d,
    // 64-bit registers.
    Rax,
    Rbx,
    Rcx,
    Rdx,
    Rbp,
    Rsp,
    Rsi,
    Rdi,
    R8,
    R9,
    R10,
    R11,
    R12,
    R13,
    R14,
    R15,
}

/// An operand of a normalized instruction.
#[derive(Debug, Clone, Copy, PartialEq, Eq, Structural)]
pub enum Arg {
    /// An absolute branch or call target.
    Address(u64),
    Register(Register),
    /// Memory through a base register plus a signed displacement.
    Offset(Register, i64),
    Literal(u64),
}

/// A normalized instruction: opcode tag plus operands drawn from [`Arg`].
#[derive(Debug, Clone, Copy, PartialEq, Eq, Structural)]
pub enum Instruction {
    Add(Arg, Arg),
    Sub(Arg, Arg),
    And(Arg, Arg),
    Xor(Arg, Arg),
    Mov(Arg, Arg),
    Cmove(Arg, Arg),
    Cmovl(Arg, Arg),
    Cmp(Arg, Arg),
    Call(u64),
    Jmp(Arg),
    Jne(Arg),
    Je(Arg),
    Jl(Arg),
    Jg(Arg),
    Push(Arg),
    Pop(Arg),
    Lea(Arg, Arg),
    Ret,
}

/// A machine register as a generic decoder reports it: one of the registers
/// the normalizer knows, or anything else.
#[derive(Debug, Clone, Copy, PartialEq, Eq, Structural)]
pub enum MachReg {
    Eax,
    R9d,
    Rax,
    Rbx,
    Rcx,
    Rdx,
    Rbp,
    Rsp,
    Rsi,
    Rdi,
    R8,
    R9,
    R10,
    R11,
    R12,
    R13,
    R14,
    R15,
    /// Any register outside the supported set.
    Other,
}

/// A mnemonic as a generic decoder reports it: one of the mnemonics the
/// normalizer knows, or anything else.
#[derive(Debug, Clone, Copy, PartialEq, Eq, Structural)]
pub enum MachMnemonic {
    Add,
    Sub,
    And,
    Xor,
    Mov,
    Cmove,
    Cmovl,
    Cmp,
    Call,
    Jmp,
    Jne,
    Je,
    Jl,
    Jg,
    Push,
    Pop,
    Lea,
    Ret,
    /// Any mnemonic outside the supported set.
    Other,
}

/// An operand of a generic decoded instruction.
#[derive(Debug, Clone, Copy, PartialEq, Eq, Structural)]
pub enum MachOperand {
    /// The operand slot is not used.
    Absent,
    Reg(MachReg),
    /// Memory through a base register and a displacement.
    Mem { base: MachReg, disp: u64 },
    /// An immediate value.
    Imm(u64),
    /// A near branch or call target, already resolved to an absolute address.
    Near(u64),
    /// Any operand kind outside the supported set.
    Other,
}

/// One generic decoded machine instruction: its address, its mnemonic, and
/// its first two operand slots.
#[derive(Debug, Clone, Copy, PartialEq, Eq, Structural)]
pub struct MachInst {
    /// The instruction's virtual address.
    pub ip: u64,
    pub mnemonic: MachMnemonic,
    pub op0: MachOperand,
    pub op1: MachOperand,
}

/// What [`reg`] returns: the supported register matching a machine register.
pub open spec fn spec_reg(r: MachReg) -> Result<Register, Error> {
    match r {
        MachReg::Eax => Ok(Register::Eax),
        MachReg::R9d => Ok(Register::R9d),
        MachReg::Rax => Ok(Register::Rax),
        MachReg::Rbx => Ok(Register::Rbx),
        MachReg::Rcx => Ok(Register::Rcx),
        MachReg::Rdx => Ok(Register::Rdx),
        MachReg::Rbp => Ok(Register::Rbp),
        MachReg::Rsp => Ok(Register::Rsp),
        MachReg::Rsi => Ok(Register::Rsi),
        MachReg::Rdi => Ok(Register::Rdi),
        MachReg::R8 => Ok(Register::R8),
        MachReg::R9 => Ok(Register::R9),
        MachReg::R10 => Ok(Register::R10),
        MachReg::R11 => Ok(Register::R11),
        MachReg::R12 => Ok(Register::R12),
        MachReg::R13 => Ok(Register::R13),
        MachReg::R14 => Ok(Register::R14),
        MachReg::R15 => Ok(Register::R15),
        MachReg::Other => Err(Error::UnsupportedRegister),
    }
}

/// Maps a machine register into the normalizer's closed register set.
pub fn reg(r: MachReg) -> (res: Result<Register, Error>)
    ensures
        res == spec_reg(r),
{
    match r {
        MachReg::Eax => Ok(Register::Eax),
        MachReg::R9d => Ok(Register::R9d),
        MachReg::Rax => Ok(Register::Rax),
        MachReg::Rbx => Ok(Register::Rbx),
        MachReg::Rcx => Ok(Register::Rcx),
        MachReg::Rdx => Ok(Register::Rdx),
        MachReg::Rbp => Ok(Register::Rbp),
        MachReg::Rsp => Ok(Register::Rsp),
        MachReg::Rsi => Ok(Register::Rsi),
        MachReg::Rdi => Ok(Register::Rdi),
        MachReg::R8 => Ok(Register::R8),
        MachReg::R9 => Ok(Register::R9),
        MachReg::R10 => Ok(Register::R10),
        MachReg::R11 => Ok(Register::R11),
        MachReg::R12 => Ok(Register::R12),
        MachReg::R13 => Ok(Register::R13),
        MachReg::R14 => Ok(Register::R14),
        MachReg::R15 => Ok(Register::R15),
        MachReg::Other => Err(Error::UnsupportedRegister),
    }
}

/// What a register-or-memory operand normalizes to.
pub open spec fn spec_rm_arg(op: MachOperand) -> Result<Arg, Error> {
    match op {
        MachOperand::Reg(r) => match spec_reg(r) {
            Ok(rr) => Ok(Arg::Register(rr)),
            Err(e) => Err(e),
        },
        MachOperand::Mem { base, disp } => match spec_reg(base) {
            Ok(rr) => Ok(Arg::Offset(rr, disp as i64)),
            Err(e) => Err(e),
        },
        _ => Err(Error::UnsupportedInstruction),
    }
}

fn rm_arg(op: MachOperand) -> (res: Result<Arg, Error>)
    ensures
        res == spec_rm_arg(op),
{
    match op {
        MachOperand::Reg(r) => Ok(Arg::Register(reg(r)?)),
        MachOperand::Mem { base, disp } => Ok(
            Arg::Offset(reg(base)?, #[verifier::truncate] (disp as i64)),
        ),
        _ => Err(Error::UnsupportedInstruction),
    }
}

/// What a register-plus-unused-slot operand pair yields.
pub open spec fn spec_reg_absent(op0: MachOperand, op1: MachOperand) -> Result<Register, Error> {
    match (op0, op1) {
        (MachOperand::Reg(r), MachOperand::Absent) => spec_reg(r),
        _ => Err(Error::UnsupportedInstruction),
    }
}

fn reg_absent(op0: MachOperand, op1: MachOperand) -> (res: Result<Register, Error>)
    ensures
        res == spec_reg_absent(op0, op1),
{
    match (op0, op1) {
        (MachOperand::Reg(r), MachOperand::Absent) => reg(r),
        _ => Err(Error::UnsupportedInstruction),
    }
}

/// What a near-target-plus-unused-slot operand pair yields.
pub open spec fn spec_near_absent(op0: MachOperand, op1: MachOperand) -> Result<u64, Error> {
    match (op0, op1) {
        (MachOperand::Near(a), MachOperand::Absent) => Ok(a),
        _ => Err(Error::UnsupportedInstruction),
    }
}

fn near_absent(op0: MachOperand, op1: MachOperand) -> (res: Result<u64, Error>)
    ensures
        res == spec_near_absent(op0, op1),
{
    match (op0, op1) {
        (MachOperand::Near(a), MachOperand::Absent) => Ok(a),
        _ => Err(Error::UnsupportedInstruction),
    }
}

/// What a register-destination, immediate-source operand pair yields.
pub open spec fn spec_reg_imm(op0: MachOperand, op1: MachOperand) -> Result<(Register, u64), Error> {
    match (op0, op1) {
        (MachOperand::Reg(r), MachOperand::Imm(i)) => match spec_reg(r) {
            Ok(rr) => Ok((rr, i)),
            Err(e) => Err(e),
        },
        _ => Err(Error::UnsupportedInstruction),
    }
}

fn reg_imm(op0: MachOperand, op1: MachOperand) -> (res: Result<(Register, u64), Error>)
    ensures
        res == spec_reg_imm(op0, op1),
{
    match (op0, op1) {
        (MachOperand::Reg(r), MachOperand::Imm(i)) => Ok((reg(r)?, i)),
        _ => Err(Error::UnsupportedInstruction),
    }
}

/// What a register-destination, register-source operand pair yields.
pub open spec fn spec_reg_reg(op0: MachOperand, op1: MachOperand) -> Result<
    (Register, Register),
    Error,
> {
    match (op0, op1) {
        (MachOperand::Reg(r), MachOperand::Reg(r2)) => match (spec_reg(r), spec_reg(r2)) {
            (Ok(a), Ok(b)) => Ok((a, b)),
            (Err(e), _) => Err(e),
            (_, Err(e)) => Err(e),
        },
        _ => Err(Error::UnsupportedInstruction),
    }
}

fn reg_reg(op0: MachOperand, op1: MachOperand) -> (res: Result<(Register, Register), Error>)
    ensures
        res == spec_reg_reg(op0, op1),
{
    match (op0, op1) {
        (MachOperand::Reg(r), MachOperand::Reg(r2)) => Ok((reg(r)?, reg(r2)?)),
        _ => Err(Error::UnsupportedInstruction),
    }
}

/// What an arithmetic instruction's operand pair yields: a register
/// destination with either an immediate or a register source.
pub open spec fn spec_arith_args(op0: MachOperand, op1: MachOperand) -> Result<(Arg, Arg), Error> {
    match (op0, op1) {
        (MachOperand::Reg(_), MachOperand::Imm(_)) => match spec_reg_imm(op0, op1) {
            Ok((r, i)) => Ok((Arg::Register(r), Arg::Literal(i))),
            Err(e) => Err(e),
        },
        (MachOperand::Reg(_), MachOperand::Reg(_)) => match spec_reg_reg(op0, op1) {
            Ok((a, b)) => Ok((Arg::Register(a), Arg::Register(b))),
            Err(e) => Err(e),
        },
        _ => Err(Error::UnsupportedInstruction),
    }
}

fn arith_args(op0: MachOperand, op1: MachOperand) -> (res: Result<(Arg, Arg), Error>)
    ensures
        res == spec_arith_args(op0, op1),
{
    match (op0, op1) {
        (MachOperand::Reg(_), MachOperand::Imm(_)) => {
            let (r, i) = reg_imm(op0, op1)?;
            Ok((Arg::Register(r), Arg::Literal(i)))
        },
        (MachOperand::Reg(_), MachOperand::Reg(_)) => {
            let (a, b) = reg_reg(op0, op1)?;
            Ok((Arg::Register(a), Arg::Register(b)))
        },
        _ => Err(Error::UnsupportedInstruction),
    }
}

/// What a move instruction's operand pair yields: an immediate into a
/// register, or any register/memory combination.
pub open spec fn spec_mov_args(op0: MachOperand, op1: MachOperand) -> Result<(Arg, Arg), Error> {
    match (op0, op1) {
        (MachOperand::Reg(_), MachOperand::Imm(_)) => match spec_reg_imm(op0, op1) {
            Ok((r, i)) => Ok((Arg::Register(r), Arg::Literal(i))),
            Err(e) => Err(e),
        },
        (
            MachOperand::Reg(_) | MachOperand::Mem { .. },
            MachOperand::Reg(_) | MachOperand::Mem { .. },
        ) => match (spec_rm_arg(op0), spec_rm_arg(op1)) {
            (Ok(a), Ok(b)) => Ok((a, b)),
            (Err(e), _) => Err(e),
            (_, Err(e)) => Err(e),
        },
        _ => Err(Error::UnsupportedInstruction),
    }
}

fn mov_args(op0: MachOperand, op1: MachOperand) -> (res: Result<(Arg, Arg), Error>)
    ensures
        res == spec_mov_args(op0, op1),
{
    match (op0, op1) {
        (MachOperand::Reg(_), MachOperand::Imm(_)) => {
            let (r, i) = reg_imm(op0, op1)?;
            Ok((Arg::Register(r), Arg::Literal(i)))
        },
        (
            MachOperand::Reg(_) | MachOperand::Mem { .. },
            MachOperand::Reg(_) | MachOperand::Mem { .. },
        ) => Ok((rm_arg(op0)?, rm_arg(op1)?)),
        _ => Err(Error::UnsupportedInstruction),
    }
}

/// What a jump instruction's operand pair yields: a register target or an
/// absolute near target.
pub open spec fn spec_jmp_arg(op0: MachOperand, op1: MachOperand) -> Result<Arg, Error> {
    match (op0, op1) {
        (MachOperand::Reg(_), MachOperand::Absent) => match spec_reg_absent(op0, op1) {
            Ok(r) => Ok(Arg::Register(r)),
            Err(e) => Err(e),
        },
        (MachOperand::Near(a), MachOperand::Absent) => Ok(Arg::Address(a)),
        _ => Err(Error::UnsupportedInstruction),
    }
}

fn jmp_arg(op0: MachOperand, op1: MachOperand) -> (res: Result<Arg, Error>)
    ensures
        res == spec_jmp_arg(op0, op1),
{
    match (op0, op1) {
        (MachOperand::Reg(_), MachOperand::Absent) => Ok(Arg::Register(reg_absent(op0, op1)?)),
        (MachOperand::Near(a), MachOperand::Absent) => Ok(Arg::Address(a)),
        _ => Err(Error::UnsupportedInstruction),
    }
}

/// What a load-effective-address operand pair yields: the destination
/// register and the absolute address the memory operand resolves to.
pub open spec fn spec_lea_args(op0: MachOperand, op1: MachOperand) -> Result<(Register, u64), Error> {
    match (op0, op1) {
        (MachOperand::Reg(r), MachOperand::Mem { base: _, disp }) => match spec_reg(r) {
            Ok(rr) => Ok((rr, disp)),
            Err(e) => Err(e),
        },
        _ => Err(Error::UnsupportedInstruction),
    }
}

fn lea_args(op0: MachOperand, op1: MachOperand) -> (res: Result<(Register, u64), Error>)
    ensures
        res == spec_lea_args(op0, op1),
{
    match (op0, op1) {
        (MachOperand::Reg(r), MachOperand::Mem { base: _, disp }) => Ok((reg(r)?, disp)),
        _ => Err(Error::UnsupportedInstruction),
    }
}

/// What [`normalize`] returns: the normalized instruction for each supported
/// mnemonic/operand shape, and the exact failure outside that set.
pub open spec fn spec_normalize(m: MachInst) -> Result<Instruction, Error> {
    match m.mnemonic {
        MachMnemonic::Push => match spec_reg_absent(m.op0, m.op1) {
            Ok(r) => Ok(Instruction::Push(Arg::Register(r))),
            Err(e) => Err(e),
        },
        MachMnemonic::Pop => match spec_reg_absent(m.op0, m.op1) {
            Ok(r) => Ok(Instruction::Pop(Arg::Register(r))),
            Err(e) => Err(e),
        },
        MachMnemonic::Jmp => match spec_jmp_arg(m.op0, m.op1) {
            Ok(a) => Ok(Instruction::Jmp(a)),
            Err(e) => Err(e),
        },
        MachMnemonic::Je => match spec_near_absent(m.op0, m.op1) {
            Ok(a) => Ok(Instruction::Je(Arg::Address(a))),
            Err(e) => Err(e),
        },
        MachMnemonic::Jl => match spec_near_absent(m.op0, m.op1) {
            Ok(a) => Ok(Instruction::Jl(Arg::Address(a))),
            Err(e) => Err(e),
        },
        MachMnemonic::Jg => match spec_near_absent(m.op0, m.op1) {
            Ok(a) => Ok(Instruction::Jg(Arg::Address(a))),
            Err(e) => Err(e),
        },
        MachMnemonic::Jne => match spec_near_absent(m.op0, m.op1) {
            Ok(a) => Ok(Instruction::Jne(Arg::Address(a))),
            Err(e) => Err(e),
        },
        MachMnemonic::Call => match spec_near_absent(m.op0, m.op1) {
            Ok(a) => Ok(Instruction::Call(a)),
            Err(e) => Err(e),
        },
        MachMnemonic::Cmp => match spec_reg_imm(m.op0, m.op1) {
            Ok((r, i)) => Ok(Instruction::Cmp(Arg::Register(r), Arg::Literal(i))),
            Err(e) => Err(e),
        },
        MachMnemonic::Add => match spec_arith_args(m.op0, m.op1) {
            Ok((a, b)) => Ok(Instruction::Add(a, b)),
            Err(e) => Err(e),
        },
        MachMnemonic::Sub => match spec_arith_args(m.op0, m.op1) {
            Ok((a, b)) => Ok(Instruction::Sub(a, b)),
            Err(e) => Err(e),
        },
        MachMnemonic::And => match spec_arith_args(m.op0, m.op1) {
            Ok((a, b)) => Ok(Instruction::And(a, b)),
            Err(e) => Err(e),
        },
        MachMnemonic::Xor => match spec_arith_args(m.op0, m.op1) {
            Ok((a, b)) => Ok(Instruction::Xor(a, b)),
            Err(e) => Err(e),
        },
        MachMnemonic::Mov => match spec_mov_args(m.op0, m.op1) {
            Ok((a, b)) => Ok(Instruction::Mov(a, b)),
            Err(e) => Err(e),
        },
        MachMnemonic::Cmove => match spec_reg_reg(m.op0, m.op1) {
            Ok((a, b)) => Ok(Instruction::Cmove(Arg::Register(a), Arg::Register(b))),
            Err(e) => Err(e),
        },
        MachMnemonic::Cmovl => match spec_reg_reg(m.op0, m.op1) {
            Ok((a, b)) => Ok(Instruction::Cmovl(Arg::Register(a), Arg::Register(b))),
            Err(e) => Err(e),
        },
        MachMnemonic::Lea => match spec_lea_args(m.op0, m.op1) {
            Ok((r, d)) => Ok(Instruction::Lea(Arg::Register(r), Arg::Address(d))),
            Err(e) => Err(e),
        },
        MachMnemonic::Ret => match (m.op0, m.op1) {
            (MachOperand::Absent, MachOperand::Absent) => Ok(Instruction::Ret),
            _ => Err(Error::UnsupportedInstruction),
        },
        MachMnemonic::Other => Err(Error::UnsupportedInstruction),
    }
}

/// Normalizes one generic decoded instruction into the compiler's closed
/// instruction set. Every mnemonic/operand combination outside the known
/// emission patterns is rejected; nothing is silently passed through.
pub fn normalize(m: &MachInst) -> (res: Result<Instruction, Error>)
    ensures
        res == spec_normalize(*m),
{
    match m.mnemonic {
        MachMnemonic::Push => Ok(Instruction::Push(Arg::Register(reg_absent(m.op0, m.op1)?))),
        MachMnemonic::Pop => Ok(Instruction::Pop(Arg::Register(reg_absent(m.op0, m.op1)?))),
        MachMnemonic::Jmp => Ok(Instruction::Jmp(jmp_arg(m.op0, m.op1)?)),
        MachMnemonic::Je => Ok(Instruction::Je(Arg::Address(near_absent(m.op0, m.op1)?))),
        MachMnemonic::Jl => Ok(Instruction::Jl(Arg::Address(near_absent(m.op0, m.op1)?))),
        MachMnemonic::Jg => Ok(Instruction::Jg(Arg::Address(near_absent(m.op0, m.op1)?))),
        MachMnemonic::Jne => Ok(Instruction::Jne(Arg::Address(near_absent(m.op0, m.op1)?))),
        MachMnemonic::Call => Ok(Instruction::Call(near_absent(m.op0, m.op1)?)),
        MachMnemonic::Cmp => {
            let (r, i) = reg_imm(m.op0, m.op1)?;
            Ok(Instruction::Cmp(Arg::Register(r), Arg::Literal(i)))
        },
        MachMnemonic::Add => {
            let (a, b) = arith_args(m.op0, m.op1)?;
            Ok(Instruction::Add(a, b))
        },
        MachMnemonic::Sub => {
            let (a, b) = arith_args(m.op0, m.op1)?;
            Ok(Instruction::Sub(a, b))
        },
        MachMnemonic::And => {
            let (a, b) = arith_args(m.op0, m.op1)?;
            Ok(Instruction::And(a, b))
        },
        MachMnemonic::Xor => {
            let (a, b) = arith_args(m.op0, m.op1)?;
            Ok(Instruction::Xor(a, b))
        },
        MachMnemonic::Mov => {
            let (a, b) = mov_args(m.op0, m.op1)?;
            Ok(Instruction::Mov(a, b))
        },
        MachMnemonic::Cmove => {
            let (a, b) = reg_reg(m.op0, m.op1)?;
            Ok(Instruction::Cmove(Arg::Register(a), Arg::Register(b)))
        },
        MachMnemonic::Cmovl => {
            let (a, b) = reg_reg(m.op0, m.op1)?;
            Ok(Instruction::Cmovl(Arg::Register(a), Arg::Register(b)))
        },
        MachMnemonic::Lea => {
            let (r, d) = lea_args(m.op0, m.op1)?;
            Ok(Instruction::Lea(Arg::Register(r), Arg::Address(d)))
        },
        MachMnemonic::Ret => match (m.op0, m.op1) {
            (MachOperand::Absent, MachOperand::Absent) => Ok(Instruction::Ret),
            _ => Err(Error::UnsupportedInstruction),
        },
        MachMnemonic::Other => Err(Error::UnsupportedInstruction),
    }
}

/// The mathematical model of a loaded program: its entry address, its
/// normalized instructions, the per-index instruction addresses, the
/// address-to-index map, and the symbol pairs in table order.
pub struct ProgramView {
    pub entry: u64,
    pub instrs: Seq<Instruction>,
    pub addrs: Seq<u64>,
    pub addr_map: Map<u64, usize>,
    pub syms: Seq<(Seq<char>, u64)>,
}

/// The symbol pairs a table of owned strings stands for.
pub open spec fn syms_view(symbols: Seq<(String, u64)>) -> Seq<(Seq<char>, u64)> {
    symbols.map_values(|p: (String, u64)| (p.0@, p.1))
}

/// Well-formedness of a program model: the entry address is the one the
/// "entry" symbol resolves to and is the first instruction's, addresses
/// strictly increase with the index, and the address map is exactly the
/// bijection between instruction addresses and their indices.
pub open spec fn view_wf(v: ProgramView) -> bool {
    &&& v.addrs.len() == v.instrs.len()
    &&& spec_symbol_lookup(v.syms, "entry"@) == Some(v.entry)
    &&& v.addrs.len() > 0 ==> v.addrs[0] == v.entry
    &&& forall|i: int, j: int| 0 <= i < j < v.addrs.len() ==> v.addrs[i] < v.addrs[j]
    &&& forall|i: int|
        0 <= i < v.addrs.len() ==> v.addr_map.contains_key(#[trigger] v.addrs[i])
            && v.addr_map[v.addrs[i]] == i
    &&& forall|a: u64|
        #[trigger] v.addr_map.contains_key(a) ==> exists|i: int|
            0 <= i < v.addrs.len() && v.addrs[i] == a
}

/// Whether some symbol pair gives `name` the address `address`.
pub open spec fn spec_has_symbol(syms: Seq<(Seq<char>, u64)>, address: u64, name: Seq<char>) -> bool {
    exists|j: int| 0 <= j < syms.len() && syms[j] == (name, address)
}

/// What looking a name up in the symbol table returns: the address of the
/// latest pair carrying that name, if any.
pub open spec fn spec_symbol_lookup(syms: Seq<(Seq<char>, u64)>, name: Seq<char>) -> Option<u64>
    decreases syms.len(),
{
    if syms.len() == 0 {
        None
    } else if syms.last().0 == name {
        Some(syms.last().1)
    } else {
        spec_symbol_lookup(syms.drop_last(), name)
    }
}

/// Every name that resolves to an address is among that address's symbols:
/// the two symbol tables are consistent with each other.
pub proof fn lemma_symbol_lookup_consistent(syms: Seq<(Seq<char>, u64)>, name: Seq<char>, a: u64)
    requires
        spec_symbol_lookup(syms, name) == Some(a),
    ensures
        spec_has_symbol(syms, a, name),
    decreases syms.len(),
{
    if syms.len() == 0 {
    } else if syms.last().0 == name {
        assert(syms[syms.len() - 1] == (name, a));
    } else {
        lemma_symbol_lookup_consistent(syms.drop_last(), name, a);
        let j = choose|j: int|
            0 <= j < syms.drop_last().len() && syms.drop_last()[j] == (name, a);
        assert(syms[j] == (name, a));
    }
}

/// The address-to-index and index-to-address maps are a bijection: any
/// address present in the map is the address of the instruction at the
/// index it maps to.
pub proof fn lemma_address_index_bijection(v: ProgramView, a: u64)
    requires
        view_wf(v),
        v.addr_map.contains_key(a),
    ensures
        v.addr_map[a] < v.addrs.len(),
        v.addrs[v.addr_map[a] as int] == a,
{
    let i = choose|i: int| 0 <= i < v.addrs.len() && v.addrs[i] == a;
    assert(v.addr_map.contains_key(v.addrs[i]) && v.addr_map[v.addrs[i]] == i);
}

/// A normalized, indexed program: the entry address, the instruction
/// sequence, the address-to-index bijection, and the symbol tables.
pub struct Program {
    /// The address the "entry" symbol points to.
    entry_point: u64,
    /// All instructions, in address order.
    instructions: Vec<Instruction>,
    /// The bijection between instruction addresses and indices.
    memory_map: bimap::BiMap<u64, usize>,
    /// The symbol pairs, in table order.
    symbols: Vec<(String, u64)>,
    /// The address of each instruction, by index.
    addrs: Ghost<Seq<u64>>,
}

impl View for Program {
    type V = ProgramView;

    closed spec fn view(&self) -> ProgramView {
        ProgramView {
            entry: self.entry_point,
            instrs: self.instructions@,
            addrs: self.addrs@,
            addr_map: bm_fwd(self.memory_map),
            syms: syms_view(self.symbols@),
        }
    }
}

/// Whether every instruction of a stream normalizes.
pub open spec fn all_normalize_ok(mach: Seq<MachInst>) -> bool {
    forall|i: int| 0 <= i < mach.len() ==> spec_normalize(#[trigger] mach[i]) is Ok
}

/// Whether the stream's addresses strictly increase with the index.
pub open spec fn ips_increasing(mach: Seq<MachInst>) -> bool {
    forall|i: int, j: int|
        0 <= i < j < mach.len() ==> (#[trigger] mach[i]).ip < (#[trigger] mach[j]).ip
}

/// Looks a name up in a symbol table; the latest entry for a name wins.
fn lookup_symbol(symbols: &Vec<(String, u64)>, name: &str) -> (r: Option<u64>)
    ensures
        r == spec_symbol_lookup(syms_view(symbols@), name@),
{
    let key: String = name.to_owned();
    let ghost sv = syms_view(symbols@);
    let mut i: usize = symbols.len();
    assert(sv.take(i as int) =~= sv);
    while i > 0
        invariant
            i <= symbols.len(),
            key@ == name@,
            sv == syms_view(symbols@),
            spec_symbol_lookup(sv, name@) == spec_symbol_lookup(sv.take(i as int), name@),
        decreases i,
    {
        i = i - 1;
        let pair = &symbols[i];
        proof {
            assert(sv.take(i + 1).last() == sv[i as int]);
            assert(sv.take(i + 1).drop_last() =~= sv.take(i as int));
        }
        if pair.0 == key {
            return Some(pair.1);
        }
    }
    None
}

impl Program {
    #[verifier::type_invariant]
    /// The program's model is well-formed.
    pub open spec fn inv(self) -> bool {
        view_wf(self.view())
    }

    /// The address the "entry" symbol points to: the address of the first
    /// instruction, whenever the program has one.
    pub fn entry_point(&self) -> (r: u64)
        ensures
            r == self@.entry,
            spec_symbol_lookup(self@.syms, "entry"@) == Some(r),
            self@.instrs.len() > 0 ==> self@.addrs[0] == r && self@.addr_map.contains_key(r)
                && self@.addr_map[r] == 0,
    {
        proof {
            use_type_invariant(self);
            if self@.instrs.len() > 0 {
                assert(self@.addr_map.contains_key(self@.addrs[0]) && self@.addr_map[self@.addrs[0]]
                    == 0);
            }
        }
        self.entry_point
    }

    /// All of the program's instructions, in address order.
    pub fn instructions(&self) -> (r: &Vec<Instruction>)
        ensures
            r@ == self@.instrs,
    {
        &self.instructions
    }

    /// The index of the instruction at the given address, if any.
    pub fn address_to_index(&self, address: u64) -> (r: Option<usize>)
        ensures
            r == (if self@.addr_map.contains_key(address) {
                Some(self@.addr_map[address])
            } else {
                None::<usize>
            }),
            r matches Some(i) ==> i < self@.addrs.len() && self@.addrs[i as int] == address,
    {
        proof {
            use_type_invariant(self);
            if self@.addr_map.contains_key(address) {
                lemma_address_index_bijection(self@, address);
            }
        }
        bm_get_by_left(&self.memory_map, address)
    }

    /// The address of the instruction at the given index, if any.
    pub fn index_to_address(&self, index: usize) -> (r: Option<u64>)
        ensures
            r == (if index < self@.addrs.len() {
                Some(self@.addrs[index as int])
            } else {
                None::<u64>
            }),
    {
        proof {
            use_type_invariant(self);
        }
        let r = bm_get_by_right(&self.memory_map, index);
        proof {
            let v = self@;
            match r {
                Some(a) => {
                    let i = choose|i: int| 0 <= i < v.addrs.len() && v.addrs[i] == a;
                    assert(v.addr_map[v.addrs[i]] == i);
                },
                None => {
                    if index < v.addrs.len() {
                        assert(v.addr_map.contains_key(v.addrs[index as int]));
                        assert(false);
                    }
                },
            }
        }
        r
    }

    /// The address a symbol name resolves to, if any; the latest table
    /// entry for a name wins.
    pub fn symbol_to_address(&self, symbol: &str) -> (r: Option<u64>)
        ensures
            r == spec_symbol_lookup(self@.syms, symbol@),
    {
        lookup_symbol(&self.symbols, symbol)
    }

    /// Every distinct symbol name that points at the given address; empty,
    /// never absent, when no name does.
    pub fn address_to_symbols(&self, address: u64) -> (r: Vec<String>)
        ensures
            forall|k: int| 0 <= k < r@.len() ==> spec_has_symbol(self@.syms, address, (#[trigger] r@[k])@),
            forall|j: int|
                0 <= j < self@.syms.len() && (#[trigger] self@.syms[j]).1 == address ==> exists|k: int|
                    0 <= k < r@.len() && r@[k]@ == self@.syms[j].0,
            forall|k1: int, k2: int| 0 <= k1 < k2 < r@.len() ==> (#[trigger] r@[k1])@ != (#[trigger] r@[k2])@,
    {
        let ghost sv = syms_view(self.symbols@);
        let mut out: Vec<String> = Vec::new();
        let n = self.symbols.len();
        let mut j: usize = 0;
        while j < n
            invariant
                j <= n,
                n == self.symbols.len(),
                sv == syms_view(self.symbols@),
                sv == self@.syms,
                forall|k: int| 0 <= k < out@.len() ==> spec_has_symbol(sv, address, (#[trigger] out@[k])@),
                forall|jj: int|
                    0 <= jj < j && (#[trigger] sv[jj]).1 == address ==> exists|k: int|
                        0 <= k < out@.len() && out@[k]@ == sv[jj].0,
                forall|k1: int, k2: int| 0 <= k1 < k2 < out@.len() ==> (#[trigger] out@[k1])@ != (#[trigger] out@[k2])@,
            decreases n - j,
        {
            let pair = &self.symbols[j];
            if pair.1 == address {
                if !contains_name(&out, &pair.0) {
                    let ghost out0 = out@;
                    out.push(pair.0.clone());
                    proof {
                        assert(sv[j as int] == (pair.0@, pair.1));
                        assert(spec_has_symbol(sv, address, pair.0@));
                        assert forall|jj: int|
                            0 <= jj < j + 1 && (#[trigger] sv[jj]).1 == address implies exists|
                            k: int,
                        | 0 <= k < out@.len() && out@[k]@ == sv[jj].0 by {
                            if jj < j {
                                let k = choose|k: int|
                                    0 <= k < out0.len() && out0[k]@ == sv[jj].0;
                                assert(out@[k]@ == sv[jj].0);
                            } else {
                                assert(out@[out@.len() - 1]@ == sv[jj].0);
                            }
                        }
                    }
                } else {
                    proof {
                        assert(sv[j as int].0 == pair.0@);
                    }
                }
            }
            j = j + 1;
        }
        out
    }
}

/// Whether a vector of names already holds the given name.
fn contains_name(v: &Vec<String>, s: &String) -> (b: bool)
    ensures
        b == exists|k: int| 0 <= k < v@.len() && (#[trigger] v@[k])@ == s@,
{
    let n = v.len();
    let mut k: usize = 0;
    while k < n
        invariant
            k <= n,
            n == v@.len(),
            forall|kk: int| 0 <= kk < k ==> (#[trigger] v@[kk])@ != s@,
        decreases n - k,
    {
        if v[k] == *s {
            return true;
        }
        k = k + 1;
    }
    false
}

/// The first index at or after `k` whose instruction fails normalization,
/// if any.
pub open spec fn spec_first_unnormalizable(mach: Seq<MachInst>, k: int) -> Option<int>
    decreases mach.len() - k,
{
    if k < 0 || k >= mach.len() {
        None
    } else if spec_normalize(mach[k]) is Err {
        Some(k)
    } else {
        spec_first_unnormalizable(mach, k + 1)
    }
}

/// The first index at or after `k` whose address does not exceed its
/// predecessor's, if any.
pub open spec fn spec_first_nonincreasing(mach: Seq<MachInst>, k: int) -> Option<int>
    decreases mach.len() - k,
{
    if k < 1 || k >= mach.len() {
        None
    } else if mach[k - 1].ip >= mach[k].ip {
        Some(k)
    } else {
        spec_first_nonincreasing(mach, k + 1)
    }
}

/// Normalizes every instruction of a stream, or reports the first failure.
fn normalize_all(mach: &Vec<MachInst>) -> (r: Result<Vec<Instruction>, Error>)
    ensures
        match r {
            Ok(instrs) => {
                &&& all_normalize_ok(mach@)
                &&& instrs@.len() == mach@.len()
                &&& forall|i: int|
                    0 <= i < mach@.len() ==> (spec_normalize(#[trigger] mach@[i]) matches Ok(ins)
                        && ins == instrs@[i])
            },
            Err(e) => {
                &&& !all_normalize_ok(mach@)
                &&& (spec_first_unnormalizable(mach@, 0) matches Some(i) && e == (
                Error::BadInstruction { index: i as usize }))
            },
        },
{
    let n = mach.len();
    let mut instructions: Vec<Instruction> = Vec::new();
    let mut i: usize = 0;
    while i < n
        invariant
            i <= n,
            n == mach@.len(),
            instructions@.len() == i,
            spec_first_unnormalizable(mach@, 0) == spec_first_unnormalizable(mach@, i as int),
            forall|j: int|
                0 <= j < i ==> (spec_normalize(#[trigger] mach@[j]) matches Ok(ins) && ins
                    == instructions@[j]),
        decreases n - i,
    {
        let mi = mach[i];
        match normalize(&mi) {
            Ok(ins) => instructions.push(ins),
            Err(_) => {
                proof {
                    assert(spec_first_unnormalizable(mach@, i as int) == Some(i as int));
                    assert(!all_normalize_ok(mach@)) by {
                        assert(spec_normalize(mach@[i as int]) is Err);
                    }
                }
                return Err(Error::BadInstruction { index: i });
            },
        }
        i = i + 1;
    }
    Ok(instructions)
}

/// Checks that the stream's addresses strictly increase, reporting the
/// first position that does not.
fn check_increasing(mach: &Vec<MachInst>) -> (r: Result<(), Error>)
    ensures
        match r {
            Ok(_) => ips_increasing(mach@),
            Err(e) => {
                &&& !ips_increasing(mach@)
                &&& (spec_first_nonincreasing(mach@, 1) matches Some(i) && e == (
                Error::NonIncreasingAddress { index: i as usize }))
            },
        },
{
    let n = mach.len();
    let mut i: usize = 1;
    while i < n
        invariant
            1 <= i || n == 0,
            i <= n || n == 0,
            n == mach@.len(),
            spec_first_nonincreasing(mach@, 1) == spec_first_nonincreasing(mach@, i as int),
            forall|a: int, b: int|
                0 <= a < b < i ==> (#[trigger] mach@[a]).ip < (#[trigger] mach@[b]).ip,
        decreases n - i,
    {
        if mach[i - 1].ip >= mach[i].ip {
            proof {
                assert(spec_first_nonincreasing(mach@, i as int) == Some(i as int));
                assert(!ips_increasing(mach@)) by {
                    assert(mach@[i - 1].ip >= mach@[i as int].ip);
                }
            }
            return Err(Error::NonIncreasingAddress { index: i });
        }
        proof {
            assert forall|a: int, b: int| 0 <= a < b < i + 1 implies (#[trigger] mach@[a]).ip < (
            #[trigger] mach@[b]).ip by {
                if b == i as int {
                    if a < i - 1 {
                        assert(mach@[a].ip < mach@[i - 1].ip);
                    }
                    assert(mach@[i - 1].ip < mach@[i as int].ip);
                }
            }
        }
        i = i + 1;
    }
    Ok(())
}

/// Builds the address-to-index bijection for a strictly increasing stream.
fn build_memory_map(mach: &Vec<MachInst>) -> (m: bimap::BiMap<u64, usize>)
    requires
        ips_increasing(mach@),
    ensures
        forall|j: int|
            0 <= j < mach@.len() ==> bm_fwd(m).contains_key((#[trigger] mach@[j]).ip) && bm_fwd(
                m,
            )[mach@[j].ip] == j,
        forall|a: u64|
            #[trigger] bm_fwd(m).contains_key(a) ==> exists|j: int|
                0 <= j < mach@.len() && (#[trigger] mach@[j]).ip == a,
{
    let ghost gaddrs: Seq<u64> = mach@.map_values(|mi: MachInst| mi.ip);
    proof {
        assert forall|a: int, b: int| 0 <= a < b < gaddrs.len() implies #[trigger] gaddrs[a]
            < #[trigger] gaddrs[b] by {
            assert(mach@[a].ip < mach@[b].ip);
        }
    }
    let n = mach.len();
    let mut memory_map = bm_new();
    let mut i: usize = 0;
    while i < n
        invariant
            i <= n,
            n == mach@.len(),
            gaddrs == mach@.map_values(|mi: MachInst| mi.ip),
            forall|a: int, b: int|
                0 <= a < b < gaddrs.len() ==> #[trigger] gaddrs[a] < #[trigger] gaddrs[b],
            forall|j: int|
                0 <= j < i ==> bm_fwd(memory_map).contains_key(#[trigger] gaddrs[j]) && bm_fwd(
                    memory_map,
                )[gaddrs[j]] == j,
            forall|a: u64|
                #[trigger] bm_fwd(memory_map).contains_key(a) ==> exists|j: int|
                    0 <= j < i && gaddrs[j] == a,
        decreases n - i,
    {
        proof {
            if bm_fwd(memory_map).contains_key(mach@[i as int].ip) {
                let j = choose|j: int| 0 <= j < i && gaddrs[j] == mach@[i as int].ip;
                assert(gaddrs[j] < gaddrs[i as int]);
                assert(false);
            }
            assert forall|a: u64| bm_fwd(memory_map).contains_key(a) implies bm_fwd(memory_map)[a]
                != i by {
                let j = choose|j: int| 0 <= j < i && gaddrs[j] == a;
                assert(bm_fwd(memory_map)[a] == j);
            }
        }
        let ip = mach[i].ip;
        let ghost prev = bm_fwd(memory_map);
        bm_insert(&mut memory_map, ip, i);
        proof {
            assert(bm_fwd(memory_map) == prev.insert(ip, i));
            assert forall|a: u64| #[trigger] bm_fwd(memory_map).contains_key(a) implies exists|
                j: int,
            | 0 <= j < i + 1 && gaddrs[j] == a by {
                if a == ip {
                    assert(gaddrs[i as int] == a);
                } else {
                    assert(prev.contains_key(a));
                    let j = choose|j: int| 0 <= j < i && gaddrs[j] == a;
                    assert(gaddrs[j] == a);
                }
            }
        }
        i = i + 1;
    }
    proof {
        assert forall|j: int| 0 <= j < mach@.len() implies bm_fwd(memory_map).contains_key(
            (#[trigger] mach@[j]).ip,
        ) && bm_fwd(memory_map)[mach@[j].ip] == j by {
            assert(gaddrs[j] == mach@[j].ip);
        }
        assert forall|a: u64| #[trigger] bm_fwd(memory_map).contains_key(a) implies exists|j: int|
            0 <= j < mach@.len() && (#[trigger] mach@[j]).ip == a by {
            let j = choose|j: int| 0 <= j < i && gaddrs[j] == a;
            assert(mach@[j].ip == a);
        }
    }
    memory_map
}

/// Builds a normalized, indexed program from a generic decoded instruction
/// stream and a symbol table. Fails when the "entry" symbol is absent, when
/// a nonempty stream does not begin at the entry address, when any
/// instruction fails normalization (reporting the first), or when the
/// stream's addresses do not strictly increase (reporting the first).
pub fn load(mach: &Vec<MachInst>, symbols: Vec<(String, u64)>) -> (r: Result<Program, Error>)
    ensures
        match r {
            Ok(p) => {
                &&& all_normalize_ok(mach@)
                &&& ips_increasing(mach@)
                &&& spec_symbol_lookup(syms_view(symbols@), "entry"@) == Some(p@.entry)
                &&& mach@.len() > 0 ==> mach@[0].ip == p@.entry
                &&& p@.instrs.len() == mach@.len()
                &&& forall|i: int|
                    0 <= i < mach@.len() ==> (spec_normalize(#[trigger] mach@[i]) matches Ok(ins)
                        && ins == p@.instrs[i])
                &&& p@.addrs == mach@.map_values(|mi: MachInst| mi.ip)
                &&& p@.syms == syms_view(symbols@)
            },
            Err(e) => {
                if spec_symbol_lookup(syms_view(symbols@), "entry"@) is None {
                    e == Error::MissingEntrySymbol
                } else if mach@.len() > 0 && spec_symbol_lookup(syms_view(symbols@), "entry"@)
                    != Some(mach@[0].ip) {
                    e == Error::EntryAddressMismatch
                } else if !all_normalize_ok(mach@) {
                    spec_first_unnormalizable(mach@, 0) matches Some(i) && e == (
                    Error::BadInstruction { index: i as usize })
                } else if !ips_increasing(mach@) {
                    spec_first_nonincreasing(mach@, 1) matches Some(i) && e == (
                    Error::NonIncreasingAddress { index: i as usize })
                } else {
                    false
                }
            },
        },
{
    let entry = match lookup_symbol(&symbols, "entry") {
        Some(a) => a,
        None => {
            return Err(Error::MissingEntrySymbol);
        },
    };
    if mach.len() > 0 && mach[0].ip != entry {
        return Err(Error::EntryAddressMismatch);
    }
    let instructions = match normalize_all(mach) {
        Ok(instrs) => instrs,
        Err(e) => {
            return Err(e);
        },
    };
    match check_increasing(mach) {
        Ok(_) => (),
        Err(e) => {
            return Err(e);
        },
    }
    let memory_map = build_memory_map(mach);
    let ghost gaddrs: Seq<u64> = mach@.map_values(|mi: MachInst| mi.ip);
    proof {
        assert(forall|j: int| 0 <= j < gaddrs.len() ==> #[trigger] gaddrs[j] == mach@[j].ip);
        assert forall|a: int, b: int| 0 <= a < b < gaddrs.len() implies #[trigger] gaddrs[a]
            < #[trigger] gaddrs[b] by {
            assert(mach@[a].ip < mach@[b].ip);
        }
    }
    proof {
        let v = ProgramView {
            entry: entry,
            instrs: instructions@,
            addrs: gaddrs,
            addr_map: bm_fwd(memory_map),
            syms: syms_view(symbols@),
        };
        assert forall|i: int| 0 <= i < v.addrs.len() implies v.addr_map.contains_key(
            #[trigger] v.addrs[i],
        ) && v.addr_map[v.addrs[i]] == i by {
            assert(gaddrs[i] == mach@[i].ip);
            assert(bm_fwd(memory_map).contains_key(mach@[i].ip));
        }
        assert forall|a: u64| #[trigger] v.addr_map.contains_key(a) implies exists|i: int|
            0 <= i < v.addrs.len() && v.addrs[i] == a by {
            let j = choose|j: int| 0 <= j < mach@.len() && (#[trigger] mach@[j]).ip == a;
            assert(gaddrs[j] == a);
            assert(v.addrs[j] == a);
        }
        assert(spec_symbol_lookup(v.syms, "entry"@) == Some(entry));
        if gaddrs.len() > 0 {
            assert(gaddrs[0] == mach@[0].ip);
        }
        assert(view_wf(v));
    }
    let p = Program {
        entry_point: entry,
        instructions,
        memory_map,
        symbols,
        addrs: Ghost(gaddrs),
    };
    Ok(p)
}

} // verus!
