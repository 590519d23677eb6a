//! The tagged-value decoder and the idiom-matching decompiler core.

use vstd::prelude::*;

use crate::a86::{
    spec_symbol_lookup, Arg, Instruction, Program as A86Program, ProgramView, Register,
};
use crate::loot::{Datum, Defn, Expr, Operation, Program as LootProgram};
use crate::Error;

verus! {

/// Whether a code point is a valid Unicode scalar value.
pub open spec fn valid_scalar(v: u64) -> bool {
    v < 0xD800 || (0xE000 <= v && v <= 0x10FFFF)
}

/// What [`parse_const`] returns: the source-level value a 64-bit literal
/// encodes under the runtime's tag-bit convention, if any.
pub open spec fn spec_parse_const(lit: u64) -> Option<Expr> {
    if lit == 0b011000 {
        Some(Expr::Literal(Datum::Boolean(true)))
    } else if lit == 0b111000 {
        Some(Expr::Literal(Datum::Boolean(false)))
    } else if lit == 0b1111000 {
        Some(Expr::Op(Operation::Void))
    } else if lit & 0b11111 == 0b01000 {
        if valid_scalar(lit >> 5) {
            Some(Expr::Literal(Datum::Character((lit >> 5) as char)))
        } else {
            None
        }
    } else if lit & 0b1111 == 0 {
        Some(Expr::Literal(Datum::Integer((lit as i64) >> 4)))
    } else {
        None
    }
}

/// Relies on char::from_u32: it returns the scalar value for every code
/// point except surrogates and values above the Unicode maximum, and `None`
/// for those.
pub assume_specification[ char::from_u32 ](v: u32) -> (r: Option<char>)
    ensures
        r == (if v < 0xD800 || (0xE000 <= v && v <= 0x10FFFF) {
            Some(v as char)
        } else {
            None::<char>
        }),
;

/// Decodes a 64-bit literal per the runtime's tag-bit convention. An
/// undecodable pattern is a local decode failure (`None`), never a panic.
pub fn parse_const(lit: u64) -> (r: Option<Expr>)
    ensures
        r == spec_parse_const(lit),
{
    if lit == 0b011000 {
        Some(Expr::Literal(Datum::Boolean(true)))
    } else if lit == 0b111000 {
        Some(Expr::Literal(Datum::Boolean(false)))
    } else if lit == 0b1111000 {
        Some(Expr::Op(Operation::Void))
    } else if lit & 0b11111 == 0b01000 {
        let shifted = lit >> 5;
        proof {
            assert(lit >> 5 <= 0xFFFF_FFFF ==> (lit >> 5) as u32 == lit >> 5) by (bit_vector);
        }
        if shifted <= 0xFFFF_FFFF {
            match char::from_u32(shifted as u32) {
                Some(c) => Some(Expr::Literal(Datum::Character(c))),
                None => None,
            }
        } else {
            assert(!valid_scalar(lit >> 5));
            None
        }
    } else if lit & 0b1111 == 0 {
        Some(Expr::Literal(Datum::Integer((#[verifier::truncate] (lit as i64)) >> 4)))
    } else {
        None
    }
}


/// Folds the expressions completed in a region, left to right, into nested
/// sequencing; a single expression passes through unchanged, and an empty
/// region is an unclassified fragment.
pub open spec fn fold_region(es: Seq<Expr>) -> Expr
    decreases es.len(),
{
    if es.len() == 0 {
        Expr::Unknown
    } else if es.len() == 1 {
        es[0]
    } else {
        Expr::Begin(Box::new(es[0]), Box::new(fold_region(es.drop_first())))
    }
}

/// Folding with an already-folded tail appended behind `es`.
spec fn fold_with_tail(es: Seq<Expr>, tail: Expr) -> Expr
    decreases es.len(),
{
    if es.len() == 0 {
        tail
    } else {
        Expr::Begin(Box::new(es[0]), Box::new(fold_with_tail(es.drop_first(), tail)))
    }
}

proof fn lemma_fold_region_with_tail(es: Seq<Expr>)
    requires
        es.len() > 0,
    ensures
        fold_region(es) == fold_with_tail(es.drop_last(), es.last()),
    decreases es.len(),
{
    if es.len() > 1 {
        lemma_fold_region_with_tail(es.drop_first());
        assert(es.drop_first().drop_last() =~= es.drop_last().drop_first());
        assert(es.drop_first().last() == es.last());
        assert(es.drop_last()[0] == es[0]);
    }
}

proof fn lemma_fold_with_tail_step(es: Seq<Expr>, tail: Expr)
    requires
        es.len() > 0,
    ensures
        fold_with_tail(es, tail) == fold_with_tail(
            es.drop_last(),
            Expr::Begin(Box::new(es.last()), Box::new(tail)),
        ),
    decreases es.len(),
{
    if es.len() == 1 {
        assert(fold_with_tail(es.drop_first(), tail) == tail);
        assert(fold_with_tail(
            es.drop_last(),
            Expr::Begin(Box::new(es.last()), Box::new(tail)),
        ) == Expr::Begin(Box::new(es.last()), Box::new(tail)));
        assert(es[0] == es.last());
    } else {
        lemma_fold_with_tail_step(es.drop_first(), tail);
        assert(es.drop_first().drop_last() =~= es.drop_last().drop_first());
        assert(es.drop_first().last() == es.last());
        assert(es.drop_last()[0] == es[0]);
    }
}

/// Folds a region's completed expressions into one expression.
fn fold_region_exec(es: Vec<Expr>) -> (e: Expr)
    ensures
        e == fold_region(es@),
{
    let ghost orig = es@;
    let mut rest = es;
    let mut e = match rest.pop() {
        Some(last) => last,
        None => {
            return Expr::Unknown;
        },
    };
    proof {
        lemma_fold_region_with_tail(orig);
    }
    while rest.len() > 0
        invariant
            fold_with_tail(rest@, e) == fold_region(orig),
        decreases rest.len(),
    {
        proof {
            lemma_fold_with_tail_step(rest@, e);
        }
        let prev = rest.pop().unwrap();
        e = Expr::Begin(Box::new(prev), Box::new(e));
    }
    e
}

/// The immediate of a move-immediate-to-accumulator at `pos`, if one is
/// there.
pub open spec fn lit_load_at(instrs: Seq<Instruction>, pos: int) -> Option<u64> {
    if 0 <= pos < instrs.len() {
        match instrs[pos] {
            Instruction::Mov(Arg::Register(Register::Eax), Arg::Literal(l)) => Some(l),
            Instruction::Mov(Arg::Register(Register::Rax), Arg::Literal(l)) => Some(l),
            _ => None,
        }
    } else {
        None
    }
}

/// The call target of a stack-align + call + unalign idiom at `pos`, if one
/// is there.
pub open spec fn call_idiom_at(instrs: Seq<Instruction>, pos: int) -> Option<u64> {
    if 0 <= pos && pos + 5 <= instrs.len() && instrs[pos] == Instruction::Mov(
        Arg::Register(Register::R15),
        Arg::Register(Register::Rsp),
    ) && instrs[pos + 1] == Instruction::And(Arg::Register(Register::R15), Arg::Literal(0x8))
        && instrs[pos + 2] == Instruction::Sub(
        Arg::Register(Register::Rsp),
        Arg::Register(Register::R15),
    ) && instrs[pos + 4] == Instruction::Add(
        Arg::Register(Register::Rsp),
        Arg::Register(Register::R15),
    ) {
        match instrs[pos + 3] {
            Instruction::Call(target) => Some(target),
            _ => None,
        }
    } else {
        None
    }
}

/// The jump label of an integer type-check sequence at `pos` testing the
/// given register, if one is there: move to scratch, mask the tag nibble,
/// compare to zero, conditional jump.
pub open spec fn typecheck_at(instrs: Seq<Instruction>, pos: int, src: Register) -> Option<u64> {
    if 0 <= pos && pos + 4 <= instrs.len() && instrs[pos] == Instruction::Mov(
        Arg::Register(Register::R9),
        Arg::Register(src),
    ) && instrs[pos + 1] == Instruction::And(Arg::Register(Register::R9), Arg::Literal(0xf))
        && instrs[pos + 2] == Instruction::Cmp(Arg::Register(Register::R9), Arg::Literal(0x0)) {
        match instrs[pos + 3] {
            Instruction::Jne(Arg::Address(lab)) => Some(lab),
            _ => None,
        }
    } else {
        None
    }
}

/// Whether a push-accumulator instruction stands at `pos`.
pub open spec fn push_acc_at(instrs: Seq<Instruction>, pos: int) -> bool {
    0 <= pos < instrs.len() && (instrs[pos] == Instruction::Push(Arg::Register(Register::Eax))
        || instrs[pos] == Instruction::Push(Arg::Register(Register::Rax)))
}

/// The two guard labels of a binary-primitive prefix at `pos`, if one is
/// there: pop into scratch, then back-to-back type checks of the popped
/// value and the accumulator.
pub open spec fn binary_idiom_at(instrs: Seq<Instruction>, pos: int) -> Option<(u64, u64)> {
    if 0 <= pos < instrs.len() && instrs[pos] == Instruction::Pop(Arg::Register(Register::R8)) {
        match (typecheck_at(instrs, pos + 1, Register::R8), typecheck_at(
            instrs,
            pos + 5,
            Register::Rax,
        )) {
            (Some(lab1), Some(lab2)) => Some((lab1, lab2)),
            _ => None,
        }
    } else {
        None
    }
}

/// The false-branch target of a conditional idiom at `pos`, if one is
/// there: compare the accumulator to a literal, then jump-if-equal.
pub open spec fn if_idiom_at(instrs: Seq<Instruction>, pos: int) -> Option<u64> {
    if 0 <= pos && pos + 2 <= instrs.len() && (instrs[pos] matches Instruction::Cmp(
        Arg::Register(Register::Eax),
        Arg::Literal(_),
    ) || instrs[pos] matches Instruction::Cmp(Arg::Register(Register::Rax), Arg::Literal(_))) {
        match instrs[pos + 1] {
            Instruction::Je(Arg::Address(target)) => Some(target),
            _ => None,
        }
    } else {
        None
    }
}

/// The part of a program's model that reconstruction walks: the
/// instruction sequence and the address-to-index map. The only other
/// inputs the matcher consults are the resolved addresses of the error
/// trap and of the runtime support symbols, passed separately.
#[verifier::ext_equal]
pub struct MatchModel {
    pub instrs: Seq<Instruction>,
    pub addr_map: Map<u64, usize>,
}

/// The matcher's model of a loaded program.
pub open spec fn match_model(v: ProgramView) -> MatchModel {
    MatchModel { instrs: v.instrs, addr_map: v.addr_map }
}

/// What reconstructing one region returns: the region's expression, the
/// cursor after it, and the operand stack as the region leaves it.
///
/// The cursor starts at `pos`; `stop` is the region's exclusive bound, or
/// none for a region that runs until nothing matches; `err`, `rb` and `pk`
/// are the resolved addresses of the error trap and of the runtime support
/// calls; `stack` is the explicit operand stack mirroring the native
/// push/pop discipline; `acc` holds the expressions completed so far in
/// this region, oldest first. Idioms are tried in a fixed priority order;
/// when none matches, the region ends where it stands with what it has.
pub open spec fn spec_region(
    m: MatchModel,
    err: u64,
    rb: Option<u64>,
    pk: Option<u64>,
    pos: int,
    stop: Option<int>,
    stack: Seq<Expr>,
    acc: Seq<Expr>,
) -> Result<(Expr, int, Seq<Expr>), Error>
    decreases m.instrs.len() - pos,
{
    let n = m.instrs.len() as int;
    let done = match stop {
        Some(s) => pos >= s,
        None => false,
    };
    if done || pos < 0 || pos >= n {
        Ok((fold_region(acc), pos, stack))
    } else {
        match lit_load_at(m.instrs, pos) {
            Some(lit) => match spec_parse_const(lit) {
                Some(e) => spec_region(m, err, rb, pk, pos + 1, stop, stack, acc.push(e)),
                None => Ok((fold_region(acc), pos, stack)),
            },
            None => match call_idiom_at(m.instrs, pos) {
                Some(target) => {
                    if rb == Some(target) {
                        spec_region(
                            m,
                            err,
                            rb,
                            pk,
                            pos + 5,
                            stop,
                            stack,
                            acc.push(Expr::Op(Operation::ReadByte)),
                        )
                    } else if pk == Some(target) {
                        spec_region(
                            m,
                            err,
                            rb,
                            pk,
                            pos + 5,
                            stop,
                            stack,
                            acc.push(Expr::Op(Operation::PeekByte)),
                        )
                    } else {
                        Err(Error::UnknownCallTarget { index: pos as usize, target })
                    }
                },
                None => match typecheck_at(m.instrs, pos, Register::Rax) {
                    Some(lab) => {
                        if lab != err {
                            Err(Error::GuardTargetMismatch { index: pos as usize })
                        } else if pos + 5 <= n && m.instrs[pos + 4] == Instruction::Add(
                            Arg::Register(Register::Rax),
                            Arg::Literal(0x10),
                        ) {
                            if acc.len() == 0 {
                                Err(Error::MissingOperand { index: pos as usize })
                            } else {
                                spec_region(
                                    m,
                                    err,
                                    rb,
                                    pk,
                                    pos + 5,
                                    stop,
                                    stack,
                                    acc.drop_last().push(
                                        Expr::Op(Operation::Add1(Box::new(acc.last()))),
                                    ),
                                )
                            }
                        } else {
                            Err(Error::UnsupportedOperation { index: pos as usize })
                        }
                    },
                    None => {
                        if push_acc_at(m.instrs, pos) {
                            if acc.len() == 0 {
                                Err(Error::MissingOperand { index: pos as usize })
                            } else {
                                match spec_region(
                                    m,
                                    err,
                                    rb,
                                    pk,
                                    pos + 1,
                                    None,
                                    stack.push(fold_region(acc)),
                                    Seq::empty(),
                                ) {
                                    Err(e) => Err(e),
                                    Ok((e2, p2, st2)) => {
                                        let p2c = if p2 <= pos {
                                            pos + 1
                                        } else if p2 > n {
                                            n
                                        } else {
                                            p2
                                        };
                                        if e2 is Unknown {
                                            Ok((Expr::Unknown, p2c, st2))
                                        } else {
                                            spec_region(
                                                m,
                                                err,
                                                rb,
                                                pk,
                                                p2c,
                                                stop,
                                                st2,
                                                Seq::empty().push(e2),
                                            )
                                        }
                                    },
                                }
                            }
                        } else {
                            match binary_idiom_at(m.instrs, pos) {
                                Some((lab1, lab2)) => {
                                    if lab1 != err || lab2 != err {
                                        Err(Error::GuardTargetMismatch { index: pos as usize })
                                    } else if pos + 10 <= n && m.instrs[pos + 9]
                                        == Instruction::Add(
                                        Arg::Register(Register::Rax),
                                        Arg::Register(Register::R8),
                                    ) {
                                        if stack.len() == 0 || acc.len() == 0 {
                                            Err(Error::MissingOperand { index: pos as usize })
                                        } else {
                                            spec_region(
                                                m,
                                                err,
                                                rb,
                                                pk,
                                                pos + 10,
                                                stop,
                                                stack.drop_last(),
                                                acc.drop_last().push(
                                                    Expr::Op(
                                                        Operation::Plus(
                                                            Box::new(stack.last()),
                                                            Box::new(acc.last()),
                                                        ),
                                                    ),
                                                ),
                                            )
                                        }
                                    } else {
                                        Err(Error::UnsupportedOperation { index: pos as usize })
                                    }
                                },
                                None => match if_idiom_at(m.instrs, pos) {
                                    Some(target) => spec_region_if(
                                        m,
                                        err,
                                        rb,
                                        pk,
                                        pos,
                                        stop,
                                        stack,
                                        acc,
                                        target,
                                    ),
                                    None => Ok((fold_region(acc), pos, stack)),
                                },
                            }
                        }
                    },
                },
            },
        }
    }
}

/// The conditional idiom at `pos` with false-branch target `target`: the
/// region up to the trailing jump is the true branch, the region from the
/// target to the jump's destination is the false branch, and the most
/// recently completed expression is the test.
pub open spec fn spec_region_if(
    m: MatchModel,
    err: u64,
    rb: Option<u64>,
    pk: Option<u64>,
    pos: int,
    stop: Option<int>,
    stack: Seq<Expr>,
    acc: Seq<Expr>,
    target: u64,
) -> Result<(Expr, int, Seq<Expr>), Error>
    decreases m.instrs.len() - pos, 1int,
    when 0 <= pos && pos + 2 <= m.instrs.len()
{
    let n = m.instrs.len() as int;
    if !m.addr_map.contains_key(target) {
        Err(Error::BadBranchTarget { index: pos as usize, target })
    } else {
        let l_idx = m.addr_map[target] as int;
        if l_idx < pos + 3 || l_idx > n {
            Err(Error::MalformedIf { index: pos as usize })
        } else {
            let jmp_loc = l_idx - 1;
            match spec_region(m, err, rb, pk, pos + 2, Some(jmp_loc), stack, Seq::empty()) {
                Err(e) => Err(e),
                Ok((then_e, _, st1)) => match m.instrs[jmp_loc] {
                    Instruction::Jmp(Arg::Address(end_addr)) => {
                        if !m.addr_map.contains_key(end_addr) {
                            Err(Error::BadBranchTarget { index: jmp_loc as usize, target: end_addr })
                        } else {
                            let if_end = m.addr_map[end_addr] as int;
                            if if_end < l_idx || if_end > n {
                                Err(Error::MalformedIf { index: pos as usize })
                            } else {
                                match spec_region(m, err, rb, pk, l_idx, Some(if_end), st1, Seq::empty()) {
                                    Err(e) => Err(e),
                                    Ok((else_e, _, st2)) => {
                                        if acc.len() == 0 {
                                            Err(Error::MissingOperand { index: pos as usize })
                                        } else {
                                            spec_region(
                                                m,
                                                err,
                                                rb,
                                                pk,
                                                if_end,
                                                stop,
                                                st2,
                                                acc.drop_last().push(
                                                    Expr::If(
                                                        Box::new(acc.last()),
                                                        Box::new(then_e),
                                                        Box::new(else_e),
                                                    ),
                                                ),
                                            )
                                        }
                                    },
                                }
                            }
                        }
                    },
                    _ => Err(Error::MalformedIf { index: jmp_loc as usize }),
                },
            }
        }
    }
}


fn lit_load_check(insns: &Vec<Instruction>, pos: usize) -> (r: Option<u64>)
    ensures
        r == lit_load_at(insns@, pos as int),
{
    if pos < insns.len() {
        match insns[pos] {
            Instruction::Mov(Arg::Register(Register::Eax), Arg::Literal(l)) => Some(l),
            Instruction::Mov(Arg::Register(Register::Rax), Arg::Literal(l)) => Some(l),
            _ => None,
        }
    } else {
        None
    }
}

fn call_idiom_check(insns: &Vec<Instruction>, pos: usize) -> (r: Option<u64>)
    ensures
        r == call_idiom_at(insns@, pos as int),
{
    let n = insns.len();
    if pos < n && n - pos >= 5 && insns[pos] == Instruction::Mov(
        Arg::Register(Register::R15),
        Arg::Register(Register::Rsp),
    ) && insns[pos + 1] == Instruction::And(Arg::Register(Register::R15), Arg::Literal(0x8))
        && insns[pos + 2] == Instruction::Sub(
        Arg::Register(Register::Rsp),
        Arg::Register(Register::R15),
    ) && insns[pos + 4] == Instruction::Add(
        Arg::Register(Register::Rsp),
        Arg::Register(Register::R15),
    ) {
        match insns[pos + 3] {
            Instruction::Call(target) => Some(target),
            _ => None,
        }
    } else {
        None
    }
}

fn typecheck_check(insns: &Vec<Instruction>, pos: usize, src: Register) -> (r: Option<u64>)
    ensures
        r == typecheck_at(insns@, pos as int, src),
{
    let n = insns.len();
    if pos < n && n - pos >= 4 && insns[pos] == Instruction::Mov(
        Arg::Register(Register::R9),
        Arg::Register(src),
    ) && insns[pos + 1] == Instruction::And(Arg::Register(Register::R9), Arg::Literal(0xf))
        && insns[pos + 2] == Instruction::Cmp(Arg::Register(Register::R9), Arg::Literal(0x0)) {
        match insns[pos + 3] {
            Instruction::Jne(Arg::Address(lab)) => Some(lab),
            _ => None,
        }
    } else {
        None
    }
}

fn push_acc_check(insns: &Vec<Instruction>, pos: usize) -> (r: bool)
    ensures
        r == push_acc_at(insns@, pos as int),
{
    pos < insns.len() && (insns[pos] == Instruction::Push(Arg::Register(Register::Eax))
        || insns[pos] == Instruction::Push(Arg::Register(Register::Rax)))
}

fn binary_check(insns: &Vec<Instruction>, pos: usize) -> (r: Option<(u64, u64)>)
    ensures
        r == binary_idiom_at(insns@, pos as int),
{
    let n = insns.len();
    if pos < n && n - pos >= 9 && insns[pos] == Instruction::Pop(Arg::Register(Register::R8)) {
        match (typecheck_check(insns, pos + 1, Register::R8), typecheck_check(
            insns,
            pos + 5,
            Register::Rax,
        )) {
            (Some(lab1), Some(lab2)) => Some((lab1, lab2)),
            _ => None,
        }
    } else {
        None
    }
}

fn if_check(insns: &Vec<Instruction>, pos: usize) -> (r: Option<u64>)
    ensures
        r == if_idiom_at(insns@, pos as int),
{
    let n = insns.len();
    if pos < n && n - pos >= 2 {
        let is_cmp = match insns[pos] {
            Instruction::Cmp(Arg::Register(Register::Eax), Arg::Literal(_)) => true,
            Instruction::Cmp(Arg::Register(Register::Rax), Arg::Literal(_)) => true,
            _ => false,
        };
        if is_cmp {
            match insns[pos + 1] {
                Instruction::Je(Arg::Address(target)) => Some(target),
                _ => None,
            }
        } else {
            None
        }
    } else {
        None
    }
}

/// The region bound as the specification sees it.
pub open spec fn stop_view(stop: Option<usize>) -> Option<int> {
    match stop {
        Some(s) => Some(s as int),
        None => None,
    }
}

/// Reconstructs one region: tries idioms at the cursor in priority order,
/// accumulating completed expressions in `acc`, until the bound is reached
/// or nothing matches.
#[verifier::rlimit(100)]
fn parse_region(
    program: &A86Program,
    position: usize,
    stop: Option<usize>,
    stack: &mut Vec<Expr>,
    acc: Vec<Expr>,
    err: u64,
) -> (r: Result<(Expr, usize), Error>)
    ensures
        (r matches Ok(t) ==> (spec_region(
            match_model(program@),
            err,
            spec_symbol_lookup(program@.syms, "read_byte"@),
            spec_symbol_lookup(program@.syms, "peek_byte"@),
            position as int,
            stop_view(stop),
            old(stack)@,
            acc@,
        ) matches Ok(s) && s.0 == t.0 && s.1 == t.1 as int && s.2 == final(stack)@)),
        (r matches Err(e) ==> (spec_region(
            match_model(program@),
            err,
            spec_symbol_lookup(program@.syms, "read_byte"@),
            spec_symbol_lookup(program@.syms, "peek_byte"@),
            position as int,
            stop_view(stop),
            old(stack)@,
            acc@,
        ) matches Err(e2) && e2 == e)),
    decreases program@.instrs.len() - position,
{
    let insns = program.instructions();
    let n = insns.len();
    let done = match stop {
        Some(s) => position >= s,
        None => false,
    };
    if done || position >= n {
        return Ok((fold_region_exec(acc), position));
    }
    if let Some(lit) = lit_load_check(insns, position) {
        return match parse_const(lit) {
            Some(e) => {
                let mut acc2 = acc;
                acc2.push(e);
                parse_region(program, position + 1, stop, stack, acc2, err)
            },
            None => Ok((fold_region_exec(acc), position)),
        };
    }
    if let Some(target) = call_idiom_check(insns, position) {
        let is_read = match program.symbol_to_address("read_byte") {
            Some(a) => a == target,
            None => false,
        };
        if is_read {
            let mut acc2 = acc;
            acc2.push(Expr::Op(Operation::ReadByte));
            return parse_region(program, position + 5, stop, stack, acc2, err);
        }
        let is_peek = match program.symbol_to_address("peek_byte") {
            Some(a) => a == target,
            None => false,
        };
        if is_peek {
            let mut acc2 = acc;
            acc2.push(Expr::Op(Operation::PeekByte));
            return parse_region(program, position + 5, stop, stack, acc2, err);
        }
        return Err(Error::UnknownCallTarget { index: position, target });
    }
    if let Some(lab) = typecheck_check(insns, position, Register::Rax) {
        if lab != err {
            return Err(Error::GuardTargetMismatch { index: position });
        }
        if n - position >= 5 && insns[position + 4] == Instruction::Add(
            Arg::Register(Register::Rax),
            Arg::Literal(0x10),
        ) {
            let mut acc2 = acc;
            return match acc2.pop() {
                Some(operand) => {
                    acc2.push(Expr::Op(Operation::Add1(Box::new(operand))));
                    parse_region(program, position + 5, stop, stack, acc2, err)
                },
                None => Err(Error::MissingOperand { index: position }),
            };
        }
        return Err(Error::UnsupportedOperation { index: position });
    }
    if push_acc_check(insns, position) {
        if acc.len() == 0 {
            return Err(Error::MissingOperand { index: position });
        }
        let folded = fold_region_exec(acc);
        stack.push(folded);
        let (e2, p2) = match parse_region(program, position + 1, None, stack, Vec::new(), err) {
            Ok(t) => t,
            Err(e) => {
                return Err(e);
            },
        };
        let p2c = if p2 <= position {
            position + 1
        } else if p2 > n {
            n
        } else {
            p2
        };
        return match e2 {
            Expr::Unknown => Ok((Expr::Unknown, p2c)),
            other => {
                let mut acc2: Vec<Expr> = Vec::new();
                acc2.push(other);
                parse_region(program, p2c, stop, stack, acc2, err)
            },
        };
    }
    if let Some((lab1, lab2)) = binary_check(insns, position) {
        if lab1 != err || lab2 != err {
            return Err(Error::GuardTargetMismatch { index: position });
        }
        if n - position >= 10 && insns[position + 9] == Instruction::Add(
            Arg::Register(Register::Rax),
            Arg::Register(Register::R8),
        ) {
            if stack.len() == 0 || acc.len() == 0 {
                return Err(Error::MissingOperand { index: position });
            }
            let arg1 = match stack.pop() {
                Some(a) => a,
                None => {
                    return Err(Error::MissingOperand { index: position });
                },
            };
            let mut acc2 = acc;
            let arg2 = match acc2.pop() {
                Some(a) => a,
                None => {
                    return Err(Error::MissingOperand { index: position });
                },
            };
            acc2.push(Expr::Op(Operation::Plus(Box::new(arg1), Box::new(arg2))));
            return parse_region(program, position + 10, stop, stack, acc2, err);
        }
        return Err(Error::UnsupportedOperation { index: position });
    }
    if let Some(target) = if_check(insns, position) {
        proof {
            assert(position + 2 <= program@.instrs.len());
            assert(spec_region(
                match_model(program@),
                err,
                spec_symbol_lookup(program@.syms, "read_byte"@),
                spec_symbol_lookup(program@.syms, "peek_byte"@),
                position as int,
                stop_view(stop),
                old(stack)@,
                acc@,
            )
                == spec_region_if(
                match_model(program@),
                err,
                spec_symbol_lookup(program@.syms, "read_byte"@),
                spec_symbol_lookup(program@.syms, "peek_byte"@),
                position as int,
                stop_view(stop),
                old(stack)@,
                acc@,
                target,
            ));
        }
        let l_idx = match program.address_to_index(target) {
            Some(i) => i,
            None => {
                return Err(Error::BadBranchTarget { index: position, target });
            },
        };
        if l_idx <= position || l_idx - position < 3 || l_idx > n {
            return Err(Error::MalformedIf { index: position });
        }
        let jmp_loc = l_idx - 1;
        let then_e = match parse_region(program, position + 2, Some(jmp_loc), stack, Vec::new(), err)
        {
            Ok(t) => t.0,
            Err(e) => {
                return Err(e);
            },
        };
        let end_addr = match insns[jmp_loc] {
            Instruction::Jmp(Arg::Address(a)) => a,
            _ => {
                return Err(Error::MalformedIf { index: jmp_loc });
            },
        };
        let if_end = match program.address_to_index(end_addr) {
            Some(i) => i,
            None => {
                return Err(Error::BadBranchTarget { index: jmp_loc, target: end_addr });
            },
        };
        if if_end < l_idx || if_end > n {
            return Err(Error::MalformedIf { index: position });
        }
        let else_e = match parse_region(program, l_idx, Some(if_end), stack, Vec::new(), err) {
            Ok(t) => t.0,
            Err(e) => {
                return Err(e);
            },
        };
        let mut acc2 = acc;
        return match acc2.pop() {
            Some(test) => {
                acc2.push(Expr::If(Box::new(test), Box::new(then_e), Box::new(else_e)));
                parse_region(program, if_end, stop, stack, acc2, err)
            },
            None => Err(Error::MissingOperand { index: position }),
        };
    }
    Ok((fold_region_exec(acc), position))
}

/// Reconstructs the expression of one region of the program, beginning at
/// `position` and bounded by `stop`, with `stack` the explicit operand
/// stack for spilled operands. Resolves the error-trap symbol first;
/// reconstruction cannot begin without it.
pub fn parse_expr(
    program: &A86Program,
    position: usize,
    stop: Option<usize>,
    stack: &mut Vec<Expr>,
) -> (r: Result<(Expr, usize), Error>)
    ensures
        (spec_symbol_lookup(program@.syms, "err"@) is None ==> (r matches Err(e) && e
            == Error::MissingErrSymbol)),
        (spec_symbol_lookup(program@.syms, "err"@) matches Some(err) ==> {
            &&& (r matches Ok(t) ==> (spec_region(
                match_model(program@),
                err,
                spec_symbol_lookup(program@.syms, "read_byte"@),
                spec_symbol_lookup(program@.syms, "peek_byte"@),
                position as int,
                stop_view(stop),
                old(stack)@,
                Seq::empty(),
            ) matches Ok(s) && s.0 == t.0 && s.1 == t.1 as int && s.2 == final(stack)@))
            &&& (r matches Err(e) ==> (spec_region(
                match_model(program@),
                err,
                spec_symbol_lookup(program@.syms, "read_byte"@),
                spec_symbol_lookup(program@.syms, "peek_byte"@),
                position as int,
                stop_view(stop),
                old(stack)@,
                Seq::empty(),
            ) matches Err(e2) && e2 == e))
        }),
{
    let err = match program.symbol_to_address("err") {
        Some(a) => a,
        None => {
            return Err(Error::MissingErrSymbol);
        },
    };
    parse_region(program, position, stop, stack, Vec::new(), err)
}

/// Reconstructs the program's named definitions beginning at `position`.
/// The idiom set does not cover function bodies: this reports none and
/// steps the cursor past the definitions position.
pub fn parse_defines(_program: &A86Program, position: usize) -> (r: (Vec<Defn>, usize))
    requires
        position < usize::MAX,
    ensures
        r.0@.len() == 0,
        r.1 == position + 1,
{
    (Vec::new(), position + 1)
}

/// Whether the program begins with the compiler's fixed three-instruction
/// prologue.
pub open spec fn spec_prologue_ok(instrs: Seq<Instruction>) -> bool {
    &&& instrs.len() >= 3
    &&& instrs[0] == Instruction::Push(Arg::Register(Register::Rbx))
    &&& instrs[1] == Instruction::Push(Arg::Register(Register::R15))
    &&& instrs[2] == Instruction::Mov(Arg::Register(Register::Rbx), Arg::Register(Register::Rdi))
}

/// What [`parse`] returns: the reconstructed definitions and top-level
/// expression of a whole program, or the exact failure. The top-level
/// region begins after the prologue and ends four instructions before the
/// error trap, where the fixed epilogue begins.
pub open spec fn spec_parse(v: ProgramView) -> Result<(Seq<Defn>, Expr), Error> {
    if !spec_prologue_ok(v.instrs) {
        Err(Error::BadPrologue)
    } else {
        match spec_symbol_lookup(v.syms, "err"@) {
            None => Err(Error::MissingErrSymbol),
            Some(err_addr) => {
                if !v.addr_map.contains_key(err_addr) {
                    Err(Error::ErrSymbolUnmapped)
                } else {
                    let err_idx = v.addr_map[err_addr] as int;
                    if err_idx < 4 {
                        Err(Error::MalformedEpilogue)
                    } else {
                        match spec_region(
                            match_model(v),
                            err_addr,
                            spec_symbol_lookup(v.syms, "read_byte"@),
                            spec_symbol_lookup(v.syms, "peek_byte"@),
                            4,
                            Some(err_idx - 4),
                            Seq::empty(),
                            Seq::empty(),
                        ) {
                            Err(e) => Err(e),
                            Ok((e, _, _)) => Ok((Seq::empty(), e)),
                        }
                    }
                }
            },
        }
    }
}

/// Matching is deterministic, and consults nothing beyond the matcher's
/// inputs: two programs with elementwise-identical instruction streams and
/// equal address-to-index maps, whose resolved error-trap and support-call
/// addresses agree, reconstruct identical expressions from the same region
/// and matcher state, whatever else (including the rest of their symbol
/// tables) may differ.
pub proof fn lemma_matching_deterministic(
    m1: MatchModel,
    m2: MatchModel,
    err: u64,
    rb: Option<u64>,
    pk: Option<u64>,
    pos: int,
    stop: Option<int>,
    stack: Seq<Expr>,
    acc: Seq<Expr>,
)
    requires
        m1.instrs == m2.instrs,
        m1.addr_map == m2.addr_map,
    ensures
        spec_region(m1, err, rb, pk, pos, stop, stack, acc) == spec_region(
            m2,
            err,
            rb,
            pk,
            pos,
            stop,
            stack,
            acc,
        ),
{
    assert(m1 =~= m2);
}

/// The conditional idiom reconstructs a conditional (the law behind the
/// compare/jump-equal scenario, at any position, any addresses, and any
/// matcher state): when the matcher stands at a compare-accumulator
/// followed by a jump-equal whose target region is a single load of the
/// false pattern, the fall-through region is a single load of the true
/// pattern ending in a jump to the join point, and the region is bounded
/// at the join point, the result is the conditional over the most recently
/// completed expression, folded with whatever else the region completed,
/// ending at the join point with the operand stack unchanged.
pub proof fn lemma_conditional_idiom(
    m: MatchModel,
    err: u64,
    rb: Option<u64>,
    pk: Option<u64>,
    q: int,
    stack: Seq<Expr>,
    acc: Seq<Expr>,
    l_addr: u64,
    e_addr: u64,
)
    requires
        acc.len() > 0,
        if_idiom_at(m.instrs, q) == Some(l_addr),
        m.addr_map.contains_key(l_addr),
        m.addr_map[l_addr] == q + 4,
        lit_load_at(m.instrs, q + 2) == Some(0b011000u64),
        m.instrs[q + 3] == Instruction::Jmp(Arg::Address(e_addr)),
        m.addr_map.contains_key(e_addr),
        m.addr_map[e_addr] == q + 5,
        lit_load_at(m.instrs, q + 4) == Some(0b111000u64),
    ensures
        (spec_region(m, err, rb, pk, q, Some(q + 5), stack, acc) matches Ok(s) && s.0
            == fold_region(
            acc.drop_last().push(
                Expr::If(
                    Box::new(acc.last()),
                    Box::new(Expr::Literal(Datum::Boolean(true))),
                    Box::new(Expr::Literal(Datum::Boolean(false))),
                ),
            ),
        ) && s.1 == q + 5 && s.2 == stack),
        acc.len() == 1 ==> (spec_region(m, err, rb, pk, q, Some(q + 5), stack, acc) matches Ok(s)
            && s.0 == Expr::If(
            Box::new(acc.last()),
            Box::new(Expr::Literal(Datum::Boolean(true))),
            Box::new(Expr::Literal(Datum::Boolean(false))),
        ) && s.1 == q + 5 && s.2 == stack),
{
    let tru = Expr::Literal(Datum::Boolean(true));
    let fls = Expr::Literal(Datum::Boolean(false));
    let folded = Expr::If(Box::new(acc.last()), Box::new(tru), Box::new(fls));
    let acc2 = acc.drop_last().push(folded);
    assert(spec_parse_const(0b011000) == Some(tru));
    assert(spec_parse_const(0b111000) == Some(fls));
    // The idiom at the compare shadows no earlier idiom.
    assert(lit_load_at(m.instrs, q) is None);
    assert(call_idiom_at(m.instrs, q) is None);
    assert(typecheck_at(m.instrs, q, Register::Rax) is None);
    assert(!push_acc_at(m.instrs, q));
    assert(binary_idiom_at(m.instrs, q) is None);
    // The true arm: one literal load, bounded by the trailing jump.
    assert(fold_region(Seq::empty().push(tru)) == tru);
    assert(spec_region(m, err, rb, pk, q + 3, Some(q + 3), stack, Seq::empty().push(tru))
        matches Ok(t0) && t0.0 == tru && t0.1 == q + 3 && t0.2 == stack);
    assert(spec_region(m, err, rb, pk, q + 2, Some(q + 3), stack, Seq::empty()) matches Ok(t1)
        && t1.0 == tru && t1.1 == q + 3 && t1.2 == stack);
    // The false arm: one literal load, bounded by the join point.
    assert(fold_region(Seq::empty().push(fls)) == fls);
    assert(spec_region(m, err, rb, pk, q + 5, Some(q + 5), stack, Seq::empty().push(fls))
        matches Ok(e0) && e0.0 == fls && e0.1 == q + 5 && e0.2 == stack);
    assert(spec_region(m, err, rb, pk, q + 4, Some(q + 5), stack, Seq::empty()) matches Ok(e1)
        && e1.0 == fls && e1.1 == q + 5 && e1.2 == stack);
    // The continuation stands at the bound and folds the region.
    assert(spec_region(m, err, rb, pk, q + 5, Some(q + 5), stack, acc2) matches Ok(c0) && c0.0
        == fold_region(acc2) && c0.1 == q + 5 && c0.2 == stack);
    assert(spec_region_if(m, err, rb, pk, q, Some(q + 5), stack, acc, l_addr) matches Ok(s) && s.0
        == fold_region(acc2) && s.1 == q + 5 && s.2 == stack);
    assert(spec_region(m, err, rb, pk, q, Some(q + 5), stack, acc) == spec_region_if(
        m,
        err,
        rb,
        pk,
        q,
        Some(q + 5),
        stack,
        acc,
        l_addr,
    ));
    if acc.len() == 1 {
        assert(acc2.len() == 1);
        assert(fold_region(acc2) == acc2[0]);
    }
}

/// Reconstructs a whole program: checks the fixed prologue, takes the
/// (empty) definitions, resolves the error trap, and reconstructs the
/// top-level expression region.
pub fn parse(program: &A86Program) -> (r: Result<LootProgram, Error>)
    ensures
        (r matches Ok(lp) ==> (spec_parse(program@) matches Ok(t) && lp.defines@ == t.0 && lp.expr
            == t.1)),
        (r matches Err(e) ==> (spec_parse(program@) matches Err(e2) && e2 == e)),
{
    let insns = program.instructions();
    let prologue_ok = insns.len() >= 3 && insns[0] == Instruction::Push(
        Arg::Register(Register::Rbx),
    ) && insns[1] == Instruction::Push(Arg::Register(Register::R15)) && insns[2]
        == Instruction::Mov(Arg::Register(Register::Rbx), Arg::Register(Register::Rdi));
    if !prologue_ok {
        return Err(Error::BadPrologue);
    }
    let (defines, expr_start) = parse_defines(program, 3);
    let err_addr = match program.symbol_to_address("err") {
        Some(a) => a,
        None => {
            return Err(Error::MissingErrSymbol);
        },
    };
    let err_idx = match program.address_to_index(err_addr) {
        Some(i) => i,
        None => {
            return Err(Error::ErrSymbolUnmapped);
        },
    };
    if err_idx < 4 {
        return Err(Error::MalformedEpilogue);
    }
    let end = err_idx - 4;
    let mut stack: Vec<Expr> = Vec::new();
    match parse_expr(program, expr_start, Some(end), &mut stack) {
        Ok((e, _)) => Ok(LootProgram { defines, expr: Box::new(e) }),
        Err(e) => Err(e),
    }
}


/// What encodes a source integer as a tagged machine word.
pub open spec fn spec_encode_integer(i: i64) -> u64 {
    (i as u64) << 4
}

/// Integer decoding: every word whose low tag nibble is clear decodes to
/// its upper bits read as a signed integer, and re-encoding that integer
/// gives the word back.
pub proof fn lemma_integer_round_trip(w: u64)
    requires
        w & 0xf == 0,
    ensures
        spec_parse_const(w) == Some(Expr::Literal(Datum::Integer((w as i64) >> 4))),
        spec_encode_integer((w as i64) >> 4) == w,
{
    assert(w != 0b011000 && w != 0b111000 && w != 0b1111000 && w & 0b11111 != 0b01000)
        by (bit_vector)
        requires
            w & 0xf == 0,
    ;
    assert(((((w as i64) >> 4) as u64) << 4) == w) by (bit_vector)
        requires
            w & 0xf == 0,
    ;
}

/// The boolean patterns decode to the booleans, and collide with neither
/// the integer mask nor the character mask.
pub proof fn lemma_boolean_patterns()
    ensures
        spec_parse_const(0b011000) == Some(Expr::Literal(Datum::Boolean(true))),
        spec_parse_const(0b111000) == Some(Expr::Literal(Datum::Boolean(false))),
        0b011000u64 & 0xf != 0 && 0b011000u64 & 0b11111 != 0b01000,
        0b111000u64 & 0xf != 0 && 0b111000u64 & 0b11111 != 0b01000,
{
    assert(0b011000u64 & 0xf != 0 && 0b011000u64 & 0b11111 != 0b01000) by (bit_vector);
    assert(0b111000u64 & 0xf != 0 && 0b111000u64 & 0b11111 != 0b01000) by (bit_vector);
}

/// Character decoding: every word carrying the character tag decodes to the
/// character in its upper bits exactly when those bits are a valid Unicode
/// scalar value, and decodes to nothing otherwise.
pub proof fn lemma_character_decoding(w: u64)
    requires
        w & 0b11111 == 0b01000,
    ensures
        valid_scalar(w >> 5) ==> spec_parse_const(w) == Some(
            Expr::Literal(Datum::Character((w >> 5) as char)),
        ),
        !valid_scalar(w >> 5) ==> spec_parse_const(w) is None,
{
    assert(w != 0b011000 && w != 0b111000 && w != 0b1111000) by (bit_vector)
        requires
            w & 0b11111 == 0b01000,
    ;
}

} // verus!
