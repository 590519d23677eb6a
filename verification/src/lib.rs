//! Reconstruction of a small Scheme-like program from the native code that its
//! compiler emits.
//!
//! The crate models the compiler's closed instruction subset (`a86`), indexes a
//! normalized instruction stream by address, decodes the runtime's tagged
//! immediate values, and matches the compiler's fixed instruction idioms back
//! into an abstract syntax tree (`loot`).

use vstd::prelude::*;

pub mod a86;
pub mod decompiler;
pub mod loot;
pub mod memmap;

verus! {

/// Everything that can go wrong while loading a program or reconstructing its
/// source. Unrecognized-but-well-formed instruction regions are not errors:
/// they surface as [`loot::Expr::Unknown`] instead.
#[derive(Debug, Clone, Copy, PartialEq, Eq, Structural)]
pub enum Error {
    /// A machine register outside the normalizer's closed set.
    UnsupportedRegister,
    /// A mnemonic/operand shape outside the normalizer's closed set.
    UnsupportedInstruction,
    /// The instruction at `index` failed normalization during loading.
    BadInstruction { index: usize },
    /// The instruction at `index` does not follow its predecessor in address order.
    NonIncreasingAddress { index: usize },
    /// The required "entry" symbol is absent from the symbol table.
    MissingEntrySymbol,
    /// The first instruction's address is not the "entry" symbol's address.
    EntryAddressMismatch,
    /// The required "err" symbol is absent from the symbol table.
    MissingErrSymbol,
    /// The "err" symbol's address is not the address of any instruction.
    ErrSymbolUnmapped,
    /// The program does not begin with the fixed three-instruction prologue.
    BadPrologue,
    /// The error trap stands too close to the start to leave room for the
    /// fixed epilogue before it.
    MalformedEpilogue,
    /// A type-check guard at `index` jumps somewhere other than the error trap.
    GuardTargetMismatch { index: usize },
    /// The runtime-support call at `index` targets no known support symbol.
    UnknownCallTarget { index: usize, target: u64 },
    /// A type-check guard at `index` is followed by an instruction that
    /// selects no known operation.
    UnsupportedOperation { index: usize },
    /// The idiom at `index` needed a completed operand expression and none
    /// was available.
    MissingOperand { index: usize },
    /// The branch at `index` targets an address that is no instruction's.
    BadBranchTarget { index: usize, target: u64 },
    /// The conditional at `index` has a malformed region shape.
    MalformedIf { index: usize },
}

} // verus!
