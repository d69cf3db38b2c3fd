use vstd::prelude::*;
use crate::asid::Asid;
use crate::event::ExecMode;

pub mod decoder;

verus! {

/// A run of instructions that were executed one after the other, with no
/// decision of the trace between them. They need not lie one behind the other
/// in memory: a block runs through jumps.
#[derive(Clone, Copy, Debug, PartialEq, Eq, Structural)]
pub struct Block {
    /// The address of the first instruction.
    pub ip: u64,
    /// The address of the last instruction.
    pub end_ip: u64,
    /// The number of instructions.
    pub ninsn: u16,
    /// The execution mode that the instructions ran in.
    pub mode: ExecMode,
    /// Whether the instructions ran inside a transaction.
    pub speculative: bool,
    /// Whether the image holds only a part of the last instruction.
    pub truncated: bool,
    /// The address space that the instructions ran in.
    pub asid: Asid,
}

} // verus!
