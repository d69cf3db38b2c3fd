use vstd::prelude::*;

verus! {

/// The instruction set that the traced code runs in.
#[derive(Clone, Copy, Debug, PartialEq, Eq, Structural)]
pub enum ExecMode {
    /// Not known.
    Unknown,
    Bit16,
    Bit32,
    Bit64,
}

/// What a side-channel event reports.
#[derive(Clone, Copy, Debug, PartialEq, Eq, Structural)]
pub enum EventKind {
    /// The execution mode changed.
    ExecMode { mode: ExecMode },
    /// Control went to `to` as the instruction at hand asked for.
    SyncBranch { to: u64 },
    /// Control went to `to` without an instruction asking for it.
    AsyncBranch { to: u64 },
    /// The page tables changed.
    Paging { cr3: u64 },
    /// Another virtual-machine control structure became current.
    Vmcs { base: u64 },
    /// The trace hardware lost packets.
    Overflow,
    /// Tracing stopped.
    Stop,
    /// An external request stopped execution.
    Exstop,
    /// The traced code wrote a value into the trace.
    Ptwrite { payload: u64 },
    /// The core waits.
    Mwait { hints: u32, ext: u32 },
    /// The core entered a power state.
    Pwre { state: u8, sub_state: u8 },
    /// The core left a power state.
    Pwrx { last: u8, deepest: u8 },
    /// The core:bus ratio changed.
    Cbr { ratio: u32 },
    /// The state of the running transaction changed.
    Tsx { speculative: bool, aborted: bool },
    /// Execution stalled.
    Stall,
}

/// A fact of the trace that is no branch decision.
#[derive(Clone, Copy, Debug, PartialEq, Eq, Structural)]
pub struct Event {
    /// What happened.
    pub kind: EventKind,
    /// The instruction that the event belongs to, where it has one.
    pub ip: Option<u64>,
    /// Whether the event applies after that instruction rather than before.
    pub after: bool,
}

} // verus!
