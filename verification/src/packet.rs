use vstd::prelude::*;
use crate::asid::Asid;
use crate::event::{Event, ExecMode};

verus! {

/// The most decisions that one packet of conditional branches may hold.
pub const TNT_MAX: u8 = 64;

/// One unit of the trace, as the packet layer hands it over.
#[derive(Clone, Copy, Debug, PartialEq, Eq, Structural)]
pub enum Packet {
    /// A synchronization marker: decoding may start here, at `ip`, in `mode`
    /// and in the address space `asid`.
    Sync { ip: u64, mode: ExecMode, asid: Asid },
    /// The outcomes of `count` conditional branches, the first of them in
    /// bit `count - 1` of `bits`, the last in bit 0; a set bit means taken.
    Tnt { bits: u64, count: u8 },
    /// The target of an indirect branch.
    Tip { ip: u64 },
    /// A side-channel event.
    Event { event: Event },
    /// A timestamp.
    Tsc { tsc: u64 },
    /// A tick of the slow timer, `ticks` periods after the one before.
    Mtc { ticks: u8 },
    /// Core cycles that passed.
    Cyc { cycles: u64 },
    /// Filling.
    Pad,
}

/// Why the packet layer could not read a packet.
#[derive(Clone, Copy, Debug, PartialEq, Eq, Structural)]
pub enum Fault {
    /// The opcode is unknown.
    BadOpc,
    /// The opcode is known and its payload cannot be.
    BadPacket,
}

/// What the packet layer found at one place of the trace.
#[derive(Clone, Copy, Debug, PartialEq, Eq, Structural)]
pub enum Content {
    Packet { packet: Packet },
    Fault { fault: Fault },
}

/// A place of the trace: where it begins, how many bytes it takes, and what
/// the packet layer found there.
#[derive(Clone, Copy, Debug, PartialEq, Eq, Structural)]
pub struct Slot {
    pub offset: u64,
    pub size: u8,
    pub content: Content,
}

/// How the engine treats a slot.
#[derive(Clone, Copy, Debug, PartialEq, Eq, Structural)]
pub enum Class {
    /// A synchronization marker.
    Marker,
    /// Conditional-branch outcomes: execution flow.
    Branches,
    /// An indirect-branch target: execution flow.
    Target,
    /// A side-channel event.
    Side,
    /// Time and calibration.
    Timing,
    /// Nothing to decode.
    Filler,
    /// What the packet layer rejected.
    Broken,
}

impl Slot {
    /// The class of the slot.
    pub open spec fn class(self) -> Class {
        match self.content {
            Content::Fault { .. } => Class::Broken,
            Content::Packet { packet } => match packet {
                Packet::Sync { .. } => Class::Marker,
                Packet::Tnt { .. } => Class::Branches,
                Packet::Tip { .. } => Class::Target,
                Packet::Event { .. } => Class::Side,
                Packet::Tsc { .. } => Class::Timing,
                Packet::Mtc { .. } => Class::Timing,
                Packet::Cyc { .. } => Class::Timing,
                Packet::Pad => Class::Filler,
            },
        }
    }

    /// Whether a synchronization marker begins here.
    pub open spec fn is_marker(self) -> bool {
        self.class() == Class::Marker
    }

    /// Whether the packet layer rejected what is here.
    pub open spec fn is_broken(self) -> bool {
        self.class() == Class::Broken
    }

    /// Computes [`Slot::class`].
    pub fn classify(&self) -> (c: Class)
        ensures
            c == self.class(),
    {
        match self.content {
            Content::Fault { .. } => Class::Broken,
            Content::Packet { packet } => match packet {
                Packet::Sync { .. } => Class::Marker,
                Packet::Tnt { .. } => Class::Branches,
                Packet::Tip { .. } => Class::Target,
                Packet::Event { .. } => Class::Side,
                Packet::Tsc { .. } => Class::Timing,
                Packet::Mtc { .. } => Class::Timing,
                Packet::Cyc { .. } => Class::Timing,
                Packet::Pad => Class::Filler,
            },
        }
    }
}

} // verus!
