use vstd::prelude::*;

verus! {

/// Why an operation of a decoder did not deliver. The kinds are those of the
/// native trace library, which numbers them from 1 on in the order in which
/// they stand here; this library itself gives `Nosync`, `BadOpc`,
/// `BadPacket`, `BadContext`, `Eos`, `BadQuery`, `Nomap`, `NoTime`, `NoCbr`
/// and `Invalid`.
#[derive(Clone, Copy, Debug, PartialEq, Eq, Structural)]
pub enum PtError {
    /// The decoder library found itself in a state that cannot be.
    Internal,
    /// An argument is not acceptable.
    Invalid,
    /// The operation needs a synchronized decoder, or a marker where none is.
    Nosync,
    /// The trace holds an opcode that the packet layer does not know.
    BadOpc,
    /// The trace holds a known opcode with a payload that cannot be.
    BadPacket,
    /// A sound packet stands where the decode phase cannot take it.
    BadContext,
    /// The end of the trace is reached.
    Eos,
    /// The caller asked for something other than what comes next.
    BadQuery,
    /// Memory ran out.
    Nomem,
    /// The configuration is not acceptable.
    BadConfig,
    /// There is no address.
    Noip,
    /// The address was suppressed.
    IpSuppressed,
    /// The image maps nothing at the address that is needed.
    Nomap,
    /// An instruction could not be decoded.
    BadInsn,
    /// No timestamp was seen since the last synchronization; the values are
    /// the time relative to that synchronization and the two loss counters.
    NoTime { time: u64, lost_mtc: u32, lost_cyc: u32 },
    /// No core:bus ratio was seen since the last synchronization.
    NoCbr,
    /// The image is not acceptable.
    BadImage,
    /// A lock failed.
    BadLock,
    /// The operation is not supported.
    NotSupported,
    /// The stack of return addresses is empty.
    RetstackEmpty,
    /// A compressed return is not acceptable.
    BadRetcomp,
    /// A status update is not acceptable.
    BadStatusUpdate,
    /// Tracing was not enabled where it had to be.
    NoEnable,
    /// An event was ignored.
    EventIgnored,
    /// Something overflowed.
    Overflow,
    /// A file could not be handled.
    BadFile,
    /// The processor is not known.
    BadCpu,
    /// A number that stands for no kind of error.
    Unknown { code: i32 },
}

impl PtError {
    /// The number that the native trace library gives the kind of error; for
    /// `Unknown` the number that it was made from, with the sign turned.
    pub open spec fn number(self) -> int {
        match self {
            PtError::Internal => 1,
            PtError::Invalid => 2,
            PtError::Nosync => 3,
            PtError::BadOpc => 4,
            PtError::BadPacket => 5,
            PtError::BadContext => 6,
            PtError::Eos => 7,
            PtError::BadQuery => 8,
            PtError::Nomem => 9,
            PtError::BadConfig => 10,
            PtError::Noip => 11,
            PtError::IpSuppressed => 12,
            PtError::Nomap => 13,
            PtError::BadInsn => 14,
            PtError::NoTime { .. } => 15,
            PtError::NoCbr => 16,
            PtError::BadImage => 17,
            PtError::BadLock => 18,
            PtError::NotSupported => 19,
            PtError::RetstackEmpty => 20,
            PtError::BadRetcomp => 21,
            PtError::BadStatusUpdate => 22,
            PtError::NoEnable => 23,
            PtError::EventIgnored => 24,
            PtError::Overflow => 25,
            PtError::BadFile => 26,
            PtError::BadCpu => 27,
            PtError::Unknown { code } => -code,
        }
    }

    /// Whether the error says no more than its kind: every error but
    /// `NoTime` with values other than 0, and `Unknown`.
    pub open spec fn plain(self) -> bool {
        match self {
            PtError::NoTime { time, lost_mtc, lost_cyc } => time == 0 && lost_mtc == 0 && lost_cyc == 0,
            PtError::Unknown { .. } => false,
            _ => true,
        }
    }

    /// The error that a negative result of the native trace library stands
    /// for: the plain error of the kind whose number is `-code`, and
    /// `Unknown` where there is no such kind.
    pub open spec fn of_code(code: i32) -> PtError {
        if -27 <= code <= -1 {
            choose|e: PtError| e.plain() && e.number() == -code
        } else {
            PtError::Unknown { code }
        }
    }

    /// A plain error is the only plain error with its number.
    pub proof fn lemma_number_tells(self, other: PtError)
        requires
            self.plain(),
            other.plain(),
            self.number() == other.number(),
        ensures
            self == other,
    {
    }

    /// A plain error is the error of its number with the sign turned.
    pub proof fn lemma_of_code(self)
        requires
            self.plain(),
        ensures
            1 <= self.number() <= 27,
            Self::of_code((-self.number()) as i32) == self,
    {
        let code = (-self.number()) as i32;
        let found = choose|e: PtError| e.plain() && e.number() == -code;
        self.lemma_number_tells(found);
    }

    /// A decode error: one after which the decoder has lost its place in the
    /// trace and must be synchronized anew.
    pub open spec fn is_decode_error(self) -> bool {
        self == PtError::BadOpc || self == PtError::BadPacket || self == PtError::BadContext
    }

    /// Tells whether the decoder must be synchronized anew after this error.
    pub fn needs_resync(&self) -> (r: bool)
        ensures
            r == self.is_decode_error(),
    {
        match self {
            PtError::BadOpc => true,
            PtError::BadPacket => true,
            PtError::BadContext => true,
            _ => false,
        }
    }

    /// The negative number that the native trace library reports the error
    /// with.
    pub fn code(&self) -> (c: i32)
        ensures
            !(self is Unknown) ==> c == -self.number(),
            self matches PtError::Unknown { code } ==> c == code,
    {
        match self {
            PtError::Internal => -1,
            PtError::Invalid => -2,
            PtError::Nosync => -3,
            PtError::BadOpc => -4,
            PtError::BadPacket => -5,
            PtError::BadContext => -6,
            PtError::Eos => -7,
            PtError::BadQuery => -8,
            PtError::Nomem => -9,
            PtError::BadConfig => -10,
            PtError::Noip => -11,
            PtError::IpSuppressed => -12,
            PtError::Nomap => -13,
            PtError::BadInsn => -14,
            PtError::NoTime { .. } => -15,
            PtError::NoCbr => -16,
            PtError::BadImage => -17,
            PtError::BadLock => -18,
            PtError::NotSupported => -19,
            PtError::RetstackEmpty => -20,
            PtError::BadRetcomp => -21,
            PtError::BadStatusUpdate => -22,
            PtError::NoEnable => -23,
            PtError::EventIgnored => -24,
            PtError::Overflow => -25,
            PtError::BadFile => -26,
            PtError::BadCpu => -27,
            PtError::Unknown { code } => *code,
        }
    }

    /// Reads the error that a negative result of the native trace library
    /// stands for.
    pub fn from_code(code: i32) -> (e: PtError)
        ensures
            e == Self::of_code(code),
    {
        let e = match code {
            -1 => PtError::Internal,
            -2 => PtError::Invalid,
            -3 => PtError::Nosync,
            -4 => PtError::BadOpc,
            -5 => PtError::BadPacket,
            -6 => PtError::BadContext,
            -7 => PtError::Eos,
            -8 => PtError::BadQuery,
            -9 => PtError::Nomem,
            -10 => PtError::BadConfig,
            -11 => PtError::Noip,
            -12 => PtError::IpSuppressed,
            -13 => PtError::Nomap,
            -14 => PtError::BadInsn,
            -15 => PtError::NoTime { time: 0, lost_mtc: 0, lost_cyc: 0 },
            -16 => PtError::NoCbr,
            -17 => PtError::BadImage,
            -18 => PtError::BadLock,
            -19 => PtError::NotSupported,
            -20 => PtError::RetstackEmpty,
            -21 => PtError::BadRetcomp,
            -22 => PtError::BadStatusUpdate,
            -23 => PtError::NoEnable,
            -24 => PtError::EventIgnored,
            -25 => PtError::Overflow,
            -26 => PtError::BadFile,
            -27 => PtError::BadCpu,
            _ => PtError::Unknown { code },
        };
        proof {
            if -27 <= code <= -1 {
                e.lemma_of_code();
            }
        }
        e
    }
}

} // verus!
