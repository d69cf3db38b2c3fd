use vstd::prelude::*;

verus! {

/// Bit of a [`Status`]: an event waits to be fetched.
pub const EVENT_PENDING: u32 = 1;

/// Bit of a [`Status`]: the address was suppressed.
pub const IP_SUPPRESSED: u32 = 2;

/// Bit of a [`Status`]: the end of the trace is reached.
pub const EOS: u32 = 4;

/// Conditions that a decoder reports beside a successful result: a mask of
/// the bits [`EVENT_PENDING`], [`IP_SUPPRESSED`] and [`EOS`].
#[derive(Clone, Copy, Debug, PartialEq, Eq, Structural)]
pub struct Status {
    pub bits: u32,
}

impl Status {
    /// The status that says whether an event is pending and whether the end
    /// is reached, and nothing else.
    pub open spec fn of(pending: bool, eos: bool) -> Status {
        Status { bits: if pending { if eos { 5u32 } else { 1u32 } } else { if eos { 4u32 } else { 0u32 } } }
    }

    /// Whether the mask `bits` holds the bit [`EVENT_PENDING`].
    pub open spec fn has_pending(bits: u32) -> bool {
        bits & EVENT_PENDING == EVENT_PENDING
    }

    /// Whether the mask `bits` holds the bit [`IP_SUPPRESSED`].
    pub open spec fn has_suppressed(bits: u32) -> bool {
        bits & IP_SUPPRESSED == IP_SUPPRESSED
    }

    /// Whether the mask `bits` holds the bit [`EOS`].
    pub open spec fn has_eos(bits: u32) -> bool {
        bits & EOS == EOS
    }

    /// Whether the mask `bits` holds no bit but the three that are defined.
    pub open spec fn known(bits: u32) -> bool {
        bits & !(EVENT_PENDING | IP_SUPPRESSED | EOS) == 0
    }

    /// `of` sets the two bits as told and no other.
    pub broadcast proof fn of_bits(pending: bool, eos: bool)
        ensures
            Self::has_pending(#[trigger] Self::of(pending, eos).bits) == pending,
            Self::has_eos(Self::of(pending, eos).bits) == eos,
            !Self::has_suppressed(Self::of(pending, eos).bits),
            Self::known(Self::of(pending, eos).bits),
    {
        assert(5u32 & 1u32 == 1u32 && 5u32 & 4u32 == 4u32 && 5u32 & 2u32 == 0u32 && 5u32 & !(1u32 | 2u32
            | 4u32) == 0u32) by (bit_vector);
        assert(1u32 & 1u32 == 1u32 && 1u32 & 4u32 == 0u32 && 1u32 & 2u32 == 0u32 && 1u32 & !(1u32 | 2u32
            | 4u32) == 0u32) by (bit_vector);
        assert(4u32 & 1u32 == 0u32 && 4u32 & 4u32 == 4u32 && 4u32 & 2u32 == 0u32 && 4u32 & !(1u32 | 2u32
            | 4u32) == 0u32) by (bit_vector);
        assert(0u32 & 1u32 == 0u32 && 0u32 & 4u32 == 0u32 && 0u32 & 2u32 == 0u32 && 0u32 & !(1u32 | 2u32
            | 4u32) == 0u32) by (bit_vector);
    }

    /// Builds the status that says whether an event is pending and whether
    /// the end is reached.
    pub fn new(pending: bool, eos: bool) -> (s: Status)
        ensures
            s == Self::of(pending, eos),
    {
        if pending {
            if eos { Status { bits: 5 } } else { Status { bits: 1 } }
        } else {
            if eos { Status { bits: 4 } } else { Status { bits: 0 } }
        }
    }

    /// Reads a mask; one that holds an undefined bit is no status.
    pub fn from_bits(bits: u32) -> (r: Option<Status>)
        ensures
            r == (if Self::known(bits) {
                Some(Status { bits })
            } else {
                None
            }),
    {
        if bits & !(EVENT_PENDING | IP_SUPPRESSED | EOS) != 0 {
            None
        } else {
            Some(Status { bits })
        }
    }

    /// The mask as a number.
    pub fn bits(&self) -> (b: u32)
        ensures
            b == self.bits,
    {
        self.bits
    }

    /// Whether an event waits to be fetched.
    pub fn event_pending(&self) -> (b: bool)
        ensures
            b == Self::has_pending(self.bits),
    {
        self.bits & EVENT_PENDING == EVENT_PENDING
    }

    /// Whether the address was suppressed.
    pub fn ip_suppressed(&self) -> (b: bool)
        ensures
            b == Self::has_suppressed(self.bits),
    {
        self.bits & IP_SUPPRESSED == IP_SUPPRESSED
    }

    /// Whether the end of the trace is reached.
    pub fn eos(&self) -> (b: bool)
        ensures
            b == Self::has_eos(self.bits),
    {
        self.bits & EOS == EOS
    }
}

} // verus!
