use vstd::arithmetic::power2::{
    lemma2_to64, lemma2_to64_rest, lemma_pow2_pos, lemma_pow2_strictly_increases, lemma_pow2_unfold,
    pow2,
};
use vstd::prelude::*;
use crate::packet::Packet;

verus! {

/// `x`, or the largest `u64` where `x` is beyond it.
pub open spec fn capped64(x: int) -> u64 {
    if x > u64::MAX {
        u64::MAX
    } else {
        x as u64
    }
}

/// `x`, or the largest `u32` where `x` is beyond it.
pub open spec fn capped32(x: int) -> u32 {
    if x > u32::MAX {
        u32::MAX
    } else {
        x as u32
    }
}

/// The period of the slow timer in units of time: two to the power `freq`.
pub open spec fn mtc_period(freq: u8) -> int {
    pow2(freq as nat) as int
}

/// A period is at least 1, and from the exponent 64 on it is beyond what a
/// `u64` holds.
pub proof fn lemma_period_bounds(freq: u8)
    ensures
        mtc_period(freq) >= 1,
        freq >= 64 ==> mtc_period(freq) > u64::MAX,
        freq < 64 ==> mtc_period(freq) <= 0x8000_0000_0000_0000,
{
    lemma_pow2_pos(freq as nat);
    lemma2_to64();
    lemma2_to64_rest();
    if freq > 64 {
        lemma_pow2_strictly_increases(64, freq as nat);
    }
    if freq < 63 {
        lemma_pow2_strictly_increases(freq as nat, 63);
    }
}

/// Computes [`mtc_period`], as far as a `u64` holds it.
pub fn period_of(freq: u8) -> (p: u64)
    ensures
        p == capped64(mtc_period(freq)),
{
    proof {
        lemma_period_bounds(freq);
    }
    if freq >= 64 {
        return u64::MAX;
    }
    let mut p: u64 = 1;
    let mut i: u8 = 0;
    proof {
        lemma2_to64();
    }
    while i < freq
        invariant
            i <= freq < 64,
            p == mtc_period(i),
        decreases freq - i,
    {
        proof {
            lemma_period_bounds(i);
            lemma_period_bounds((i + 1) as u8);
            lemma_pow2_unfold((i + 1) as nat);
            if i < 62 {
                lemma_pow2_strictly_increases(i as nat, 62);
            }
            lemma2_to64_rest();
        }
        p = p * 2;
        i = i + 1;
    }
    p
}

/// The time that a decoder has gathered since it was synchronized, and what
/// it needs to read timing packets.
#[derive(Clone, Copy, Debug, PartialEq, Eq, Structural)]
pub struct Clock {
    /// The time. While `have_tsc` is false it counts from the last
    /// synchronization.
    pub time: u64,
    /// Whether a timestamp was seen.
    pub have_tsc: bool,
    /// How many ticks of the slow timer could not be applied.
    pub lost_mtc: u32,
    /// How many cycle counts could not be applied.
    pub lost_cyc: u32,
    /// The core:bus ratio, once it was seen.
    pub cbr: Option<u32>,
}

impl Clock {
    /// The clock of a decoder that was just synchronized.
    pub open spec fn start() -> Clock {
        Clock { time: 0, have_tsc: false, lost_mtc: 0, lost_cyc: 0, cbr: None }
    }

    /// Whether the clock is as it was at the start, but for the core:bus
    /// ratio: no time has passed, no timestamp was seen, nothing was lost.
    pub open spec fn untimed(self) -> bool {
        self.time == 0 && !self.have_tsc && self.lost_mtc == 0 && self.lost_cyc == 0
    }

    /// The clock after a timestamp. A timestamp that lies before the time
    /// reached leaves the time as it is: time does not run backwards.
    pub open spec fn after_tsc(self, tsc: u64) -> Clock {
        Clock { have_tsc: true, time: if tsc >= self.time { tsc } else { self.time }, ..self }
    }

    /// The clock after a tick of the slow timer: `ticks` periods later, and
    /// no later than a `u64` can tell. Without a timestamp to start from the
    /// tick is lost and counted.
    pub open spec fn after_mtc(self, ticks: u8, mtc_freq: u8) -> Clock {
        if self.have_tsc {
            Clock { time: capped64(self.time + ticks * mtc_period(mtc_freq)), ..self }
        } else {
            Clock { lost_mtc: capped32(self.lost_mtc + 1), ..self }
        }
    }

    /// Whether cycle counts can be turned into time: the nominal frequency
    /// and the core:bus ratio are known and not 0.
    pub open spec fn calibrated(self, nom_freq: u8) -> bool {
        nom_freq > 0 && self.cbr.is_some() && self.cbr.unwrap() > 0
    }

    /// The clock after a cycle count. `cycles` core cycles at the ratio `cbr`
    /// are `cycles * nom_freq / cbr` units of time, rounded down. Without
    /// calibration the count is lost and counted.
    pub open spec fn after_cyc(self, cycles: u64, nom_freq: u8) -> Clock {
        if self.calibrated(nom_freq) {
            Clock {
                time: capped64(self.time + (cycles * nom_freq) / (self.cbr.unwrap() as int)),
                ..self
            }
        } else {
            Clock { lost_cyc: capped32(self.lost_cyc + 1), ..self }
        }
    }

    /// The clock after the core:bus ratio was reported.
    pub open spec fn after_cbr(self, ratio: u32) -> Clock {
        Clock { cbr: Some(ratio), ..self }
    }

    /// The clock after `packet` went by: a timing packet moves it, any other
    /// leaves it.
    pub open spec fn after(self, packet: Packet, mtc_freq: u8, nom_freq: u8) -> Clock {
        match packet {
            Packet::Tsc { tsc } => self.after_tsc(tsc),
            Packet::Mtc { ticks } => self.after_mtc(ticks, mtc_freq),
            Packet::Cyc { cycles } => self.after_cyc(cycles, nom_freq),
            _ => self,
        }
    }

    /// Time does not run backwards and no loss is forgotten, whatever packet
    /// goes by.
    pub proof fn lemma_after_monotone(self, packet: Packet, mtc_freq: u8, nom_freq: u8)
        ensures
            self.after(packet, mtc_freq, nom_freq).time >= self.time,
            self.after(packet, mtc_freq, nom_freq).lost_mtc >= self.lost_mtc,
            self.after(packet, mtc_freq, nom_freq).lost_cyc >= self.lost_cyc,
            self.have_tsc ==> self.after(packet, mtc_freq, nom_freq).have_tsc,
            self.after(packet, mtc_freq, nom_freq).cbr == self.cbr,
    {
        match packet {
            Packet::Mtc { ticks } => {
                lemma_period_bounds(mtc_freq);
                assert(ticks * mtc_period(mtc_freq) >= 0) by (nonlinear_arith)
                    requires
                        ticks >= 0,
                        mtc_period(mtc_freq) >= 1,
                ;
            },
            Packet::Cyc { cycles } => {
                if self.calibrated(nom_freq) {
                    let r = self.cbr.unwrap() as int;
                    assert((cycles * nom_freq) / r >= 0) by (nonlinear_arith)
                        requires
                            cycles >= 0,
                            nom_freq >= 0,
                            r > 0,
                    ;
                }
            },
            _ => {},
        }
    }

    /// The clock of a decoder that was just synchronized.
    pub fn new() -> (c: Clock)
        ensures
            c == Clock::start(),
    {
        Clock { time: 0, have_tsc: false, lost_mtc: 0, lost_cyc: 0, cbr: None }
    }

    /// Lets a timestamp go by.
    pub fn tsc(self, tsc: u64) -> (c: Clock)
        ensures
            c == self.after_tsc(tsc),
    {
        let time: u64 = if tsc >= self.time { tsc } else { self.time };
        Clock { have_tsc: true, time, ..self }
    }

    /// Lets a tick of the slow timer go by.
    pub fn mtc(self, ticks: u8, mtc_freq: u8) -> (c: Clock)
        ensures
            c == self.after_mtc(ticks, mtc_freq),
    {
        if self.have_tsc {
            let period: u64 = period_of(mtc_freq);
            assert(ticks * period <= 255 * 0xffff_ffff_ffff_ffff) by (nonlinear_arith)
                requires
                    0 <= ticks <= 255,
                    0 <= period <= 0xffff_ffff_ffff_ffff,
            ;
            let delta: u128 = ticks as u128 * period as u128;
            let room: u64 = u64::MAX - self.time;
            let time: u64 = if delta > room as u128 {
                u64::MAX
            } else {
                self.time + delta as u64
            };
            proof {
                lemma_period_bounds(mtc_freq);
                let full = mtc_period(mtc_freq);
                if full > u64::MAX && ticks >= 1 {
                    assert(ticks * full >= full) by (nonlinear_arith)
                        requires
                            ticks >= 1,
                            full >= 0,
                    ;
                    assert(ticks * period >= period) by (nonlinear_arith)
                        requires
                            ticks >= 1,
                            period >= 0,
                    ;
                }
                if ticks == 0 {
                    assert(ticks * full == 0) by (nonlinear_arith)
                        requires
                            ticks == 0,
                    ;
                    assert(ticks * period == 0) by (nonlinear_arith)
                        requires
                            ticks == 0,
                    ;
                }
            }
            Clock { time, ..self }
        } else {
            Clock { lost_mtc: self.lost_mtc.saturating_add(1), ..self }
        }
    }

    /// Lets a cycle count go by.
    pub fn cyc(self, cycles: u64, nom_freq: u8) -> (c: Clock)
        ensures
            c == self.after_cyc(cycles, nom_freq),
    {
        match self.cbr {
            Some(ratio) => {
                if nom_freq > 0 && ratio > 0 {
                    assert(cycles * nom_freq <= 0xffff_ffff_ffff_ffff * 255) by (nonlinear_arith)
                        requires
                            0 <= cycles <= 0xffff_ffff_ffff_ffff,
                            0 <= nom_freq <= 255,
                    ;
                    let product: u128 = cycles as u128 * nom_freq as u128;
                    let delta: u128 = product / ratio as u128;
                    let room: u64 = u64::MAX - self.time;
                    let time: u64 = if delta > room as u128 {
                        u64::MAX
                    } else {
                        self.time + delta as u64
                    };
                    return Clock { time, ..self };
                }
            },
            None => {},
        }
        Clock { lost_cyc: self.lost_cyc.saturating_add(1), ..self }
    }

    /// Records the core:bus ratio.
    pub fn set_cbr(self, ratio: u32) -> (c: Clock)
        ensures
            c == self.after_cbr(ratio),
    {
        Clock { cbr: Some(ratio), ..self }
    }

    /// Lets `packet` go by.
    pub fn pass(self, packet: Packet, mtc_freq: u8, nom_freq: u8) -> (c: Clock)
        ensures
            c == self.after(packet, mtc_freq, nom_freq),
    {
        match packet {
            Packet::Tsc { tsc } => self.tsc(tsc),
            Packet::Mtc { ticks } => self.mtc(ticks, mtc_freq),
            Packet::Cyc { cycles } => self.cyc(cycles, nom_freq),
            _ => self,
        }
    }
}

} // verus!
