use vstd::pervasive::unreached;
use vstd::prelude::*;
use crate::asid::Asid;
use crate::config::{Config, Trace};
use crate::error::PtError;
use crate::event::{Event, EventKind, ExecMode};
use crate::flags::Status;
use crate::packet::{Class, Content, Fault, Packet, Slot, TNT_MAX};
use crate::timing::Clock;

verus! {

/// Where a decoder stands in its trace and what it knows of the traced
/// program there.
#[derive(Clone, Copy, Debug, PartialEq, Eq, Structural)]
pub struct State {
    /// Whether the decoder is synchronized.
    pub synced: bool,
    /// The slot just behind the one that the decoder took or stopped at
    /// last. A search backwards looks before that slot, and the search
    /// forwards of a decoder that is not synchronized starts here. 0 while
    /// no search has stopped anywhere.
    pub anchor: usize,
    /// The slot to decode next.
    pub pos: usize,
    /// How many decisions of the packet at `pos` are already taken.
    pub used: u8,
    /// The marker that the decoder was synchronized on.
    pub sync: usize,
    /// The address that execution has reached.
    pub ip: u64,
    /// The execution mode.
    pub mode: ExecMode,
    /// The address space that is running.
    pub asid: Asid,
    /// Whether a transaction is running whose effects may be undone.
    pub speculative: bool,
    /// The time.
    pub clock: Clock,
}

/// What comes next in the trace of a synchronized decoder.
#[derive(Clone, Copy, Debug, PartialEq, Eq, Structural)]
pub enum Next {
    /// Nothing: the trace is exhausted.
    End,
    /// A slot that the packet layer rejected.
    Broken { fault: Fault },
    /// A packet of conditional branches that holds none, or too many.
    Malformed,
    /// The outcome of a conditional branch.
    Branch { taken: bool },
    /// The target of an indirect branch.
    Target { ip: u64 },
    /// An event.
    Side { event: Event },
    /// A packet that a synchronized decoder never rests on.
    Passing,
}

/// The error that a rejected slot is reported with.
pub open spec fn fault_error(fault: Fault) -> PtError {
    match fault {
        Fault::BadOpc => PtError::BadOpc,
        Fault::BadPacket => PtError::BadPacket,
    }
}

/// Whether a decoder goes past the slot without being asked: timing packets,
/// filling, and markers that it meets on its way.
pub open spec fn passes(s: Slot) -> bool {
    s.class() == Class::Timing || s.class() == Class::Filler || s.class() == Class::Marker
}

/// Whether a search for a marker stops at the slot: at a marker, and at what
/// the packet layer rejected.
pub open spec fn halts(s: Slot) -> bool {
    s.is_marker() || s.is_broken()
}

/// The packet in the slot; filling where there is none.
pub open spec fn packet_of(s: Slot) -> Packet {
    match s.content {
        Content::Packet { packet } => packet,
        Content::Fault { .. } => Packet::Pad,
    }
}

/// The first slot from `pos` on that a decoder does not go past by itself;
/// the length of the trace where there is none.
pub open spec fn rest(t: Trace, pos: int) -> int
    decreases t.len() - pos,
{
    if 0 <= pos < t.len() && passes(t.slots[pos]) {
        rest(t, pos + 1)
    } else {
        pos
    }
}

/// The clock after the slots from `pos` up to `rest(t, pos)` went by.
pub open spec fn wound(t: Trace, clock: Clock, pos: int) -> Clock
    decreases t.len() - pos,
{
    if 0 <= pos < t.len() && passes(t.slots[pos]) {
        wound(t, clock.after(packet_of(t.slots[pos]), t.mtc_freq, t.nom_freq), pos + 1)
    } else {
        clock
    }
}

/// The clock of a decoder that has come to rest at slot `pos`: where a
/// report of the core:bus ratio waits there, the decoder has read it, and the
/// ratio is recorded. The report is still handed out as an event.
pub open spec fn sighted(t: Trace, clock: Clock, pos: int) -> Clock {
    if 0 <= pos < t.len() {
        match t.slots[pos].content {
            Content::Packet { packet: Packet::Event { event } } => match event.kind {
                EventKind::Cbr { ratio } => clock.after_cbr(ratio),
                _ => clock,
            },
            _ => clock,
        }
    } else {
        clock
    }
}

/// Whether no timing packet lies in the slots from `lo` up to `hi`.
pub open spec fn no_timing(t: Trace, lo: int, hi: int) -> bool {
    forall|j: int| lo <= j < hi && 0 <= j < t.len() ==> (#[trigger] t.slots[j]).class() != Class::Timing
}

/// `rest` is the first slot from `pos` on that is not passed.
pub proof fn lemma_rest(t: Trace, pos: int)
    requires
        0 <= pos <= t.len(),
    ensures
        pos <= rest(t, pos) <= t.len(),
        rest(t, pos) < t.len() ==> !passes(t.slots[rest(t, pos)]),
        forall|j: int| pos <= j < rest(t, pos) ==> passes(#[trigger] t.slots[j]),
    decreases t.len() - pos,
{
    if pos < t.len() && passes(t.slots[pos]) {
        lemma_rest(t, pos + 1);
    }
}

/// Going past slots moves time forward only, loses no count, and leaves the
/// calibration alone.
pub proof fn lemma_wound_monotone(t: Trace, clock: Clock, pos: int)
    requires
        0 <= pos <= t.len(),
    ensures
        wound(t, clock, pos).time >= clock.time,
        wound(t, clock, pos).lost_mtc >= clock.lost_mtc,
        wound(t, clock, pos).lost_cyc >= clock.lost_cyc,
        clock.have_tsc ==> wound(t, clock, pos).have_tsc,
        wound(t, clock, pos).cbr == clock.cbr,
    decreases t.len() - pos,
{
    if pos < t.len() && passes(t.slots[pos]) {
        let p = packet_of(t.slots[pos]);
        clock.lemma_after_monotone(p, t.mtc_freq, t.nom_freq);
        lemma_wound_monotone(t, clock.after(p, t.mtc_freq, t.nom_freq), pos + 1);
    }
}

/// Where no timing packet goes by, the clock stays as it was at the start.
pub proof fn lemma_wound_untimed(t: Trace, clock: Clock, pos: int)
    requires
        0 <= pos <= t.len(),
        clock.untimed(),
        no_timing(t, pos, rest(t, pos)),
    ensures
        wound(t, clock, pos).untimed(),
        sighted(t, wound(t, clock, pos), rest(t, pos)).untimed(),
    decreases t.len() - pos,
{
    if pos < t.len() && passes(t.slots[pos]) {
        lemma_rest(t, pos + 1);
        assert(t.slots[pos].class() != Class::Timing);
        lemma_wound_untimed(t, clock.after(packet_of(t.slots[pos]), t.mtc_freq, t.nom_freq), pos + 1);
    }
}

/// The first slot from `from` on at which a search for a marker stops; the
/// length of the trace where there is none.
pub open spec fn next_halt(t: Trace, from: int) -> int
    decreases t.len() - from,
{
    if 0 <= from < t.len() && !halts(t.slots[from]) {
        next_halt(t, from + 1)
    } else {
        from
    }
}

/// The last slot before `below` at which a search for a marker stops; -1
/// where there is none.
pub open spec fn prev_halt(t: Trace, below: int) -> int
    decreases below,
{
    if 0 < below <= t.len() && !halts(t.slots[below - 1]) {
        prev_halt(t, below - 1)
    } else {
        below - 1
    }
}

/// `next_halt` is the first slot from `from` on at which a search stops.
pub proof fn lemma_next_halt(t: Trace, from: int)
    requires
        0 <= from <= t.len(),
    ensures
        from <= next_halt(t, from) <= t.len(),
        next_halt(t, from) < t.len() ==> halts(t.slots[next_halt(t, from)]),
        forall|j: int| from <= j < next_halt(t, from) ==> !halts(#[trigger] t.slots[j]),
    decreases t.len() - from,
{
    if from < t.len() && !halts(t.slots[from]) {
        lemma_next_halt(t, from + 1);
    }
}

/// `prev_halt` is the last slot before `below` at which a search stops.
pub proof fn lemma_prev_halt(t: Trace, below: int)
    requires
        0 <= below <= t.len(),
    ensures
        -1 <= prev_halt(t, below) < below,
        prev_halt(t, below) >= 0 ==> halts(t.slots[prev_halt(t, below)]),
        forall|j: int| prev_halt(t, below) < j < below ==> !halts(#[trigger] t.slots[j]),
    decreases below,
{
    if 0 < below && !halts(t.slots[below - 1]) {
        lemma_prev_halt(t, below - 1);
    }
}

/// Whether decision number `used` of a packet of `count` conditional
/// branches says taken.
pub open spec fn tnt_taken(bits: u64, count: u8, used: u8) -> bool {
    (bits >> ((count - 1 - used) as u64)) & 1 == 1
}

impl State {
    /// The state of a decoder that was never synchronized.
    pub open spec fn fresh() -> State {
        State {
            synced: false,
            anchor: 0,
            pos: 0,
            used: 0,
            sync: 0,
            ip: 0,
            mode: ExecMode::Unknown,
            asid: Asid { cr3: None, vmcs: None },
            speculative: false,
            clock: Clock::start(),
        }
    }

    /// The place of the decoder: the slot that it decodes next, or the one
    /// behind it while decisions of the packet there are in use.
    pub open spec fn place(self) -> int {
        if self.used > 0 {
            self.pos + 1
        } else {
            self.pos as int
        }
    }

    /// What holds of the state of every decoder over the trace `t`. A
    /// synchronized decoder has its marker before its place, rests at a slot
    /// that it does not pass by itself, has a clock at its start as long as
    /// no timing packet lies between the marker and its place, and has
    /// recorded the core:bus ratio that a report at its place tells.
    pub open spec fn ok(self, t: Trace) -> bool {
        &&& self.anchor <= t.len()
        &&& self.pos <= t.len()
        &&& (self.synced ==> {
            &&& self.sync < self.pos
            &&& t.slots[self.sync as int].is_marker()
            &&& self.anchor >= 1
            &&& (self.pos < t.len() ==> !passes(t.slots[self.pos as int]))
            &&& (no_timing(t, self.sync + 1, self.pos as int) ==> self.clock.untimed())
            &&& sighted(t, self.clock, self.pos as int) == self.clock
        })
        &&& (!self.synced ==> self.used == 0)
        &&& (self.used > 0 ==> {
            &&& self.pos < t.len()
            &&& self.anchor == self.pos + 1
            &&& self.next(t) is Branch
        })
    }

    /// The state after the decoder went past what it passes by itself and
    /// came to rest: the timing packets on the way have moved the clock, and
    /// a report of the core:bus ratio that waits at the place is recorded.
    pub open spec fn settled(self, t: Trace) -> State {
        State {
            pos: rest(t, self.pos as int) as usize,
            clock: sighted(t, wound(t, self.clock, self.pos as int), rest(t, self.pos as int)),
            ..self
        }
    }

    /// The state after the decoder lost its place at the slot before `anchor`.
    pub open spec fn lost(self, anchor: int) -> State {
        State { synced: false, anchor: anchor as usize, used: 0, ..self }
    }

    /// The state of a decoder that was just synchronized on the marker in
    /// slot `m`: what the marker says, a clock that starts anew, and the
    /// place behind the marker.
    pub open spec fn synced_at(t: Trace, m: int) -> State {
        match packet_of(t.slots[m]) {
            Packet::Sync { ip, mode, asid } => State {
                synced: true,
                anchor: (m + 1) as usize,
                pos: (m + 1) as usize,
                used: 0,
                sync: m as usize,
                ip,
                mode,
                asid,
                speculative: false,
                clock: Clock::start(),
            }.settled(t),
            _ => State::fresh(),
        }
    }

    /// What comes next in the trace.
    pub open spec fn next(self, t: Trace) -> Next {
        if self.pos >= t.len() {
            Next::End
        } else {
            match t.slots[self.pos as int].content {
                Content::Fault { fault } => Next::Broken { fault },
                Content::Packet { packet } => match packet {
                    Packet::Tnt { bits, count } => if 1 <= count <= TNT_MAX && self.used < count {
                        Next::Branch { taken: tnt_taken(bits, count, self.used) }
                    } else {
                        Next::Malformed
                    },
                    Packet::Tip { ip } => Next::Target { ip },
                    Packet::Event { event } => Next::Side { event },
                    _ => Next::Passing,
                },
            }
        }
    }

    /// Whether the end of the trace is reached.
    pub open spec fn at_end(self, t: Trace) -> bool {
        self.pos >= t.len()
    }

    /// What the event changes in what the decoder knows.
    pub open spec fn noting(self, event: Event) -> State {
        match event.kind {
            EventKind::ExecMode { mode } => State { mode, ..self },
            EventKind::SyncBranch { to } => State { ip: to, ..self },
            EventKind::AsyncBranch { to } => State { ip: to, ..self },
            EventKind::Paging { cr3 } => State {
                asid: Asid { cr3: Some(cr3), vmcs: self.asid.vmcs },
                ..self
            },
            EventKind::Vmcs { base } => State {
                asid: Asid { cr3: self.asid.cr3, vmcs: Some(base) },
                ..self
            },
            EventKind::Cbr { ratio } => State { clock: self.clock.after_cbr(ratio), ..self },
            EventKind::Tsx { speculative, aborted } => State { speculative, ..self },
            _ => self,
        }
    }

    /// The state after what comes next was taken: one decision of a packet
    /// of conditional branches, a target, or an event. The decoder then goes
    /// past what it passes by itself.
    pub open spec fn taking(self, t: Trace) -> State {
        let here = self.pos as int;
        let behind = State { anchor: (here + 1) as usize, pos: (here + 1) as usize, used: 0, ..self };
        match self.next(t) {
            Next::Branch { .. } => match packet_of(t.slots[here]) {
                Packet::Tnt { bits, count } => if self.used + 1 < count {
                    State { anchor: (here + 1) as usize, used: (self.used + 1) as u8, ..self }
                } else {
                    behind.settled(t)
                },
                _ => self,
            },
            Next::Target { ip } => State { ip, ..behind }.settled(t),
            Next::Side { event } => behind.noting(event).settled(t),
            _ => self,
        }
    }

    /// The state after what comes next turned out to be unusable: the decoder
    /// is no longer synchronized, and a search for a marker goes on behind
    /// the slot.
    pub open spec fn failing(self) -> State {
        self.lost(self.pos + 1)
    }
}

/// The state and the result of a synchronization whose search stopped at slot
/// `i`: at a marker the decoder is synchronized on it, and the result is the
/// address that the marker gives with the status there; at a rejected slot
/// the decoder loses its place and the fault is the error.
pub open spec fn landing(t: Trace, st: State, i: int) -> (State, Result<(u64, Status), PtError>) {
    match t.slots[i].content {
        Content::Fault { fault } => (st.lost(i + 1), Err(fault_error(fault))),
        Content::Packet { .. } => {
            let s = State::synced_at(t, i);
            (s, Ok((s.ip, status_of(t, s))))
        },
    }
}

/// The status of a decoder in state `st`: an event is pending where the next
/// packet is one, and the end is reached where no slot is left.
pub open spec fn status_of(t: Trace, st: State) -> Status {
    Status::of(st.next(t) is Side, st.at_end(t))
}

/// Where a search forwards begins: at the place of a synchronized decoder;
/// else at the start of the trace where no search has stopped yet, and
/// behind the slot at which the decoder lost its place or a search stopped.
pub open spec fn forward_from(st: State) -> int {
    if st.synced {
        st.place()
    } else {
        st.anchor as int
    }
}

/// Searching forwards, from [`forward_from`] on. Without a slot to stop at,
/// the end of the trace is the error and nothing changes.
pub open spec fn sync_forward_step(t: Trace, st: State) -> (State, Result<(u64, Status), PtError>) {
    let i = next_halt(t, forward_from(st));
    if i < t.len() {
        landing(t, st, i)
    } else {
        (st, Err(PtError::Eos))
    }
}

/// Where a search backwards begins: at the end of the trace where no search
/// has stopped yet, else at the slot that the decoder took or stopped at
/// last, which is not looked at. Right after a synchronization that slot is
/// the marker in use, so that the search leads to an earlier marker; the
/// markers that a decoder has passed by since lie behind it.
pub open spec fn backward_from(t: Trace, st: State) -> int {
    if st.anchor == 0 {
        t.len()
    } else {
        st.anchor - 1
    }
}

/// Searching backwards, from [`backward_from`] down. Without a slot to stop
/// at, the end of the trace is the error and nothing changes.
pub open spec fn sync_backward_step(t: Trace, st: State) -> (State, Result<(u64, Status), PtError>) {
    let i = prev_halt(t, backward_from(t, st));
    if i >= 0 {
        landing(t, st, i)
    } else {
        (st, Err(PtError::Eos))
    }
}

/// Synchronizing at a given offset: on the marker that begins there. Where
/// none does, `Nosync` is the error and nothing changes.
pub open spec fn sync_set_step(t: Trace, st: State, offset: u64) -> (State, Result<(u64, Status), PtError>) {
    if t.marker_at(offset) {
        landing(t, st, t.index_at(offset))
    } else {
        (st, Err(PtError::Nosync))
    }
}

/// A synchronization on a marker leaves a state that is sound, with the
/// marker as the synchronization point.
pub proof fn lemma_synced_at(t: Trace, m: int)
    requires
        t.wf(),
        0 <= m < t.len(),
        t.slots[m].is_marker(),
    ensures
        State::synced_at(t, m).ok(t),
        State::synced_at(t, m).synced,
        State::synced_at(t, m).sync == m,
        State::synced_at(t, m).anchor == m + 1,
        State::synced_at(t, m).used == 0,
{
    lemma_rest(t, m + 1);
    if no_timing(t, m + 1, rest(t, m + 1)) {
        lemma_wound_untimed(t, Clock::start(), m + 1);
    }
}

/// Taking what comes next leaves a sound state.
pub proof fn lemma_taking(t: Trace, st: State)
    requires
        t.wf(),
        st.ok(t),
        st.synced,
    ensures
        st.taking(t).ok(t),
        st.taking(t).synced,
        st.taking(t).sync == st.sync,
{
    if st.pos < t.len() {
        let here = st.pos as int;
        lemma_rest(t, here + 1);
        let behind = State { anchor: (here + 1) as usize, pos: (here + 1) as usize, used: 0, ..st };
        let after = st.taking(t);
        match st.next(t) {
            Next::Branch { .. } => {
                if after.pos != st.pos {
                    assert(after == behind.settled(t));
                    lemma_kept_untimed(t, st, behind);
                }
            },
            Next::Target { ip } => {
                assert(after == (State { ip, ..behind }).settled(t));
                lemma_kept_untimed(t, st, State { ip, ..behind });
            },
            Next::Side { event } => {
                assert(after == behind.noting(event).settled(t));
                lemma_kept_untimed(t, st, behind.noting(event));
            },
            _ => {},
        }
    }
}

/// A decoder that steps behind its place and comes to rest again has its
/// clock at the start as long as no timing packet lies between its marker
/// and its new place.
proof fn lemma_kept_untimed(t: Trace, st: State, behind: State)
    requires
        t.wf(),
        st.ok(t),
        st.synced,
        st.pos < t.len(),
        behind.pos == st.pos + 1,
        behind.sync == st.sync,
        st.clock.untimed() ==> behind.clock.untimed(),
    ensures
        no_timing(t, st.sync + 1, behind.settled(t).pos as int) ==> behind.settled(t).clock.untimed(),
{
    let here = st.pos as int;
    lemma_rest(t, here + 1);
    if no_timing(t, st.sync + 1, rest(t, here + 1)) {
        assert(no_timing(t, st.sync + 1, here));
        assert(no_timing(t, here + 1, rest(t, here + 1)));
        lemma_wound_untimed(t, behind.clock, here + 1);
    }
}

/// Goes past what a decoder passes by itself.
pub(crate) fn settle(cfg: &Config, st: State) -> (r: State)
    requires
        cfg.wf(),
        st.pos <= cfg@.len(),
    ensures
        r == st.settled(cfg@),
{
    broadcast use Config::lemma_wf;

    let n: usize = cfg.len();
    let mtc_freq: u8 = cfg.mtc_freq();
    let nom_freq: u8 = cfg.nom_freq();
    let mut pos: usize = st.pos;
    let mut clock: Clock = st.clock;
    let mut going: bool = true;
    while going && pos < n
        invariant
            cfg.wf(),
            n == cfg@.len(),
            mtc_freq == cfg@.mtc_freq,
            nom_freq == cfg@.nom_freq,
            st.pos <= pos <= n,
            going ==> rest(cfg@, pos as int) == rest(cfg@, st.pos as int),
            going ==> wound(cfg@, clock, pos as int) == wound(cfg@, st.clock, st.pos as int),
            !going ==> pos == rest(cfg@, st.pos as int),
            !going ==> clock == wound(cfg@, st.clock, st.pos as int),
        decreases n - pos + (if going { 1int } else { 0int }),
    {
        let slot: Slot = cfg.slot(pos);
        match slot.content {
            Content::Packet { packet } => match packet {
                Packet::Sync { .. } | Packet::Tsc { .. } | Packet::Mtc { .. } | Packet::Cyc { .. } | Packet::Pad => {
                    clock = clock.pass(packet, mtc_freq, nom_freq);
                    pos = pos + 1;
                },
                _ => {
                    going = false;
                },
            },
            Content::Fault { .. } => {
                going = false;
            },
        }
    }
    if pos < n {
        match cfg.slot(pos).content {
            Content::Packet { packet: Packet::Event { event } } => match event.kind {
                EventKind::Cbr { ratio } => {
                    clock = clock.set_cbr(ratio);
                },
                _ => {},
            },
            _ => {},
        }
    }
    State { pos, clock, ..st }
}

/// Searches forwards from `from` for a slot to stop at.
pub(crate) fn scan_forward(cfg: &Config, from: usize) -> (i: usize)
    requires
        from <= cfg@.len(),
    ensures
        i == next_halt(cfg@, from as int),
        from <= i <= cfg@.len(),
{
    let n: usize = cfg.len();
    let mut i: usize = from;
    let mut going: bool = true;
    while going && i < n
        invariant
            n == cfg@.len(),
            from <= i <= n,
            going ==> next_halt(cfg@, i as int) == next_halt(cfg@, from as int),
            !going ==> i == next_halt(cfg@, from as int),
        decreases n - i + (if going { 1int } else { 0int }),
    {
        match cfg.slot(i).classify() {
            Class::Marker | Class::Broken => {
                going = false;
            },
            _ => {
                i = i + 1;
            },
        }
    }
    i
}

/// Searches backwards from below `below` for a slot to stop at.
pub(crate) fn scan_backward(cfg: &Config, below: usize) -> (r: Option<usize>)
    requires
        below <= cfg@.len(),
    ensures
        r.is_some() <==> prev_halt(cfg@, below as int) >= 0,
        r.is_some() ==> r.unwrap() == prev_halt(cfg@, below as int) && r.unwrap() < below,
{
    let mut i: usize = below;
    while i > 0
        invariant
            i <= below <= cfg@.len(),
            prev_halt(cfg@, i as int) == prev_halt(cfg@, below as int),
        decreases i,
    {
        match cfg.slot(i - 1).classify() {
            Class::Marker | Class::Broken => {
                return Some(i - 1);
            },
            _ => {
                i = i - 1;
            },
        }
    }
    None
}

/// The error that a rejected slot is reported with.
pub(crate) fn error_of(fault: Fault) -> (e: PtError)
    ensures
        e == fault_error(fault),
{
    match fault {
        Fault::BadOpc => PtError::BadOpc,
        Fault::BadPacket => PtError::BadPacket,
    }
}

/// Looks at what comes next.
pub(crate) fn peek(cfg: &Config, st: &State) -> (nx: Next)
    requires
        st.pos <= cfg@.len(),
    ensures
        nx == st.next(cfg@),
{
    if st.pos >= cfg.len() {
        return Next::End;
    }
    match cfg.slot(st.pos).content {
        Content::Fault { fault } => Next::Broken { fault },
        Content::Packet { packet } => match packet {
            Packet::Tnt { bits, count } => {
                if 1 <= count && count <= TNT_MAX && st.used < count {
                    let shift: u64 = (count - 1 - st.used) as u64;
                    Next::Branch { taken: (bits >> shift) & 1 == 1 }
                } else {
                    Next::Malformed
                }
            },
            Packet::Tip { ip } => Next::Target { ip },
            Packet::Event { event } => Next::Side { event },
            _ => Next::Passing,
        },
    }
}

/// The status of a decoder in state `st`.
pub(crate) fn status(cfg: &Config, st: &State) -> (s: Status)
    requires
        st.pos <= cfg@.len(),
    ensures
        s == status_of(cfg@, *st),
{
    let pending: bool = match peek(cfg, st) {
        Next::Side { .. } => true,
        _ => false,
    };
    Status::new(pending, st.pos >= cfg.len())
}

/// Notes what an event changes.
pub(crate) fn note(st: State, event: Event) -> (r: State)
    ensures
        r == st.noting(event),
{
    match event.kind {
        EventKind::ExecMode { mode } => State { mode, ..st },
        EventKind::SyncBranch { to } => State { ip: to, ..st },
        EventKind::AsyncBranch { to } => State { ip: to, ..st },
        EventKind::Paging { cr3 } => State { asid: Asid { cr3: Some(cr3), vmcs: st.asid.vmcs }, ..st },
        EventKind::Vmcs { base } => State { asid: Asid { cr3: st.asid.cr3, vmcs: Some(base) }, ..st },
        EventKind::Cbr { ratio } => State { clock: st.clock.set_cbr(ratio), ..st },
        EventKind::Tsx { speculative, aborted } => State { speculative, ..st },
        _ => st,
    }
}

/// Takes what comes next.
pub(crate) fn take(cfg: &Config, st: State) -> (r: State)
    requires
        cfg.wf(),
        st.ok(cfg@),
        st.synced,
    ensures
        r == st.taking(cfg@),
        r.ok(cfg@),
        r.synced,
        r.sync == st.sync,
{
    broadcast use Config::lemma_wf;

    proof {
        lemma_taking(cfg@, st);
    }
    let nx = peek(cfg, &st);
    match nx {
        Next::Branch { .. } => {
            let here: usize = st.pos;
            match cfg.slot(here).content {
                Content::Packet { packet: Packet::Tnt { bits, count } } => {
                    if st.used + 1 < count {
                        State { anchor: here + 1, used: st.used + 1, ..st }
                    } else {
                        settle(cfg, State { anchor: here + 1, pos: here + 1, used: 0, ..st })
                    }
                },
                _ => st,
            }
        },
        Next::Target { ip } => {
            let here: usize = st.pos;
            settle(cfg, State { ip, anchor: here + 1, pos: here + 1, used: 0, ..st })
        },
        Next::Side { event } => {
            let here: usize = st.pos;
            settle(cfg, note(State { anchor: here + 1, pos: here + 1, used: 0, ..st }, event))
        },
        _ => st,
    }
}

/// Gives up the place in the trace at what comes next.
pub(crate) fn fail(cfg: &Config, st: State) -> (r: State)
    requires
        cfg.wf(),
        st.ok(cfg@),
        st.pos < cfg@.len(),
    ensures
        r == st.failing(),
        r.ok(cfg@),
        !r.synced,
{
    broadcast use Config::lemma_wf;

    State { synced: false, anchor: st.pos + 1, used: 0, ..st }
}

/// Makes of a slot at which a search stopped what [`landing`] says.
pub(crate) fn land(cfg: &Config, st: State, i: usize) -> (r: (State, Result<(u64, Status), PtError>))
    requires
        cfg.wf(),
        st.ok(cfg@),
        i < cfg@.len(),
        halts(cfg@.slots[i as int]),
    ensures
        r == landing(cfg@, st, i as int),
        r.0.ok(cfg@),
        r.1.is_ok() <==> cfg@.slots[i as int].is_marker(),
        r.1.is_ok() <==> r.0.synced,
        r.1.is_ok() ==> r.0.sync == i,
{
    broadcast use Config::lemma_wf;

    match cfg.slot(i).content {
        Content::Fault { fault } => (State { synced: false, anchor: i + 1, used: 0, ..st }, Err(error_of(fault))),
        Content::Packet { packet } => match packet {
            Packet::Sync { ip, mode, asid } => {
                proof {
                    lemma_synced_at(cfg@, i as int);
                }
                let s = settle(
                    cfg,
                    State {
                        synced: true,
                        anchor: i + 1,
                        pos: i + 1,
                        used: 0,
                        sync: i,
                        ip,
                        mode,
                        asid,
                        speculative: false,
                        clock: Clock::new(),
                    },
                );
                let status = status(cfg, &s);
                (s, Ok((s.ip, status)))
            },
            _ => unreached(),
        },
    }
}

/// Searches forwards for a marker and synchronizes on it.
pub(crate) fn sync_forward(cfg: &Config, st: State) -> (r: (State, Result<(u64, Status), PtError>))
    requires
        cfg.wf(),
        st.ok(cfg@),
    ensures
        r == sync_forward_step(cfg@, st),
        r.0.ok(cfg@),
{
    broadcast use Config::lemma_wf;

    let from: usize = if !st.synced {
        st.anchor
    } else if st.used > 0 {
        st.pos + 1
    } else {
        st.pos
    };
    let i: usize = scan_forward(cfg, from);
    proof {
        lemma_next_halt(cfg@, from as int);
    }
    if i < cfg.len() {
        land(cfg, st, i)
    } else {
        (st, Err(PtError::Eos))
    }
}

/// Searches backwards for a marker and synchronizes on it.
pub(crate) fn sync_backward(cfg: &Config, st: State) -> (r: (State, Result<(u64, Status), PtError>))
    requires
        cfg.wf(),
        st.ok(cfg@),
    ensures
        r == sync_backward_step(cfg@, st),
        r.0.ok(cfg@),
{
    broadcast use Config::lemma_wf;

    let below: usize = if st.anchor == 0 { cfg.len() } else { st.anchor - 1 };
    proof {
        lemma_prev_halt(cfg@, below as int);
    }
    match scan_backward(cfg, below) {
        Some(i) => land(cfg, st, i),
        None => (st, Err(PtError::Eos)),
    }
}

/// Synchronizes on the marker that begins at `offset`.
pub(crate) fn sync_set(cfg: &Config, st: State, offset: u64) -> (r: (State, Result<(u64, Status), PtError>))
    requires
        cfg.wf(),
        st.ok(cfg@),
    ensures
        r == sync_set_step(cfg@, st, offset),
        r.0.ok(cfg@),
{
    broadcast use Config::lemma_wf;

    match cfg.index_of(offset) {
        Some(i) => match cfg.slot(i).classify() {
            Class::Marker => land(cfg, st, i),
            _ => (st, Err(PtError::Nosync)),
        },
        None => (st, Err(PtError::Nosync)),
    }
}

/// The state of a decoder that was never synchronized.
pub(crate) fn fresh() -> (st: State)
    ensures
        st == State::fresh(),
{
    State {
        synced: false,
        anchor: 0,
        pos: 0,
        used: 0,
        sync: 0,
        ip: 0,
        mode: ExecMode::Unknown,
        asid: Asid { cr3: None, vmcs: None },
        speculative: false,
        clock: Clock::new(),
    }
}

} // verus!
