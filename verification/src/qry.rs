use vstd::prelude::*;
use crate::config::{Config, Trace};
use crate::engine::{
    fail, fault_error, fresh, peek, status, status_of, sync_backward, sync_backward_step,
    sync_forward, sync_forward_step, sync_set, sync_set_step, take, Next, State,
};
use crate::engine::error_of;
use crate::error::PtError;
use crate::event::Event;
use crate::flags::Status;

verus! {

/// The outcome of a conditional branch.
#[derive(Clone, Copy, Debug, PartialEq, Eq, Structural)]
pub enum CondBranch {
    Taken,
    NotTaken,
}

impl CondBranch {
    /// The outcome that the number stands for: 1 is taken, 0 is not taken,
    /// and no other number is an outcome.
    pub open spec fn of_number(number: i32) -> Option<CondBranch> {
        if number == 1 {
            Some(CondBranch::Taken)
        } else if number == 0 {
            Some(CondBranch::NotTaken)
        } else {
            None
        }
    }

    /// The outcome as a truth value.
    pub open spec fn of(taken: bool) -> CondBranch {
        if taken {
            CondBranch::Taken
        } else {
            CondBranch::NotTaken
        }
    }

    /// Reads an outcome from its number; a number that stands for none is
    /// `Invalid`.
    pub fn try_from_primitive(number: i32) -> (r: Result<CondBranch, PtError>)
        ensures
            r == match Self::of_number(number) {
                Some(b) => Ok::<CondBranch, PtError>(b),
                None => Err::<CondBranch, PtError>(PtError::Invalid),
            },
    {
        if number == 1 {
            Ok(CondBranch::Taken)
        } else if number == 0 {
            Ok(CondBranch::NotTaken)
        } else {
            Err(PtError::Invalid)
        }
    }

    /// The number of the outcome.
    pub fn number(&self) -> (n: i32)
        ensures
            Self::of_number(n) == Some(*self),
    {
        match self {
            CondBranch::Taken => 1,
            CondBranch::NotTaken => 0,
        }
    }

    /// The outcome for a truth value.
    pub fn from_taken(taken: bool) -> (b: CondBranch)
        ensures
            b == Self::of(taken),
    {
        if taken {
            CondBranch::Taken
        } else {
            CondBranch::NotTaken
        }
    }

    /// Whether the branch was taken.
    pub fn is_taken(&self) -> (taken: bool)
        ensures
            *self == Self::of(taken),
    {
        match self {
            CondBranch::Taken => true,
            CondBranch::NotTaken => false,
        }
    }
}

/// The three conditions that a decoder can be in.
#[derive(Clone, Copy, Debug, PartialEq, Eq, Structural)]
pub enum Phase {
    /// The decoder has no place in the trace.
    Unsynchronized,
    /// The decoder has a place in the trace and trace left to decode.
    Synchronized,
    /// The decoder has decoded the trace to its end.
    EndOfTrace,
}

/// The condition that a decoder in state `st` is in.
pub open spec fn phase_of(t: Trace, st: State) -> Phase {
    if !st.synced {
        Phase::Unsynchronized
    } else if st.at_end(t) {
        Phase::EndOfTrace
    } else {
        Phase::Synchronized
    }
}

/// Asking for the outcome of the next conditional branch. An unsynchronized
/// decoder answers `Nosync`, one at the end of the trace `Eos`. A rejected
/// slot or a malformed packet is a decode error and costs the decoder its
/// place. Where an event or an indirect branch comes next the answer is
/// `BadQuery` and nothing changes. Else one decision is taken.
pub open spec fn cond_branch_step(t: Trace, st: State) -> (State, Result<(CondBranch, Status), PtError>) {
    if !st.synced {
        (st, Err(PtError::Nosync))
    } else {
        match st.next(t) {
            Next::End => (st, Err(PtError::Eos)),
            Next::Broken { fault } => (st.failing(), Err(fault_error(fault))),
            Next::Malformed => (st.failing(), Err(PtError::BadPacket)),
            Next::Branch { taken } => (
                st.taking(t),
                Ok((CondBranch::of(taken), status_of(t, st.taking(t)))),
            ),
            _ => (st, Err(PtError::BadQuery)),
        }
    }
}

/// Asking for the target of the next indirect branch: as
/// [`cond_branch_step`], with the two kinds of branch exchanged.
pub open spec fn indirect_branch_step(t: Trace, st: State) -> (State, Result<(u64, Status), PtError>) {
    if !st.synced {
        (st, Err(PtError::Nosync))
    } else {
        match st.next(t) {
            Next::End => (st, Err(PtError::Eos)),
            Next::Broken { fault } => (st.failing(), Err(fault_error(fault))),
            Next::Malformed => (st.failing(), Err(PtError::BadPacket)),
            Next::Target { ip } => (st.taking(t), Ok((ip, status_of(t, st.taking(t))))),
            _ => (st, Err(PtError::BadQuery)),
        }
    }
}

/// Fetching the pending event. An unsynchronized decoder answers `Nosync`.
/// Where no event comes next the answer is `BadQuery` and nothing changes.
pub open spec fn event_step(t: Trace, st: State) -> (State, Result<(Event, Status), PtError>) {
    if !st.synced {
        (st, Err(PtError::Nosync))
    } else {
        match st.next(t) {
            Next::Side { event } => (st.taking(t), Ok((event, status_of(t, st.taking(t))))),
            _ => (st, Err(PtError::BadQuery)),
        }
    }
}

/// The core:bus ratio that a decoder in state `st` reports.
pub open spec fn core_bus_ratio_of(st: State) -> Result<u32, PtError> {
    if !st.synced {
        Err(PtError::Nosync)
    } else {
        match st.clock.cbr {
            Some(ratio) => Ok(ratio),
            None => Err(PtError::NoCbr),
        }
    }
}

/// The time and the two loss counters that a decoder in state `st` reports.
/// Without a timestamp since the synchronization they come inside the error.
pub open spec fn time_of(st: State) -> Result<(u64, u32, u32), PtError> {
    if !st.synced {
        Err(PtError::Nosync)
    } else if st.clock.have_tsc {
        Ok((st.clock.time, st.clock.lost_mtc, st.clock.lost_cyc))
    } else {
        Err(
            PtError::NoTime {
                time: st.clock.time,
                lost_mtc: st.clock.lost_mtc,
                lost_cyc: st.clock.lost_cyc,
            },
        )
    }
}

/// The offset of the slot that a decoder in state `st` decodes next.
pub open spec fn offset_of(t: Trace, st: State) -> Result<u64, PtError> {
    if !st.synced {
        Err(PtError::Nosync)
    } else {
        Ok(t.offset_of(st.pos as int) as u64)
    }
}

/// The offset of the marker that a decoder in state `st` was synchronized on.
pub open spec fn sync_offset_of(t: Trace, st: State) -> Result<u64, PtError> {
    if !st.synced {
        Err(PtError::Nosync)
    } else {
        Ok(t.slots[st.sync as int].offset)
    }
}

/// Computes [`cond_branch_step`].
pub(crate) fn do_cond_branch(cfg: &Config, st: State) -> (r: (State, Result<(CondBranch, Status), PtError>))
    requires
        cfg.wf(),
        st.ok(cfg@),
    ensures
        r == cond_branch_step(cfg@, st),
        r.0.ok(cfg@),
{
    if !st.synced {
        return (st, Err(PtError::Nosync));
    }
    match peek(cfg, &st) {
        Next::End => (st, Err(PtError::Eos)),
        Next::Broken { fault } => (fail(cfg, st), Err(error_of(fault))),
        Next::Malformed => (fail(cfg, st), Err(PtError::BadPacket)),
        Next::Branch { taken } => {
            let s = take(cfg, st);
            let status = status(cfg, &s);
            (s, Ok((CondBranch::from_taken(taken), status)))
        },
        _ => (st, Err(PtError::BadQuery)),
    }
}

/// Computes [`indirect_branch_step`].
pub(crate) fn do_indirect_branch(cfg: &Config, st: State) -> (r: (State, Result<(u64, Status), PtError>))
    requires
        cfg.wf(),
        st.ok(cfg@),
    ensures
        r == indirect_branch_step(cfg@, st),
        r.0.ok(cfg@),
{
    if !st.synced {
        return (st, Err(PtError::Nosync));
    }
    match peek(cfg, &st) {
        Next::End => (st, Err(PtError::Eos)),
        Next::Broken { fault } => (fail(cfg, st), Err(error_of(fault))),
        Next::Malformed => (fail(cfg, st), Err(PtError::BadPacket)),
        Next::Target { ip } => {
            let s = take(cfg, st);
            let status = status(cfg, &s);
            (s, Ok((ip, status)))
        },
        _ => (st, Err(PtError::BadQuery)),
    }
}

/// Computes [`event_step`].
pub(crate) fn do_event(cfg: &Config, st: State) -> (r: (State, Result<(Event, Status), PtError>))
    requires
        cfg.wf(),
        st.ok(cfg@),
    ensures
        r == event_step(cfg@, st),
        r.0.ok(cfg@),
{
    if !st.synced {
        return (st, Err(PtError::Nosync));
    }
    match peek(cfg, &st) {
        Next::Side { event } => {
            let s = take(cfg, st);
            let status = status(cfg, &s);
            (s, Ok((event, status)))
        },
        _ => (st, Err(PtError::BadQuery)),
    }
}

/// Computes [`core_bus_ratio_of`].
pub(crate) fn do_core_bus_ratio(st: &State) -> (r: Result<u32, PtError>)
    ensures
        r == core_bus_ratio_of(*st),
{
    if !st.synced {
        return Err(PtError::Nosync);
    }
    match st.clock.cbr {
        Some(ratio) => Ok(ratio),
        None => Err(PtError::NoCbr),
    }
}

/// Computes [`time_of`].
pub(crate) fn do_time(st: &State) -> (r: Result<(u64, u32, u32), PtError>)
    ensures
        r == time_of(*st),
{
    if !st.synced {
        Err(PtError::Nosync)
    } else if st.clock.have_tsc {
        Ok((st.clock.time, st.clock.lost_mtc, st.clock.lost_cyc))
    } else {
        Err(
            PtError::NoTime {
                time: st.clock.time,
                lost_mtc: st.clock.lost_mtc,
                lost_cyc: st.clock.lost_cyc,
            },
        )
    }
}

/// Computes [`offset_of`].
pub(crate) fn do_offset(cfg: &Config, st: &State) -> (r: Result<u64, PtError>)
    requires
        cfg.wf(),
        st.ok(cfg@),
    ensures
        r == offset_of(cfg@, *st),
{
    if !st.synced {
        Err(PtError::Nosync)
    } else {
        Ok(cfg.offset_of(st.pos))
    }
}

/// Computes [`sync_offset_of`].
pub(crate) fn do_sync_offset(cfg: &Config, st: &State) -> (r: Result<u64, PtError>)
    requires
        cfg.wf(),
        st.ok(cfg@),
    ensures
        r == sync_offset_of(cfg@, *st),
{
    if !st.synced {
        Err(PtError::Nosync)
    } else {
        Ok(cfg.slot(st.sync).offset)
    }
}

/// Computes [`phase_of`].
pub(crate) fn do_phase(cfg: &Config, st: &State) -> (p: Phase)
    ensures
        p == phase_of(cfg@, *st),
{
    if !st.synced {
        Phase::Unsynchronized
    } else if st.pos >= cfg.len() {
        Phase::EndOfTrace
    } else {
        Phase::Synchronized
    }
}

/// A decoder that answers one question at a time about the branches of the
/// traced program: whether the next conditional branch was taken, and where
/// the next indirect branch went. Between the answers it hands out the events
/// that the trace reports.
pub struct QueryDecoder<'a> {
    cfg: &'a Config,
    st: State,
}

impl<'a> QueryDecoder<'a> {
    /// The trace that the decoder works on.
    pub closed spec fn trace(&self) -> Trace {
        self.cfg@
    }

    /// Where the decoder stands.
    pub closed spec fn state(&self) -> State {
        self.st
    }

    /// What holds of every decoder: its trace is well formed and its state
    /// is sound for that trace.
    pub closed spec fn wf(&self) -> bool {
        &&& self.cfg.wf()
        &&& self.st.ok(self.cfg@)
    }

    /// A well-formed decoder has a well-formed trace and a sound state.
    pub broadcast proof fn lemma_wf(&self)
        requires
            #[trigger] self.wf(),
        ensures
            self.trace().wf(),
            self.state().ok(self.trace()),
    {
        broadcast use Config::lemma_wf;

    }

    /// A decoder for the trace of `cfg`. It is not synchronized yet.
    pub fn new(cfg: &'a Config) -> (r: Result<QueryDecoder<'a>, PtError>)
        requires
            cfg.wf(),
        ensures
            r.is_ok(),
            r.unwrap().wf(),
            r.unwrap().trace() == cfg@,
            r.unwrap().state() == State::fresh(),
    {
        Ok(QueryDecoder { cfg, st: fresh() })
    }

    /// Asks whether the next conditional branch was taken, and goes past
    /// that one decision.
    pub fn cond_branch(&mut self) -> (r: Result<(CondBranch, Status), PtError>)
        requires
            old(self).wf(),
        ensures
            final(self).wf(),
            final(self).trace() == old(self).trace(),
            final(self).state() == cond_branch_step(old(self).trace(), old(self).state()).0,
            r == cond_branch_step(old(self).trace(), old(self).state()).1,
    {
        let (st, r) = do_cond_branch(self.cfg, self.st);
        self.st = st;
        r
    }

    /// The core:bus ratio that the trace reported last.
    pub fn core_bus_ratio(&self) -> (r: Result<u32, PtError>)
        ensures
            r == core_bus_ratio_of(self.state()),
    {
        do_core_bus_ratio(&self.st)
    }

    /// Fetches the pending event and goes past it.
    pub fn event(&mut self) -> (r: Result<(Event, Status), PtError>)
        requires
            old(self).wf(),
        ensures
            final(self).wf(),
            final(self).trace() == old(self).trace(),
            final(self).state() == event_step(old(self).trace(), old(self).state()).0,
            r == event_step(old(self).trace(), old(self).state()).1,
    {
        let (st, r) = do_event(self.cfg, self.st);
        self.st = st;
        r
    }

    /// The configuration that the decoder was made for.
    pub fn config(&self) -> (r: Result<&'a Config, PtError>)
        requires
            self.wf(),
        ensures
            r.is_ok(),
            r.unwrap()@ == self.trace(),
            r.unwrap().wf(),
    {
        Ok(self.cfg)
    }

    /// The offset of the packet that is decoded next.
    pub fn offset(&self) -> (r: Result<u64, PtError>)
        requires
            self.wf(),
        ensures
            r == offset_of(self.trace(), self.state()),
    {
        do_offset(self.cfg, &self.st)
    }

    /// The offset of the marker that the decoder was synchronized on.
    pub fn sync_offset(&self) -> (r: Result<u64, PtError>)
        requires
            self.wf(),
        ensures
            r == sync_offset_of(self.trace(), self.state()),
    {
        do_sync_offset(self.cfg, &self.st)
    }

    /// Asks where the next indirect branch went, and goes past it.
    pub fn indirect_branch(&mut self) -> (r: Result<(u64, Status), PtError>)
        requires
            old(self).wf(),
        ensures
            final(self).wf(),
            final(self).trace() == old(self).trace(),
            final(self).state() == indirect_branch_step(old(self).trace(), old(self).state()).0,
            r == indirect_branch_step(old(self).trace(), old(self).state()).1,
    {
        let (st, r) = do_indirect_branch(self.cfg, self.st);
        self.st = st;
        r
    }

    /// Synchronizes on the nearest marker before the slot that the decoder
    /// took last: right after a synchronization, on the marker before the
    /// one in use.
    pub fn sync_backward(&mut self) -> (r: Result<(u64, Status), PtError>)
        requires
            old(self).wf(),
        ensures
            final(self).wf(),
            final(self).trace() == old(self).trace(),
            final(self).state() == sync_backward_step(old(self).trace(), old(self).state()).0,
            r == sync_backward_step(old(self).trace(), old(self).state()).1,
    {
        let (st, r) = sync_backward(self.cfg, self.st);
        self.st = st;
        r
    }

    /// Synchronizes on the first marker at or behind the place of the
    /// decoder.
    pub fn sync_forward(&mut self) -> (r: Result<(u64, Status), PtError>)
        requires
            old(self).wf(),
        ensures
            final(self).wf(),
            final(self).trace() == old(self).trace(),
            final(self).state() == sync_forward_step(old(self).trace(), old(self).state()).0,
            r == sync_forward_step(old(self).trace(), old(self).state()).1,
    {
        let (st, r) = sync_forward(self.cfg, self.st);
        self.st = st;
        r
    }

    /// Synchronizes on the marker that begins at `offset`.
    pub fn sync_set(&mut self, offset: u64) -> (r: Result<(u64, Status), PtError>)
        requires
            old(self).wf(),
        ensures
            final(self).wf(),
            final(self).trace() == old(self).trace(),
            final(self).state() == sync_set_step(old(self).trace(), old(self).state(), offset).0,
            r == sync_set_step(old(self).trace(), old(self).state(), offset).1,
    {
        let (st, r) = sync_set(self.cfg, self.st, offset);
        self.st = st;
        r
    }

    /// The time that the trace has reached, and how many ticks of the slow
    /// timer and how many cycle counts were lost on the way.
    pub fn time(&self) -> (r: Result<(u64, u32, u32), PtError>)
        ensures
            r == time_of(self.state()),
    {
        do_time(&self.st)
    }

    /// The condition that the decoder is in.
    pub fn phase(&self) -> (p: Phase)
        ensures
            p == phase_of(self.trace(), self.state()),
    {
        do_phase(self.cfg, &self.st)
    }
}

} // verus!
