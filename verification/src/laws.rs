use vstd::prelude::*;
use crate::asid::Asid;
use crate::block::Block;
use crate::block::decoder::{
    asid_of, block_event_step, block_status, due, flows, halt_of, lemma_path_extend, next_step,
    onward, path, resolve, walk, Walk, BLOCK_MAX,
};
use crate::config::Trace;
use crate::engine::{
    backward_from, forward_from, halts, lemma_next_halt, lemma_prev_halt, lemma_rest,
    lemma_synced_at, lemma_taking, lemma_wound_monotone, next_halt, no_timing, passes, prev_halt, rest, status_of,
    sync_backward_step, sync_forward_step, sync_set_step, Next, State,
};
use crate::error::PtError;
use crate::event::{Event, EventKind};
use crate::flags::Status;
use crate::image::{fetch, lemma_fetch_fits, sound, Insn, InsnClass, Mapping};
use crate::packet::Class;
use crate::qry::{
    CondBranch, cond_branch_step, core_bus_ratio_of, event_step, indirect_branch_step, offset_of,
    sync_offset_of, time_of,
};

verus! {

/// A marker is found at its own offset and nowhere else.
pub proof fn lemma_marker_index(t: Trace, m: int)
    requires
        t.wf(),
        0 <= m < t.len(),
        t.slots[m].is_marker(),
    ensures
        t.marker_at(t.slots[m].offset),
        t.index_at(t.slots[m].offset) == m,
{
    let offset = t.slots[m].offset;
    assert(t.is_boundary(offset));
    t.lemma_boundary_unique(m, t.index_at(offset));
}

/// Synchronizing at the offset of a marker succeeds, whatever the decoder
/// did before, and leaves the decoder as it is after a search forwards that
/// stopped at that marker: same state, same address, same status.
pub proof fn law_sync_set_as_forward(t: Trace, a: State, b: State, m: int)
    requires
        t.wf(),
        0 <= m < t.len(),
        t.slots[m].is_marker(),
        next_halt(t, forward_from(b)) == m,
    ensures
        sync_set_step(t, a, t.slots[m].offset).1.is_ok(),
        sync_set_step(t, a, t.slots[m].offset) == sync_forward_step(t, b),
        sync_set_step(t, a, t.slots[m].offset).0 == State::synced_at(t, m),
{
    lemma_marker_index(t, m);
}

/// The same holds of a search backwards that stopped at the marker.
pub proof fn law_sync_set_as_backward(t: Trace, a: State, b: State, m: int)
    requires
        t.wf(),
        0 <= m < t.len(),
        t.slots[m].is_marker(),
        b.anchor <= t.len(),
        prev_halt(t, backward_from(t, b)) == m,
    ensures
        sync_set_step(t, a, t.slots[m].offset).1.is_ok(),
        sync_set_step(t, a, t.slots[m].offset) == sync_backward_step(t, b),
{
    lemma_marker_index(t, m);
}

/// Right after a successful synchronization the decoder reports the offset
/// of the marker that it used: the offset asked for, or that of the slot at
/// which the search stopped.
pub proof fn law_sync_offset(t: Trace, st: State, offset: u64)
    requires
        t.wf(),
        st.ok(t),
    ensures
        sync_set_step(t, st, offset).1.is_ok() ==> sync_offset_of(t, sync_set_step(t, st, offset).0)
            == Ok::<u64, PtError>(offset),
        sync_forward_step(t, st).1.is_ok() ==> sync_offset_of(t, sync_forward_step(t, st).0) == Ok::<
            u64,
            PtError,
        >(t.slots[next_halt(t, forward_from(st))].offset),
        sync_backward_step(t, st).1.is_ok() ==> sync_offset_of(t, sync_backward_step(t, st).0)
            == Ok::<u64, PtError>(t.slots[prev_halt(t, backward_from(t, st))].offset),
{
    if sync_set_step(t, st, offset).1.is_ok() {
        let i = t.index_at(offset);
        lemma_synced_at(t, i);
    }
    lemma_next_halt(t, forward_from(st));
    if sync_forward_step(t, st).1.is_ok() {
        lemma_synced_at(t, next_halt(t, forward_from(st)));
    }
    lemma_prev_halt(t, backward_from(t, st));
    if sync_backward_step(t, st).1.is_ok() {
        lemma_synced_at(t, prev_halt(t, backward_from(t, st)));
    }
}

/// A synchronization that fails for want of a marker changes nothing, and a
/// decoder is synchronized after a synchronization exactly if it succeeded
/// or, having been synchronized before, failed for want of a marker.
pub proof fn law_sync_outcome(t: Trace, st: State, offset: u64)
    requires
        t.wf(),
        st.ok(t),
    ensures
        sync_forward_step(t, st).1.is_ok() ==> sync_forward_step(t, st).0.synced,
        sync_backward_step(t, st).1.is_ok() ==> sync_backward_step(t, st).0.synced,
        sync_set_step(t, st, offset).1.is_ok() ==> sync_set_step(t, st, offset).0.synced,
        sync_forward_step(t, st).1 == Err::<(u64, Status), PtError>(PtError::Eos) ==> sync_forward_step(
            t,
            st,
        ).0 == st,
        sync_backward_step(t, st).1 == Err::<(u64, Status), PtError>(PtError::Eos)
            ==> sync_backward_step(t, st).0 == st,
        sync_set_step(t, st, offset).1.is_err() ==> sync_set_step(t, st, offset).0 == st
            && sync_set_step(t, st, offset).1 == Err::<(u64, Status), PtError>(PtError::Nosync),
        !st.synced && sync_forward_step(t, st).1.is_err() ==> !sync_forward_step(t, st).0.synced,
        !st.synced && sync_backward_step(t, st).1.is_err() ==> !sync_backward_step(t, st).0.synced,
{
    lemma_next_halt(t, forward_from(st));
    if next_halt(t, forward_from(st)) < t.len() {
        let i = next_halt(t, forward_from(st));
        if t.slots[i].is_marker() {
            lemma_synced_at(t, i);
        }
    }
    lemma_prev_halt(t, backward_from(t, st));
    if prev_halt(t, backward_from(t, st)) >= 0 {
        let i = prev_halt(t, backward_from(t, st));
        if t.slots[i].is_marker() {
            lemma_synced_at(t, i);
        }
    }
    if t.marker_at(offset) {
        lemma_synced_at(t, t.index_at(offset));
    }
}

/// A synchronized decoder searches forwards from its place. As long as no
/// rejected slot lies behind the place, the search succeeds exactly if a
/// marker begins at the place or behind it; it then uses the first such
/// marker, which lies behind the marker in use. Else the answer is `Eos` and
/// nothing changes. Markers that the decoder has passed by are not found
/// again.
pub proof fn law_sync_forward_from_place(t: Trace, st: State)
    requires
        t.wf(),
        st.ok(t),
        st.synced,
        forall|j: int| st.place() <= j < t.len() ==> !(#[trigger] t.slots[j]).is_broken(),
    ensures
        sync_forward_step(t, st).1.is_ok() <==> exists|j: int|
            st.place() <= j < t.len() && (#[trigger] t.slots[j]).is_marker(),
        sync_forward_step(t, st).1.is_ok() ==> {
            let after = sync_forward_step(t, st).0;
            &&& after.synced
            &&& st.place() <= after.sync < t.len()
            &&& t.slots[after.sync as int].is_marker()
            &&& t.slots[after.sync as int].offset > t.slots[st.sync as int].offset
            &&& forall|j: int| st.place() <= j < after.sync ==> !(#[trigger] t.slots[j]).is_marker()
        },
        sync_forward_step(t, st).1.is_err() ==> sync_forward_step(t, st) == (
            st,
            Err::<(u64, Status), PtError>(PtError::Eos),
        ),
{
    let from = st.place();
    let i = next_halt(t, from);
    lemma_next_halt(t, from);
    if i < t.len() {
        assert(!t.slots[i].is_broken());
        lemma_synced_at(t, i);
        t.lemma_ordered(st.sync as int, i);
    } else {
        assert forall|j: int| from <= j < t.len() implies !(#[trigger] t.slots[j]).is_marker() by {
            assert(!halts(t.slots[j]));
        }
    }
}

/// The marker that a synchronized decoder uses begins before its place.
pub proof fn law_sync_before_place(t: Trace, st: State)
    requires
        t.wf(),
        st.ok(t),
        st.synced,
    ensures
        sync_offset_of(t, st).is_ok(),
        offset_of(t, st).is_ok(),
        sync_offset_of(t, st).unwrap() < offset_of(t, st).unwrap(),
{
    let sync = st.sync as int;
    let pos = st.pos as int;
    assert(t.slots[sync].size >= 1);
    if pos < t.len() {
        t.lemma_ordered(sync, pos);
    } else {
        let last = t.len() - 1;
        assert(t.slots[last].size >= 1);
        if sync < last {
            t.lemma_ordered(sync, last);
        }
    }
}

/// Whether what comes next is a report of the core:bus ratio `ratio`.
pub open spec fn reports(nx: Next, ratio: u32) -> bool {
    match nx {
        Next::Side { event } => event.kind == (EventKind::Cbr { ratio }),
        _ => false,
    }
}

/// A decoder knows the core:bus ratio as soon as it has come to rest at the
/// report of it, before the report is fetched as an event.
pub proof fn law_ratio_seen(t: Trace, st: State, ratio: u32)
    requires
        st.ok(t),
        st.synced,
        reports(st.next(t), ratio),
    ensures
        core_bus_ratio_of(st) == Ok::<u32, PtError>(ratio),
{
}

/// A decoder keeps the core:bus ratio that it knows until a report tells
/// another one or the decoder is synchronized anew: taking what comes next
/// forgets no ratio, and changes it only where a report was fetched or has
/// come into sight.
pub proof fn law_ratio_kept(t: Trace, st: State)
    requires
        t.wf(),
        st.ok(t),
        st.synced,
    ensures
        st.clock.cbr.is_some() ==> st.taking(t).clock.cbr.is_some(),
        !(st.next(t) is Side) && !(st.taking(t).next(t) is Side) ==> st.taking(t).clock.cbr
            == st.clock.cbr,
{
    if st.pos < t.len() {
        let here = st.pos as int;
        let behind = State { anchor: (here + 1) as usize, pos: (here + 1) as usize, used: 0, ..st };
        lemma_rest(t, here + 1);
        lemma_wound_monotone(t, behind.clock, here + 1);
        match st.next(t) {
            Next::Target { ip } => {
                lemma_wound_monotone(t, (State { ip, ..behind }).clock, here + 1);
            },
            Next::Side { event } => {
                lemma_wound_monotone(t, behind.noting(event).clock, here + 1);
            },
            _ => {},
        }
    }
}

/// As long as no timing packet lies between the marker in use and the place
/// of a decoder, the decoder has no time to tell: the answer is `NoTime`
/// with the time 0 and both loss counters 0.
pub proof fn law_no_time(t: Trace, st: State)
    requires
        st.ok(t),
        st.synced,
        no_timing(t, st.sync + 1, st.pos as int),
    ensures
        time_of(st) == Err::<(u64, u32, u32), PtError>(
            PtError::NoTime { time: 0, lost_mtc: 0, lost_cyc: 0 },
        ),
{
}

/// Once a query decoder has answered `Eos`, it stays where it is and
/// answers `Eos` to every further question about a branch.
pub proof fn law_eos_is_stable(t: Trace, st: State)
    requires
        cond_branch_step(t, st).1 == Err::<(CondBranch, Status), PtError>(PtError::Eos)
            || indirect_branch_step(t, st).1 == Err::<(u64, Status), PtError>(PtError::Eos),
    ensures
        cond_branch_step(t, st).0 == st,
        indirect_branch_step(t, st).0 == st,
        cond_branch_step(t, st).1 == Err::<(CondBranch, Status), PtError>(PtError::Eos),
        indirect_branch_step(t, st).1 == Err::<(u64, Status), PtError>(PtError::Eos),
{
}

/// Once a block decoder has answered `Eos`, it stays where it is and
/// answers `Eos` to every further request for a block, whatever image is
/// set.
pub proof fn law_block_eos_is_stable(t: Trace, m: Seq<Mapping>, other: Seq<Mapping>, st: State)
    requires
        next_step(t, m, st).1 == Err::<(Block, Status), PtError>(PtError::Eos),
    ensures
        next_step(t, m, st).0 == st,
        next_step(t, other, st).1 == Err::<(Block, Status), PtError>(PtError::Eos),
{
    if st.synced && !st.at_end(t) && !due(t, st) {
        match walk(m, st.asid, st.ip, halt_of(t, st), st.ip, 0) {
            Walk::Ended { last, count } => {
                assert(resolve(t, st, last).1 != Some(PtError::Eos));
            },
            _ => {},
        }
    }
}

/// The status of a query decoder says that an event is pending exactly where
/// an event comes next in the trace, and that the end is reached exactly
/// where no slot is left.
pub proof fn law_status_tells(t: Trace, st: State)
    ensures
        Status::has_pending(status_of(t, st).bits) == (st.next(t) is Side),
        Status::has_eos(status_of(t, st).bits) == st.at_end(t),
        Status::has_pending(block_status(t, st).bits) == due(t, st),
        Status::has_eos(block_status(t, st).bits) == st.at_end(t),
{
    Status::of_bits(st.next(t) is Side, st.at_end(t));
    Status::of_bits(due(t, st), st.at_end(t));
}

/// While an event is pending, a query decoder rejects every question about
/// a branch with `BadQuery` and stays where it is: events are never
/// overtaken. Fetching the event succeeds and moves the decoder on, so the
/// pending events run out; and fetching fails with `BadQuery` exactly where
/// a synchronized decoder has no event pending.
pub proof fn law_events_first(t: Trace, st: State)
    requires
        t.wf(),
        st.ok(t),
        st.synced,
    ensures
        st.next(t) is Side ==> cond_branch_step(t, st) == (
            st,
            Err::<(CondBranch, Status), PtError>(PtError::BadQuery),
        ),
        st.next(t) is Side ==> indirect_branch_step(t, st) == (
            st,
            Err::<(u64, Status), PtError>(PtError::BadQuery),
        ),
        st.next(t) is Side ==> event_step(t, st).1.is_ok() && event_step(t, st).0.pos > st.pos
            && event_step(t, st).0.pos <= t.len(),
        !(st.next(t) is Side) <==> event_step(t, st) == (
            st,
            Err::<(Event, Status), PtError>(PtError::BadQuery),
        ),
{
    if st.next(t) is Side {
        lemma_rest(t, st.pos + 1);
    }
}

/// The same for a block decoder: while an event is due it hands out no
/// block, and fetching fails with `BadQuery` exactly where none is due.
pub proof fn law_block_events_first(t: Trace, m: Seq<Mapping>, st: State)
    requires
        t.wf(),
        st.ok(t),
        st.synced,
    ensures
        due(t, st) ==> next_step(t, m, st) == (
            st,
            Err::<(Block, Status), PtError>(PtError::BadQuery),
        ),
        due(t, st) ==> block_event_step(t, st).1.is_ok() && block_event_step(t, st).0.pos > st.pos
            && block_event_step(t, st).0.pos <= t.len(),
        !due(t, st) <==> block_event_step(t, st) == (
            st,
            Err::<(Event, Status), PtError>(PtError::BadQuery),
        ),
{
    if due(t, st) {
        lemma_rest(t, st.pos + 1);
    }
}

/// How many events a query decoder has to hand out before the next branch:
/// the events from slot `pos` on, up to the first slot that is neither an
/// event nor passed by.
pub open spec fn pending(t: Trace, pos: int) -> nat
    decreases t.len() - pos,
{
    if 0 <= pos < t.len() {
        if t.slots[pos].class() == Class::Side {
            1 + pending(t, pos + 1)
        } else if passes(t.slots[pos]) {
            pending(t, pos + 1)
        } else {
            0
        }
    } else {
        0
    }
}

/// The state of a query decoder after `n` events were fetched.
pub open spec fn drained(t: Trace, st: State, n: nat) -> State
    decreases n,
{
    if n == 0 {
        st
    } else {
        event_step(t, drained(t, st, (n - 1) as nat)).0
    }
}

/// Passing by slots hands out no event and hides none.
pub proof fn lemma_pending_rest(t: Trace, pos: int)
    requires
        0 <= pos <= t.len(),
    ensures
        pending(t, rest(t, pos)) == pending(t, pos),
    decreases t.len() - pos,
{
    if pos < t.len() && passes(t.slots[pos]) {
        lemma_pending_rest(t, pos + 1);
    }
}

/// Each event fetched leaves one event less to hand out.
pub proof fn lemma_event_counts(t: Trace, st: State)
    requires
        t.wf(),
        st.ok(t),
        st.synced,
    ensures
        pending(t, st.pos as int) > 0 <==> st.next(t) is Side,
        st.next(t) is Side ==> pending(t, event_step(t, st).0.pos as int) == pending(t, st.pos as int)
            - 1,
        event_step(t, st).0.ok(t),
        event_step(t, st).0.synced,
{
    if st.next(t) is Side {
        lemma_rest(t, st.pos + 1);
        lemma_pending_rest(t, st.pos + 1);
        lemma_taking(t, st);
    }
}

/// The pending events are drained by fetching them one by one: where `n`
/// events are pending, each of the first `n` calls hands one out, no
/// question about a branch is answered before the last of them, and the
/// call after them is the first to fail, with `BadQuery`.
pub proof fn law_drain(t: Trace, st: State, k: nat)
    requires
        t.wf(),
        st.ok(t),
        st.synced,
        k <= pending(t, st.pos as int),
    ensures
        drained(t, st, k).ok(t),
        drained(t, st, k).synced,
        pending(t, drained(t, st, k).pos as int) == pending(t, st.pos as int) - k,
        k < pending(t, st.pos as int) ==> event_step(t, drained(t, st, k)).1.is_ok()
            && cond_branch_step(t, drained(t, st, k)).1 == Err::<
            (CondBranch, Status),
            PtError,
        >(PtError::BadQuery) && indirect_branch_step(t, drained(t, st, k)).1 == Err::<
            (u64, Status),
            PtError,
        >(PtError::BadQuery),
        k == pending(t, st.pos as int) ==> event_step(t, drained(t, st, k)) == (
            drained(t, st, k),
            Err::<(Event, Status), PtError>(PtError::BadQuery),
        ),
    decreases k,
{
    if k > 0 {
        law_drain(t, st, (k - 1) as nat);
        lemma_event_counts(t, drained(t, st, (k - 1) as nat));
    }
    lemma_event_counts(t, drained(t, st, k));
}

/// An unsynchronized decoder answers `Nosync` to everything but a
/// synchronization, and stays as it is.
pub proof fn law_nosync(t: Trace, m: Seq<Mapping>, st: State)
    requires
        !st.synced,
    ensures
        cond_branch_step(t, st) == (
            st,
            Err::<(CondBranch, Status), PtError>(PtError::Nosync),
        ),
        indirect_branch_step(t, st) == (st, Err::<(u64, Status), PtError>(PtError::Nosync)),
        event_step(t, st) == (st, Err::<(Event, Status), PtError>(PtError::Nosync)),
        block_event_step(t, st) == (
            st,
            Err::<(Event, Status), PtError>(PtError::Nosync),
        ),
        next_step(t, m, st) == (st, Err::<(Block, Status), PtError>(PtError::Nosync)),
        core_bus_ratio_of(st) == Err::<u32, PtError>(PtError::Nosync),
        time_of(st) == Err::<(u64, u32, u32), PtError>(PtError::Nosync),
        offset_of(t, st) == Err::<u64, PtError>(PtError::Nosync),
        sync_offset_of(t, st) == Err::<u64, PtError>(PtError::Nosync),
        asid_of(st) == Err::<Asid, PtError>(PtError::Nosync),
{
}

/// A decode error costs a block decoder its place; every other failure
/// leaves it where it is.
pub proof fn law_block_errors(t: Trace, m: Seq<Mapping>, st: State)
    requires
        st.synced,
        next_step(t, m, st).1.is_err(),
    ensures
        next_step(t, m, st).1.unwrap_err().is_decode_error() <==> !next_step(t, m, st).0.synced,
        next_step(t, m, st).0.synced ==> next_step(t, m, st).0 == st,
{
}

/// A decode error costs a query decoder its place; every other failure
/// leaves it where it is.
pub proof fn law_errors(t: Trace, st: State)
    requires
        st.synced,
    ensures
        cond_branch_step(t, st).1.is_err() ==> (cond_branch_step(t, st).1.unwrap_err().is_decode_error()
            <==> !cond_branch_step(t, st).0.synced),
        cond_branch_step(t, st).1.is_err() && cond_branch_step(t, st).0.synced ==> cond_branch_step(
            t,
            st,
        ).0 == st,
        indirect_branch_step(t, st).1.is_err() ==> (indirect_branch_step(
            t,
            st,
        ).1.unwrap_err().is_decode_error() <==> !indirect_branch_step(t, st).0.synced),
        indirect_branch_step(t, st).1.is_err() && indirect_branch_step(t, st).0.synced
            ==> indirect_branch_step(t, st).0 == st,
{
}

/// Between two synchronizations time does not run backwards and no loss is
/// forgotten: taking what comes next moves the clock forward only.
pub proof fn law_time_monotone(t: Trace, st: State)
    requires
        t.wf(),
        st.ok(t),
        st.synced,
    ensures
        st.taking(t).clock.time >= st.clock.time,
        st.taking(t).clock.lost_mtc >= st.clock.lost_mtc,
        st.taking(t).clock.lost_cyc >= st.clock.lost_cyc,
        st.clock.have_tsc ==> st.taking(t).clock.have_tsc,
{
    if st.pos < t.len() {
        let here = st.pos as int;
        let behind = State { anchor: (here + 1) as usize, pos: (here + 1) as usize, used: 0, ..st };
        lemma_wound_monotone(t, behind.clock, here + 1);
        match st.next(t) {
            Next::Target { ip } => {
                lemma_wound_monotone(t, (State { ip, ..behind }).clock, here + 1);
            },
            Next::Side { event } => {
                lemma_wound_monotone(t, behind.noting(event).clock, here + 1);
            },
            _ => {},
        }
    }
}

/// What a walk through a sound image has found when it is over: the
/// instructions passed hand control to one another from the start on, and
/// the one that ended it is in the image at its address.
pub proof fn lemma_walk_path(
    m: Seq<Mapping>,
    asid: Asid,
    start: u64,
    ip: u64,
    halt: Option<u64>,
    last: u64,
    count: u16,
)
    requires
        sound(m),
        count <= BLOCK_MAX,
        path(m, asid, start, ip, count as nat),
        count > 0 ==> path(m, asid, start, last, (count - 1) as nat) && flows(m, asid, last, ip),
    ensures
        match walk(m, asid, ip, halt, last, count) {
            Walk::Unmapped => true,
            Walk::Paused { at, prior: l, count: c } => c >= 1 && path(m, asid, start, l, (c - 1) as nat)
                && flows(m, asid, l, at),
            Walk::Ended { last: l, count: c } => c >= 1 && path(m, asid, start, l.ip, (c - 1) as nat)
                && fetch(m, asid, l.ip) == Some(l) && l.fits() && onward(l).is_none(),
        },
    decreases BLOCK_MAX - count,
{
    if count > 0 && (halt == Some(ip) || count >= BLOCK_MAX) {
    } else {
        match fetch(m, asid, ip) {
            None => {},
            Some(insn) => {
                lemma_fetch_fits(m, asid, ip);
                match onward(insn) {
                    Some(next) => {
                        lemma_path_extend(m, asid, start, ip, count as nat, next);
                        lemma_walk_path(m, asid, start, next, halt, ip, (count + 1) as u16);
                    },
                    None => {},
                }
            },
        }
    }
}

/// Whether control can go from the instruction `last` to the address `to`:
/// behind it, to its target, or, for an indirect branch, anywhere.
pub open spec fn hands_over(last: Insn, to: u64) -> bool {
    match last.class {
        InsnClass::Other => to == last.behind(),
        InsnClass::Jump { target } => to == target,
        InsnClass::CondBranch { target } => to == target || to == last.behind(),
        InsnClass::Indirect => true,
    }
}

/// Every block that a block decoder hands out begins where execution had
/// arrived, holds at least one instruction, and runs through instructions of
/// the image of which each hands control to the next, up to its last one.
/// The decoder is then at an address that this last instruction hands
/// control to, in the same address space, so that the next block begins
/// there: the blocks join without a gap and without an overlap.
pub proof fn law_blocks_join(t: Trace, m: Seq<Mapping>, st: State)
    requires
        t.wf(),
        sound(m),
        st.ok(t),
        next_step(t, m, st).1.is_ok(),
    ensures
        ({
            let after = next_step(t, m, st).0;
            let block = next_step(t, m, st).1.unwrap().0;
            &&& block.ip == st.ip
            &&& block.asid == st.asid
            &&& block.ninsn >= 1
            &&& path(m, st.asid, block.ip, block.end_ip, (block.ninsn - 1) as nat)
            &&& fetch(m, st.asid, block.end_ip).is_some()
            &&& fetch(m, st.asid, block.end_ip).unwrap().ip == block.end_ip
            &&& hands_over(fetch(m, st.asid, block.end_ip).unwrap(), after.ip)
            &&& after.asid == st.asid
            &&& after.synced
            &&& (next_step(t, m, after).1.is_ok() ==> next_step(t, m, after).1.unwrap().0.ip == after.ip)
        }),
{
    lemma_walk_path(m, st.asid, st.ip, st.ip, halt_of(t, st), st.ip, 0);
}

/// Where execution is after an event: at the target of a branch event, and
/// where it was after any other.
pub open spec fn steered(ip: u64, event: Event) -> u64 {
    match event.kind {
        EventKind::SyncBranch { to } => to,
        EventKind::AsyncBranch { to } => to,
        _ => ip,
    }
}

/// The state of a block decoder after `n` events were asked for.
pub open spec fn block_drained(t: Trace, st: State, n: nat) -> State
    decreases n,
{
    if n == 0 {
        st
    } else {
        block_event_step(t, block_drained(t, st, (n - 1) as nat)).0
    }
}

/// Where execution is after `n` events were asked for: each event that was
/// handed out steers it as [`steered`] says.
pub open spec fn address_after(t: Trace, st: State, n: nat) -> u64
    decreases n,
{
    if n == 0 {
        st.ip
    } else {
        match block_event_step(t, block_drained(t, st, (n - 1) as nat)).1 {
            Ok(fetched) => steered(address_after(t, st, (n - 1) as nat), fetched.0),
            Err(_) => address_after(t, st, (n - 1) as nat),
        }
    }
}

/// Fetching events between two blocks moves execution only as the events
/// say: the block that follows begins where the block before handed control
/// to, or at the target of the last branch event since.
pub proof fn law_blocks_join_after_events(t: Trace, m: Seq<Mapping>, st: State, n: nat)
    requires
        t.wf(),
        st.ok(t),
        st.synced,
    ensures
        block_drained(t, st, n).ok(t),
        block_drained(t, st, n).synced,
        block_drained(t, st, n).ip == address_after(t, st, n),
        next_step(t, m, block_drained(t, st, n)).1.is_ok() ==> next_step(
            t,
            m,
            block_drained(t, st, n),
        ).1.unwrap().0.ip == address_after(t, st, n),
    decreases n,
{
    if n > 0 {
        law_blocks_join_after_events(t, m, st, (n - 1) as nat);
        let before = block_drained(t, st, (n - 1) as nat);
        if due(t, before) {
            lemma_taking(t, before);
        }
    }
}

/// A block decoder that answers `Nomap` has not moved: with an image that
/// has the instruction it goes on from the same place.
pub proof fn law_nomap_keeps_place(t: Trace, m: Seq<Mapping>, st: State)
    requires
        next_step(t, m, st).1 == Err::<(Block, Status), PtError>(PtError::Nomap),
    ensures
        next_step(t, m, st).0 == st,
{
    if st.synced && !st.at_end(t) && !due(t, st) {
        match walk(m, st.asid, st.ip, halt_of(t, st), st.ip, 0) {
            Walk::Ended { last, count } => {
                assert(resolve(t, st, last).1 != Some(PtError::Nomap));
            },
            _ => {},
        }
    }
}

} // verus!
