use vstd::prelude::*;
use crate::asid::Asid;
use crate::block::Block;
use crate::config::{Config, Trace};
use crate::engine::{
    error_of, fail, fault_error, fresh, peek, sync_backward, sync_backward_step, sync_forward,
    sync_forward_step, sync_set, sync_set_step, take, Next, State,
};
use crate::error::PtError;
use crate::event::Event;
use crate::flags::Status;
use crate::image::{fetch, lemma_fetch_fits, sound, Image, Insn, InsnClass, Mapping};
use crate::qry::{
    core_bus_ratio_of, do_core_bus_ratio, do_offset, do_sync_offset, do_time, offset_of,
    sync_offset_of, time_of,
};

verus! {

/// The most instructions that one block holds.
pub const BLOCK_MAX: u16 = 65535;

/// How following the instructions from an address went.
#[derive(Clone, Copy, Debug, PartialEq, Eq, Structural)]
pub enum Walk {
    /// The image has no instruction at an address that was reached.
    Unmapped,
    /// `count` instructions, the last of them at `prior`, led to the address
    /// `at`, and the block ends before it: an event is due there, or the
    /// block is full.
    Paused { at: u64, prior: u64, count: u16 },
    /// `count` instructions led through `last`, behind which the image alone
    /// does not tell where control goes, or which the image holds in part
    /// only.
    Ended { last: Insn, count: u16 },
}

/// Where control goes behind an instruction without a look at the trace:
/// behind an instruction of the class `Other`, and to the target of a jump.
/// Nowhere for a branch that the trace decides, and nowhere for an
/// instruction that the image holds in part only.
pub open spec fn onward(insn: Insn) -> Option<u64> {
    if insn.truncated {
        None
    } else {
        match insn.class {
            InsnClass::Other => Some(insn.behind()),
            InsnClass::Jump { target } => Some(target),
            _ => None,
        }
    }
}

/// Follows the instructions of the image `m` in the address space `asid`
/// from `ip` on, after `count` instructions of which the last was at `last`.
/// The walk goes on as long as [`onward`] tells where. It is over at the
/// address `halt`, once an instruction was passed; after [`BLOCK_MAX`]
/// instructions; where the image has no instruction; and with the first
/// instruction that `onward` has no answer for.
pub open spec fn walk(m: Seq<Mapping>, asid: Asid, ip: u64, halt: Option<u64>, last: u64, count: u16) -> Walk
    decreases BLOCK_MAX - count,
{
    if count > 0 && (halt == Some(ip) || count >= BLOCK_MAX) {
        Walk::Paused { at: ip, prior: last, count }
    } else {
        match fetch(m, asid, ip) {
            None => Walk::Unmapped,
            Some(insn) => match onward(insn) {
                Some(next) => walk(m, asid, next, halt, ip, (count + 1) as u16),
                None => Walk::Ended { last: insn, count: (count + 1) as u16 },
            },
        }
    }
}

/// Whether the image has at `at` an instruction that hands control to `to`
/// without a look at the trace.
pub open spec fn flows(m: Seq<Mapping>, asid: Asid, at: u64, to: u64) -> bool {
    match fetch(m, asid, at) {
        Some(insn) => insn.ip == at && onward(insn) == Some(to),
        None => false,
    }
}

/// Whether `n` instructions of the image, each handing control to the next
/// without a look at the trace, lead from `from` to `to`.
pub open spec fn path(m: Seq<Mapping>, asid: Asid, from: u64, to: u64, n: nat) -> bool
    decreases n,
{
    if n == 0 {
        from == to
    } else {
        match fetch(m, asid, from) {
            Some(insn) => insn.ip == from && onward(insn).is_some() && path(
                m,
                asid,
                onward(insn).unwrap(),
                to,
                (n - 1) as nat,
            ),
            None => false,
        }
    }
}

/// One more instruction behind a path makes a path.
pub proof fn lemma_path_extend(m: Seq<Mapping>, asid: Asid, from: u64, to: u64, n: nat, next: u64)
    requires
        path(m, asid, from, to, n),
        flows(m, asid, to, next),
    ensures
        path(m, asid, from, next, n + 1),
    decreases n,
{
    if n == 0 {
        assert(path(m, asid, next, next, 0));
    } else {
        let first = fetch(m, asid, from).unwrap();
        lemma_path_extend(m, asid, onward(first).unwrap(), to, (n - 1) as nat, next);
    }
}

/// The event that makes the block decoder stop at an address: the address of
/// the event that comes next in the trace, where it has one.
pub open spec fn halt_of(t: Trace, st: State) -> Option<u64> {
    match st.next(t) {
        Next::Side { event } => event.ip,
        _ => None,
    }
}

/// Whether an event is pending for the block decoder: an event comes next in
/// the trace, and it either belongs to no instruction or to the one that
/// execution has reached.
pub open spec fn due(t: Trace, st: State) -> bool {
    match st.next(t) {
        Next::Side { event } => event.ip.is_none() || event.ip == Some(st.ip),
        _ => false,
    }
}

/// The status of a block decoder in state `st`.
pub open spec fn block_status(t: Trace, st: State) -> Status {
    Status::of(due(t, st), st.at_end(t))
}

/// The block of `count` instructions that a decoder in state `st` has
/// followed, the last of them at `last`.
pub open spec fn block_of(st: State, last: u64, count: u16, truncated: bool) -> Block {
    Block {
        ip: st.ip,
        end_ip: last,
        ninsn: count,
        mode: st.mode,
        speculative: st.speculative,
        truncated,
        asid: st.asid,
    }
}

/// Where control goes behind the instruction `last`, which ends a block, and
/// what that takes from the trace. A jump needs no trace, nor does an
/// instruction of the class `Other`. A conditional
/// branch takes one decision, an indirect branch a target; a different
/// packet in their place is `BadContext`, a rejected or malformed one a
/// decode error, and each of these costs the decoder its place.
pub open spec fn resolve(t: Trace, st: State, last: Insn) -> (State, Option<PtError>) {
    match last.class {
        InsnClass::Other => (State { ip: last.behind(), ..st }, None),
        InsnClass::Jump { target } => (State { ip: target, ..st }, None),
        InsnClass::CondBranch { target } => match st.next(t) {
            Next::Branch { taken } => (
                State { ip: if taken { target } else { last.behind() }, ..st.taking(t) },
                None,
            ),
            Next::Broken { fault } => (st.failing(), Some(fault_error(fault))),
            Next::Malformed => (st.failing(), Some(PtError::BadPacket)),
            _ => (st.failing(), Some(PtError::BadContext)),
        },
        InsnClass::Indirect => match st.next(t) {
            Next::Target { ip } => (st.taking(t), None),
            Next::Broken { fault } => (st.failing(), Some(fault_error(fault))),
            Next::Malformed => (st.failing(), Some(PtError::BadPacket)),
            _ => (st.failing(), Some(PtError::BadContext)),
        },
    }
}

/// Asking for the next block. An unsynchronized decoder answers `Nosync`,
/// one at the end of the trace `Eos`, one with an event pending `BadQuery`.
/// Else the instructions are followed from the address reached. Where the
/// image lacks one of them the answer is `Nomap`. In all these cases nothing
/// changes. The block runs through every instruction that hands control on
/// without a look at the trace, jumps among them. It ends before the
/// instruction that the next event belongs to; when it is full; or with the
/// first instruction behind which the trace decides, or which the image
/// holds in part only. For the latter see [`resolve`].
pub open spec fn next_step(t: Trace, m: Seq<Mapping>, st: State) -> (State, Result<(Block, Status), PtError>) {
    if !st.synced {
        (st, Err(PtError::Nosync))
    } else if st.at_end(t) {
        (st, Err(PtError::Eos))
    } else if due(t, st) {
        (st, Err(PtError::BadQuery))
    } else {
        match walk(m, st.asid, st.ip, halt_of(t, st), st.ip, 0) {
            Walk::Unmapped => (st, Err(PtError::Nomap)),
            Walk::Paused { at, prior: last, count } => (
                State { ip: at, ..st },
                Ok((block_of(st, last, count, false), block_status(t, State { ip: at, ..st }))),
            ),
            Walk::Ended { last, count } => match resolve(t, st, last).1 {
                Some(e) => (resolve(t, st, last).0, Err(e)),
                None => (
                    resolve(t, st, last).0,
                    Ok(
                        (
                            block_of(st, last.ip, count, last.truncated),
                            block_status(t, resolve(t, st, last).0),
                        ),
                    ),
                ),
            },
        }
    }
}

/// Fetching the pending event of a block decoder. An unsynchronized decoder
/// answers `Nosync`. Where no event is pending the answer is `BadQuery` and
/// nothing changes.
pub open spec fn block_event_step(t: Trace, st: State) -> (State, Result<(Event, Status), PtError>) {
    if !st.synced {
        (st, Err(PtError::Nosync))
    } else if !due(t, st) {
        (st, Err(PtError::BadQuery))
    } else {
        match st.next(t) {
            Next::Side { event } => (st.taking(t), Ok((event, block_status(t, st.taking(t))))),
            _ => (st, Err(PtError::BadQuery)),
        }
    }
}

/// What a block decoder reports of a synchronization: its own status in
/// place of the address and the status of the query level.
pub open spec fn block_sync(t: Trace, r: (State, Result<(u64, Status), PtError>)) -> Result<Status, PtError> {
    match r.1 {
        Ok(_) => Ok(block_status(t, r.0)),
        Err(e) => Err(e),
    }
}

/// The address space that a decoder in state `st` reports.
pub open spec fn asid_of(st: State) -> Result<Asid, PtError> {
    if !st.synced {
        Err(PtError::Nosync)
    } else {
        Ok(st.asid)
    }
}

/// The instructions of an image that may be absent.
pub open spec fn layout_of(image: Option<&Image>) -> Seq<Mapping> {
    match image {
        Some(img) => img@,
        None => Seq::empty(),
    }
}

/// Looks up an instruction in an image that may be absent.
fn lookup(image: &Option<&Image>, asid: &Asid, ip: u64) -> (r: Option<Insn>)
    requires
        image.is_some() ==> image.unwrap().wf(),
    ensures
        r == fetch(layout_of(*image), *asid, ip),
{
    match image {
        Some(img) => img.fetch(asid, ip),
        None => None,
    }
}

/// Computes [`walk`] from the start of a block.
fn follow(image: &Option<&Image>, asid: &Asid, start: u64, halt: Option<u64>) -> (w: Walk)
    requires
        image.is_some() ==> image.unwrap().wf(),
    ensures
        w == walk(layout_of(*image), *asid, start, halt, start, 0),
{
    broadcast use Image::lemma_wf;

    let ghost m = layout_of(*image);
    let mut ip: u64 = start;
    let mut last: u64 = start;
    let mut count: u16 = 0;
    loop
        invariant
            image.is_some() ==> image.unwrap().wf(),
            m == layout_of(*image),
            sound(m),
            count <= BLOCK_MAX,
            walk(m, *asid, ip, halt, last, count) == walk(m, *asid, start, halt, start, 0),
        decreases BLOCK_MAX - count,
    {
        if count > 0 {
            let due_here: bool = match halt {
                Some(at) => at == ip,
                None => false,
            };
            if due_here || count >= BLOCK_MAX {
                return Walk::Paused { at: ip, prior: last, count };
            }
        }
        match lookup(image, asid, ip) {
            None => {
                return Walk::Unmapped;
            },
            Some(insn) => {
                proof {
                    lemma_fetch_fits(m, *asid, ip);
                }
                match next_of(&insn) {
                    Some(next) => {
                        last = ip;
                        ip = next;
                        count = count + 1;
                    },
                    None => {
                        return Walk::Ended { last: insn, count: count + 1 };
                    },
                }
            },
        }
    }
}

/// Computes [`onward`].
fn next_of(insn: &Insn) -> (r: Option<u64>)
    requires
        insn.fits(),
    ensures
        r == onward(*insn),
{
    if insn.truncated {
        None
    } else {
        match insn.class {
            InsnClass::Other => Some(insn.ip + insn.size as u64),
            InsnClass::Jump { target } => Some(target),
            _ => None,
        }
    }
}

/// Whether an event is pending for the block decoder.
fn is_due(cfg: &Config, st: &State) -> (r: bool)
    requires
        st.pos <= cfg@.len(),
    ensures
        r == due(cfg@, *st),
{
    match peek(cfg, st) {
        Next::Side { event } => match event.ip {
            None => true,
            Some(at) => at == st.ip,
        },
        _ => false,
    }
}

/// The status of a block decoder in state `st`.
fn status(cfg: &Config, st: &State) -> (s: Status)
    requires
        st.pos <= cfg@.len(),
    ensures
        s == block_status(cfg@, *st),
{
    Status::new(is_due(cfg, st), st.pos >= cfg.len())
}

/// Computes [`resolve`].
fn settle_end(cfg: &Config, st: State, last: Insn) -> (r: (State, Option<PtError>))
    requires
        cfg.wf(),
        st.ok(cfg@),
        st.synced,
        !st.at_end(cfg@),
        last.fits(),
    ensures
        r == resolve(cfg@, st, last),
        r.0.ok(cfg@),
        r.1.is_none() ==> r.0.synced,
{
    let behind: u64 = last.ip + last.size as u64;
    match last.class {
        InsnClass::Other => (State { ip: behind, ..st }, None),
        InsnClass::Jump { target } => (State { ip: target, ..st }, None),
        InsnClass::CondBranch { target } => match peek(cfg, &st) {
            Next::Branch { taken } => {
                let s = take(cfg, st);
                (State { ip: if taken { target } else { behind }, ..s }, None)
            },
            Next::Broken { fault } => (fail(cfg, st), Some(error_of(fault))),
            Next::Malformed => (fail(cfg, st), Some(PtError::BadPacket)),
            _ => (fail(cfg, st), Some(PtError::BadContext)),
        },
        InsnClass::Indirect => match peek(cfg, &st) {
            Next::Target { .. } => (take(cfg, st), None),
            Next::Broken { fault } => (fail(cfg, st), Some(error_of(fault))),
            Next::Malformed => (fail(cfg, st), Some(PtError::BadPacket)),
            _ => (fail(cfg, st), Some(PtError::BadContext)),
        },
    }
}

/// Computes [`next_step`].
fn do_next(cfg: &Config, image: &Option<&Image>, st: State) -> (r: (State, Result<(Block, Status), PtError>))
    requires
        cfg.wf(),
        st.ok(cfg@),
        image.is_some() ==> image.unwrap().wf(),
    ensures
        r == next_step(cfg@, layout_of(*image), st),
        r.0.ok(cfg@),
{
    broadcast use Image::lemma_wf;

    if !st.synced {
        return (st, Err(PtError::Nosync));
    }
    if st.pos >= cfg.len() {
        return (st, Err(PtError::Eos));
    }
    if is_due(cfg, &st) {
        return (st, Err(PtError::BadQuery));
    }
    let halt: Option<u64> = match peek(cfg, &st) {
        Next::Side { event } => event.ip,
        _ => None,
    };
    match follow(image, &st.asid, st.ip, halt) {
        Walk::Unmapped => (st, Err(PtError::Nomap)),
        Walk::Paused { at, prior: last, count } => {
            let s = State { ip: at, ..st };
            let block = Block {
                ip: st.ip,
                end_ip: last,
                ninsn: count,
                mode: st.mode,
                speculative: st.speculative,
                truncated: false,
                asid: st.asid,
            };
            (s, Ok((block, status(cfg, &s))))
        },
        Walk::Ended { last, count } => {
            proof {
                lemma_walk_ended(layout_of(*image), st.asid, st.ip, halt, st.ip, 0);
            }
            let (s, e) = settle_end(cfg, st, last);
            match e {
                Some(err) => (s, Err(err)),
                None => {
                    let block = Block {
                        ip: st.ip,
                        end_ip: last.ip,
                        ninsn: count,
                        mode: st.mode,
                        speculative: st.speculative,
                        truncated: last.truncated,
                        asid: st.asid,
                    };
                    (s, Ok((block, status(cfg, &s))))
                },
            }
        },
    }
}

/// The instruction that ends a walk through a sound image fits, and the
/// image has it at its address.
pub proof fn lemma_walk_ended(m: Seq<Mapping>, asid: Asid, ip: u64, halt: Option<u64>, last: u64, count: u16)
    requires
        sound(m),
        count <= BLOCK_MAX,
        walk(m, asid, ip, halt, last, count) is Ended,
    ensures
        walk(m, asid, ip, halt, last, count)->Ended_last.fits(),
        fetch(m, asid, walk(m, asid, ip, halt, last, count)->Ended_last.ip) == Some(
            walk(m, asid, ip, halt, last, count)->Ended_last,
        ),
    decreases BLOCK_MAX - count,
{
    if count > 0 && (halt == Some(ip) || count >= BLOCK_MAX) {
    } else {
        match fetch(m, asid, ip) {
            None => {},
            Some(insn) => {
                lemma_fetch_fits(m, asid, ip);
                match onward(insn) {
                    Some(next) => {
                        lemma_walk_ended(m, asid, next, halt, ip, (count + 1) as u16);
                    },
                    None => {},
                }
            },
        }
    }
}

/// Computes [`block_event_step`].
fn do_event(cfg: &Config, st: State) -> (r: (State, Result<(Event, Status), PtError>))
    requires
        cfg.wf(),
        st.ok(cfg@),
    ensures
        r == block_event_step(cfg@, st),
        r.0.ok(cfg@),
{
    if !st.synced {
        return (st, Err(PtError::Nosync));
    }
    if !is_due(cfg, &st) {
        return (st, Err(PtError::BadQuery));
    }
    match peek(cfg, &st) {
        Next::Side { event } => {
            let s = take(cfg, st);
            (s, Ok((event, status(cfg, &s))))
        },
        _ => (st, Err(PtError::BadQuery)),
    }
}

/// Turns the result of a synchronization into what a block decoder reports.
fn report(cfg: &Config, r: (State, Result<(u64, Status), PtError>)) -> (out: Result<Status, PtError>)
    requires
        r.0.ok(cfg@),
    ensures
        out == block_sync(cfg@, r),
{
    match r.1 {
        Ok(_) => Ok(status(cfg, &r.0)),
        Err(e) => Err(e),
    }
}

/// A decoder that follows the traced program through a memory image and
/// hands out the executed instructions block by block.
pub struct BlockDecoder<'a> {
    cfg: &'a Config,
    image: Option<&'a Image>,
    own: Image,
    st: State,
}

impl<'a> BlockDecoder<'a> {
    /// The trace that the decoder works on.
    pub closed spec fn trace(&self) -> Trace {
        self.cfg@
    }

    /// The instructions that the decoder can look up: those of the image
    /// that is set, and none where none is set.
    pub closed spec fn layout(&self) -> Seq<Mapping> {
        layout_of(self.image)
    }

    /// Where the decoder stands.
    pub closed spec fn state(&self) -> State {
        self.st
    }

    /// What holds of every decoder: its trace is well formed, its image is
    /// sound, and its state is sound for the trace.
    pub closed spec fn wf(&self) -> bool {
        &&& self.cfg.wf()
        &&& self.st.ok(self.cfg@)
        &&& (self.image.is_some() ==> self.image.unwrap().wf())
        &&& self.own.wf()
        &&& self.own@ == Seq::<Mapping>::empty()
    }

    /// A well-formed decoder has a well-formed trace, a sound image and a
    /// sound state.
    pub broadcast proof fn lemma_wf(&self)
        requires
            #[trigger] self.wf(),
        ensures
            self.trace().wf(),
            sound(self.layout()),
            self.state().ok(self.trace()),
    {
        broadcast use Config::lemma_wf, Image::lemma_wf;

    }

    /// A decoder for the trace of `cfg`. It is not synchronized yet and has
    /// no image.
    pub fn new(cfg: &'a Config) -> (r: Result<BlockDecoder<'a>, PtError>)
        requires
            cfg.wf(),
        ensures
            r.is_ok(),
            r.unwrap().wf(),
            r.unwrap().trace() == cfg@,
            r.unwrap().layout() == Seq::<Mapping>::empty(),
            r.unwrap().state() == State::fresh(),
    {
        Ok(BlockDecoder { cfg, image: None, own: Image::new(), st: fresh() })
    }

    /// The address space that is running.
    pub fn asid(&self) -> (r: Result<Asid, PtError>)
        ensures
            r == asid_of(self.state()),
    {
        if !self.st.synced {
            Err(PtError::Nosync)
        } else {
            Ok(self.st.asid)
        }
    }

    /// The core:bus ratio that the trace reported last.
    pub fn core_bus_ratio(&self) -> (r: Result<u32, PtError>)
        ensures
            r == core_bus_ratio_of(self.state()),
    {
        do_core_bus_ratio(&self.st)
    }

    /// Fetches the pending event and goes past it.
    pub fn event(&mut self) -> (r: Result<(Event, Status), PtError>)
        requires
            old(self).wf(),
        ensures
            final(self).wf(),
            final(self).trace() == old(self).trace(),
            final(self).layout() == old(self).layout(),
            final(self).state() == block_event_step(old(self).trace(), old(self).state()).0,
            r == block_event_step(old(self).trace(), old(self).state()).1,
    {
        let (st, r) = do_event(self.cfg, self.st);
        self.st = st;
        r
    }

    /// The configuration that the decoder was made for.
    pub fn config(&self) -> (r: Result<&'a Config, PtError>)
        requires
            self.wf(),
        ensures
            r.is_ok(),
            r.unwrap()@ == self.trace(),
            r.unwrap().wf(),
    {
        Ok(self.cfg)
    }

    /// The image that the decoder looks instructions up in: the one that was
    /// set, else its own, which holds nothing.
    pub fn image(&self) -> (r: Result<&Image, PtError>)
        requires
            self.wf(),
        ensures
            r.is_ok(),
            r.unwrap()@ == self.layout(),
            r.unwrap().wf(),
    {
        match self.image {
            Some(img) => Ok(img),
            None => Ok(&self.own),
        }
    }

    /// The offset of the packet that is decoded next.
    pub fn offset(&self) -> (r: Result<u64, PtError>)
        requires
            self.wf(),
        ensures
            r == offset_of(self.trace(), self.state()),
    {
        do_offset(self.cfg, &self.st)
    }

    /// The offset of the marker that the decoder was synchronized on.
    pub fn sync_offset(&self) -> (r: Result<u64, PtError>)
        requires
            self.wf(),
        ensures
            r == sync_offset_of(self.trace(), self.state()),
    {
        do_sync_offset(self.cfg, &self.st)
    }

    /// Follows the traced program to the end of the next block.
    pub fn next(&mut self) -> (r: Result<(Block, Status), PtError>)
        requires
            old(self).wf(),
        ensures
            final(self).wf(),
            final(self).trace() == old(self).trace(),
            final(self).layout() == old(self).layout(),
            final(self).state() == next_step(old(self).trace(), old(self).layout(), old(self).state()).0,
            r == next_step(old(self).trace(), old(self).layout(), old(self).state()).1,
    {
        let (st, r) = do_next(self.cfg, &self.image, self.st);
        self.st = st;
        r
    }

    /// Sets the image to look instructions up in; with `None` the decoder
    /// has no image. The place in the trace stays.
    pub fn set_image(&mut self, img: Option<&'a Image>) -> (r: Result<(), PtError>)
        requires
            old(self).wf(),
            img.is_some() ==> img.unwrap().wf(),
        ensures
            r.is_ok(),
            final(self).wf(),
            final(self).trace() == old(self).trace(),
            final(self).layout() == layout_of(img),
            final(self).state() == old(self).state(),
    {
        self.image = img;
        Ok(())
    }

    /// Synchronizes on the nearest marker before the slot that the decoder
    /// took last: right after a synchronization, on the marker before the
    /// one in use.
    pub fn sync_backward(&mut self) -> (r: Result<Status, PtError>)
        requires
            old(self).wf(),
        ensures
            final(self).wf(),
            final(self).trace() == old(self).trace(),
            final(self).layout() == old(self).layout(),
            final(self).state() == sync_backward_step(old(self).trace(), old(self).state()).0,
            r == block_sync(old(self).trace(), sync_backward_step(old(self).trace(), old(self).state())),
    {
        let out = sync_backward(self.cfg, self.st);
        self.st = out.0;
        report(self.cfg, out)
    }

    /// Synchronizes on the first marker at or behind the place of the
    /// decoder.
    pub fn sync_forward(&mut self) -> (r: Result<Status, PtError>)
        requires
            old(self).wf(),
        ensures
            final(self).wf(),
            final(self).trace() == old(self).trace(),
            final(self).layout() == old(self).layout(),
            final(self).state() == sync_forward_step(old(self).trace(), old(self).state()).0,
            r == block_sync(old(self).trace(), sync_forward_step(old(self).trace(), old(self).state())),
    {
        let out = sync_forward(self.cfg, self.st);
        self.st = out.0;
        report(self.cfg, out)
    }

    /// Synchronizes on the marker that begins at `offset`.
    pub fn set_sync(&mut self, offset: u64) -> (r: Result<Status, PtError>)
        requires
            old(self).wf(),
        ensures
            final(self).wf(),
            final(self).trace() == old(self).trace(),
            final(self).layout() == old(self).layout(),
            final(self).state() == sync_set_step(old(self).trace(), old(self).state(), offset).0,
            r == block_sync(old(self).trace(), sync_set_step(old(self).trace(), old(self).state(), offset)),
    {
        let out = sync_set(self.cfg, self.st, offset);
        self.st = out.0;
        report(self.cfg, out)
    }

    /// The time that the trace has reached, and how many ticks of the slow
    /// timer and how many cycle counts were lost on the way.
    pub fn time(&self) -> (r: Result<(u64, u32, u32), PtError>)
        ensures
            r == time_of(self.state()),
    {
        do_time(&self.st)
    }
}

} // verus!
