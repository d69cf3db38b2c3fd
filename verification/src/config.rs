use vstd::prelude::*;
use crate::error::PtError;
use crate::packet::{Content, Slot};

verus! {

/// What a [`Config`] stands for: the trace, slot by slot, and the two
/// calibration parameters.
pub struct Trace {
    /// The slots of the trace in the order of their offsets.
    pub slots: Seq<Slot>,
    /// The period of the slow timer is two to this power.
    pub mtc_freq: u8,
    /// The nominal frequency of the core, as a multiple of the bus clock.
    pub nom_freq: u8,
}

impl Trace {
    /// The number of slots.
    pub open spec fn len(self) -> int {
        self.slots.len() as int
    }

    /// The number of bytes of the trace: the offset just behind its last slot.
    pub open spec fn end(self) -> int {
        if self.slots.len() == 0 {
            0
        } else {
            self.slots.last().offset + self.slots.last().size
        }
    }

    /// The slots lie one behind the other from offset 0 on, none of them
    /// empty.
    pub open spec fn laid_out(self) -> bool {
        &&& forall|i: int| 0 <= i < self.slots.len() ==> (#[trigger] self.slots[i]).size >= 1
        &&& self.slots.len() > 0 ==> self.slots[0].offset == 0
        &&& forall|i: int| 0 < i < self.slots.len() ==> #[trigger] self.follows(i)
    }

    /// Slot `i` begins where the slot before it ends.
    pub open spec fn follows(self, i: int) -> bool {
        self.slots[i].offset == self.slots[i - 1].offset + self.slots[i - 1].size
    }

    /// A trace that a [`Config`] can hold.
    pub open spec fn wf(self) -> bool {
        &&& self.laid_out()
        &&& self.end() <= u64::MAX
        &&& self.slots.len() <= usize::MAX
    }

    /// The offset at which slot `i` begins; for `i` behind the last slot, the
    /// end of the trace.
    pub open spec fn offset_of(self, i: int) -> int {
        if 0 <= i < self.slots.len() {
            self.slots[i].offset as int
        } else {
            self.end()
        }
    }

    /// Whether a slot begins at `offset`.
    pub open spec fn is_boundary(self, offset: u64) -> bool {
        exists|i: int| 0 <= i < self.slots.len() && (#[trigger] self.slots[i]).offset == offset
    }

    /// The slot that begins at `offset`, where [`Trace::is_boundary`] holds.
    pub open spec fn index_at(self, offset: u64) -> int {
        choose|i: int| 0 <= i < self.slots.len() && (#[trigger] self.slots[i]).offset == offset
    }

    /// Whether a synchronization marker begins at `offset`.
    pub open spec fn marker_at(self, offset: u64) -> bool {
        self.is_boundary(offset) && self.slots[self.index_at(offset)].is_marker()
    }

    /// The trace with one more slot behind the others.
    pub open spec fn pushed(self, content: Content, size: u8) -> Trace {
        Trace {
            slots: self.slots.push(Slot { offset: self.end() as u64, size, content }),
            ..self
        }
    }

    /// A slot ends where or before each later slot begins.
    pub proof fn lemma_ordered(self, i: int, j: int)
        requires
            self.laid_out(),
            0 <= i < j < self.slots.len(),
        ensures
            self.slots[i].offset + self.slots[i].size <= self.slots[j].offset,
        decreases j - i,
    {
        assert(self.follows(j));
        if i + 1 < j {
            self.lemma_ordered(i, j - 1);
            assert(self.slots[j - 1].size >= 1);
        }
    }

    /// No two slots begin at one offset.
    pub proof fn lemma_boundary_unique(self, i: int, j: int)
        requires
            self.laid_out(),
            0 <= i < self.slots.len(),
            0 <= j < self.slots.len(),
            self.slots[i].offset == self.slots[j].offset,
        ensures
            i == j,
    {
        if i < j {
            self.lemma_ordered(i, j);
            assert(self.slots[i].size >= 1);
        }
        if j < i {
            self.lemma_ordered(j, i);
            assert(self.slots[j].size >= 1);
        }
    }

    /// One more slot behind a well laid out trace leaves it well laid out.
    pub proof fn lemma_pushed(self, content: Content, size: u8)
        requires
            self.laid_out(),
            size >= 1,
            self.end() + size <= u64::MAX,
        ensures
            self.pushed(content, size).laid_out(),
            self.pushed(content, size).end() == self.end() + size,
    {
        let after = self.pushed(content, size);
        let n = self.slots.len() as int;
        assert forall|i: int| 0 < i < after.slots.len() implies #[trigger] after.follows(i) by {
            if i < n {
                assert(self.follows(i));
            }
        }
        assert forall|i: int| 0 <= i < after.slots.len() implies (#[trigger] after.slots[i]).size
            >= 1 by {
            if i < n {
                assert(self.slots[i].size >= 1);
            }
        }
    }
}

/// A trace as the packet layer cut it up, with the parameters that give its
/// timing packets a meaning. A decoder reads it and never changes it.
pub struct Config {
    slots: Vec<Slot>,
    end: u64,
    mtc_freq: u8,
    nom_freq: u8,
}

impl View for Config {
    type V = Trace;

    closed spec fn view(&self) -> Trace {
        Trace { slots: self.slots@, mtc_freq: self.mtc_freq, nom_freq: self.nom_freq }
    }
}

impl Config {
    /// What every configuration built by [`Config::new`] and [`Config::push`]
    /// satisfies: the trace is well formed and its length is kept.
    pub closed spec fn wf(&self) -> bool {
        &&& self@.wf()
        &&& self.end == self@.end()
    }

    /// The trace of a well-formed configuration is well formed.
    pub broadcast proof fn lemma_wf(&self)
        requires
            #[trigger] self.wf(),
        ensures
            self@.wf(),
    {
    }

    /// A configuration with an empty trace. The period of the slow timer is
    /// two to the power `mtc_freq`; `nom_freq` is the nominal frequency of
    /// the core.
    pub fn new(mtc_freq: u8, nom_freq: u8) -> (cfg: Config)
        ensures
            cfg.wf(),
            cfg@ == (Trace { slots: Seq::empty(), mtc_freq, nom_freq }),
    {
        Config { slots: Vec::new(), end: 0, mtc_freq, nom_freq }
    }

    /// Appends what the packet layer found in the next `size` bytes. Nothing
    /// is appended, and `Invalid` returned, where `size` is 0 or the trace
    /// would grow beyond what an offset can count.
    pub fn push(&mut self, content: Content, size: u8) -> (r: Result<(), PtError>)
        requires
            old(self).wf(),
        ensures
            final(self).wf(),
            size >= 1 && old(self)@.end() + size <= u64::MAX ==> r.is_ok() && final(self)@ == old(
                self,
            )@.pushed(content, size),
            !(size >= 1 && old(self)@.end() + size <= u64::MAX) ==> r == Err::<(), PtError>(
                PtError::Invalid,
            ) && final(self)@ == old(self)@,
    {
        if size == 0 || size as u64 > u64::MAX - self.end {
            return Err(PtError::Invalid);
        }
        let ghost before = self@;
        proof {
            before.lemma_pushed(content, size);
        }
        self.slots.push(Slot { offset: self.end, size, content });
        self.end = self.end + size as u64;
        assert(self@.slots =~= before.pushed(content, size).slots);
        assert(self@ == before.pushed(content, size));
        assert(self@.slots.len() <= usize::MAX) by {
            vstd::std_specs::vec::axiom_spec_len(&self.slots);
        }
        Ok(())
    }

    /// The number of slots.
    pub fn len(&self) -> (n: usize)
        ensures
            n == self@.len(),
    {
        self.slots.len()
    }

    /// The number of bytes of the trace.
    pub fn end(&self) -> (e: u64)
        requires
            self.wf(),
        ensures
            e == self@.end(),
    {
        self.end
    }

    /// The exponent of the period of the slow timer.
    pub fn mtc_freq(&self) -> (f: u8)
        ensures
            f == self@.mtc_freq,
    {
        self.mtc_freq
    }

    /// The nominal frequency of the core.
    pub fn nom_freq(&self) -> (f: u8)
        ensures
            f == self@.nom_freq,
    {
        self.nom_freq
    }

    /// Slot `i`.
    pub fn slot(&self, i: usize) -> (s: Slot)
        requires
            i < self@.len(),
        ensures
            s == self@.slots[i as int],
    {
        self.slots[i]
    }

    /// The offset at which slot `i` begins; for `i` behind the last slot, the
    /// end of the trace.
    pub fn offset_of(&self, i: usize) -> (o: u64)
        requires
            self.wf(),
        ensures
            o == self@.offset_of(i as int),
    {
        if i < self.slots.len() {
            self.slots[i].offset
        } else {
            self.end
        }
    }

    /// Finds the slot that begins at `offset`: the packet boundary there, if
    /// it is one.
    pub fn index_of(&self, offset: u64) -> (r: Option<usize>)
        requires
            self.wf(),
        ensures
            self@.is_boundary(offset) ==> r == Some(self@.index_at(offset) as usize),
            !self@.is_boundary(offset) ==> r.is_none(),
            r.is_some() ==> r.unwrap() < self@.len() && self@.slots[r.unwrap() as int].offset
                == offset,
    {
        let ghost t = self@;
        let mut lo: usize = 0;
        let mut hi: usize = self.slots.len();
        while lo < hi
            invariant
                t == self@,
                t.laid_out(),
                0 <= lo <= hi <= t.slots.len(),
                forall|j: int| 0 <= j < lo ==> (#[trigger] t.slots[j]).offset < offset,
                forall|j: int| hi <= j < t.slots.len() ==> (#[trigger] t.slots[j]).offset > offset,
            decreases hi - lo,
        {
            let mid: usize = lo + (hi - lo) / 2;
            let at: u64 = self.slots[mid].offset;
            if at == offset {
                proof {
                    t.lemma_boundary_unique(mid as int, t.index_at(offset));
                }
                return Some(mid);
            } else if at < offset {
                proof {
                    assert forall|j: int| 0 <= j < mid + 1 implies (#[trigger] t.slots[j]).offset
                        < offset by {
                        if j < mid {
                            t.lemma_ordered(j, mid as int);
                        }
                    }
                }
                lo = mid + 1;
            } else {
                proof {
                    assert forall|j: int| mid <= j < t.slots.len() implies (#[trigger] t.slots[j]).offset
                        > offset by {
                        if mid < j {
                            t.lemma_ordered(mid as int, j);
                        }
                    }
                }
                hi = mid;
            }
        }
        None
    }
}

} // verus!
