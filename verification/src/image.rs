use vstd::prelude::*;
use crate::asid::Asid;
use crate::error::PtError;

verus! {

/// What an instruction does to the flow of control.
#[derive(Clone, Copy, Debug, PartialEq, Eq, Structural)]
pub enum InsnClass {
    /// Execution goes on with the instruction behind it.
    Other,
    /// Execution goes on at `target`, always: a direct jump or call.
    Jump { target: u64 },
    /// Execution goes on at `target` or behind the instruction; the trace
    /// says which.
    CondBranch { target: u64 },
    /// Execution goes on where the trace says: an indirect jump or call, a
    /// return.
    Indirect,
}

/// One instruction of the traced program, as far as a decoder needs it.
#[derive(Clone, Copy, Debug, PartialEq, Eq, Structural)]
pub struct Insn {
    /// Where the instruction begins.
    pub ip: u64,
    /// How many bytes it takes.
    pub size: u8,
    /// What it does to the flow of control.
    pub class: InsnClass,
    /// Whether the image holds only a part of its bytes.
    pub truncated: bool,
}

/// An instruction in the address spaces that it belongs to.
#[derive(Clone, Copy, Debug, PartialEq, Eq, Structural)]
pub struct Mapping {
    /// The address space; one with nothing set stands for all of them.
    pub asid: Asid,
    /// The instruction.
    pub insn: Insn,
}

impl Insn {
    /// The instruction takes at least one byte and ends within the
    /// address space.
    pub open spec fn fits(self) -> bool {
        self.size >= 1 && self.ip + self.size <= u64::MAX
    }

    /// The address just behind the instruction.
    pub open spec fn behind(self) -> u64 {
        (self.ip + self.size) as u64
    }
}

impl Mapping {
    /// Whether the two lay claim to one byte of one address space.
    pub open spec fn clashes(self, other: Mapping) -> bool {
        &&& self.asid.overlaps(other.asid)
        &&& self.insn.ip < other.insn.ip + other.insn.size
        &&& other.insn.ip < self.insn.ip + self.insn.size
    }

    /// Whether this is the instruction at `ip` while `asid` is running.
    pub open spec fn serves(self, asid: Asid, ip: u64) -> bool {
        self.asid.admits(asid) && self.insn.ip == ip
    }
}

/// What an image may hold: instructions that fit, no two of them claiming one
/// byte of one address space.
pub open spec fn sound(m: Seq<Mapping>) -> bool {
    &&& forall|i: int| 0 <= i < m.len() ==> (#[trigger] m[i]).insn.fits()
    &&& forall|i: int, j: int| 0 <= i < j < m.len() ==> !(#[trigger] m[i]).clashes(#[trigger] m[j])
}

/// Whether the image has an instruction at `ip` while `asid` is running.
pub open spec fn served(m: Seq<Mapping>, asid: Asid, ip: u64) -> bool {
    exists|i: int| 0 <= i < m.len() && (#[trigger] m[i]).serves(asid, ip)
}

/// The instruction at `ip` while `asid` is running, if the image has one.
pub open spec fn fetch(m: Seq<Mapping>, asid: Asid, ip: u64) -> Option<Insn> {
    if served(m, asid, ip) {
        Some(m[choose|i: int| 0 <= i < m.len() && (#[trigger] m[i]).serves(asid, ip)].insn)
    } else {
        None
    }
}

/// Whether the image has a mapping that clashes with `mapping`.
pub open spec fn taken_up(m: Seq<Mapping>, mapping: Mapping) -> bool {
    exists|i: int| 0 <= i < m.len() && (#[trigger] m[i]).clashes(mapping)
}

/// In a sound image an address has one instruction at most in a running
/// address space: the one found is the one fetched.
pub proof fn lemma_fetch_unique(m: Seq<Mapping>, asid: Asid, ip: u64, i: int)
    requires
        sound(m),
        0 <= i < m.len(),
        m[i].serves(asid, ip),
    ensures
        fetch(m, asid, ip) == Some(m[i].insn),
        m[i].insn.fits(),
        m[i].insn.ip == ip,
{
    let j = choose|j: int| 0 <= j < m.len() && (#[trigger] m[j]).serves(asid, ip);
    assert(m[i].insn.fits());
    assert(m[j].insn.fits());
    if i < j {
        assert(m[i].clashes(m[j]));
    }
    if j < i {
        assert(m[j].clashes(m[i]));
    }
}

/// What a sound image fetches fits and begins where it was asked for.
pub proof fn lemma_fetch_fits(m: Seq<Mapping>, asid: Asid, ip: u64)
    requires
        sound(m),
        fetch(m, asid, ip).is_some(),
    ensures
        fetch(m, asid, ip).unwrap().fits(),
        fetch(m, asid, ip).unwrap().ip == ip,
{
    let j = choose|j: int| 0 <= j < m.len() && (#[trigger] m[j]).serves(asid, ip);
    lemma_fetch_unique(m, asid, ip, j);
}

/// The instructions of the traced program that a block decoder can look up,
/// each under the address space that it belongs to.
pub struct Image {
    maps: Vec<Mapping>,
}

impl View for Image {
    type V = Seq<Mapping>;

    closed spec fn view(&self) -> Seq<Mapping> {
        self.maps@
    }
}

impl Image {
    /// What holds of every image: it is sound.
    pub closed spec fn wf(&self) -> bool {
        sound(self@)
    }

    /// A well-formed image is sound.
    pub broadcast proof fn lemma_wf(&self)
        requires
            #[trigger] self.wf(),
        ensures
            sound(self@),
    {
    }

    /// An image that holds nothing.
    pub fn new() -> (img: Image)
        ensures
            img.wf(),
            img@ == Seq::<Mapping>::empty(),
    {
        Image { maps: Vec::new() }
    }

    /// The number of instructions.
    pub fn len(&self) -> (n: usize)
        ensures
            n == self@.len(),
    {
        self.maps.len()
    }

    /// Adds an instruction under an address space. An instruction that does
    /// not fit, or that claims a byte that the image has already given away
    /// in an address space that `asid` can name, is `Invalid` and not added.
    pub fn add(&mut self, asid: Asid, insn: Insn) -> (r: Result<(), PtError>)
        requires
            old(self).wf(),
        ensures
            final(self).wf(),
            r.is_ok() <==> insn.fits() && !taken_up(old(self)@, Mapping { asid, insn }),
            r.is_ok() ==> final(self)@ == old(self)@.push(Mapping { asid, insn }),
            r.is_err() ==> r == Err::<(), PtError>(PtError::Invalid) && final(self)@ == old(self)@,
    {
        let mapping = Mapping { asid, insn };
        if insn.size == 0 || insn.size as u64 > u64::MAX - insn.ip {
            return Err(PtError::Invalid);
        }
        let end: u64 = insn.ip + insn.size as u64;
        let n: usize = self.maps.len();
        let mut i: usize = 0;
        while i < n
            invariant
                n == self.maps@.len(),
                self.maps@ == old(self)@,
                sound(self.maps@),
                i <= n,
                end == insn.ip + insn.size,
                mapping == (Mapping { asid, insn }),
                forall|j: int| 0 <= j < i ==> !(#[trigger] self.maps@[j]).clashes(mapping),
            decreases n - i,
        {
            let other: Mapping = self.maps[i];
            if other.asid.may_share(&asid) && other.insn.ip < end && insn.ip < other.insn.ip
                + other.insn.size as u64 {
                assert(self.maps@[i as int].clashes(mapping));
                return Err(PtError::Invalid);
            }
            i = i + 1;
        }
        let ghost before = self.maps@;
        self.maps.push(mapping);
        proof {
            let after = self.maps@;
            assert forall|a: int, b: int| 0 <= a < b < after.len() implies !(#[trigger] after[a]).clashes(
                #[trigger] after[b],
            ) by {
                if b < before.len() {
                    assert(!before[a].clashes(before[b]));
                } else {
                    assert(!before[a].clashes(mapping));
                }
            }
            assert forall|a: int| 0 <= a < after.len() implies (#[trigger] after[a]).insn.fits() by {
                if a < before.len() {
                    assert(before[a].insn.fits());
                }
            }
        }
        Ok(())
    }

    /// Looks up the instruction at `ip` while `asid` is running.
    pub fn fetch(&self, asid: &Asid, ip: u64) -> (r: Option<Insn>)
        requires
            self.wf(),
        ensures
            r == fetch(self@, *asid, ip),
    {
        let n: usize = self.maps.len();
        let mut i: usize = 0;
        while i < n
            invariant
                n == self.maps@.len(),
                sound(self.maps@),
                i <= n,
                forall|j: int| 0 <= j < i ==> !(#[trigger] self.maps@[j]).serves(*asid, ip),
            decreases n - i,
        {
            let m: Mapping = self.maps[i];
            if m.insn.ip == ip && m.asid.matches(asid) {
                proof {
                    lemma_fetch_unique(self.maps@, *asid, ip, i as int);
                }
                return Some(m.insn);
            }
            i = i + 1;
        }
        None
    }
}

} // verus!
