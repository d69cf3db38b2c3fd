use vstd::prelude::*;

verus! {

/// An address-space identifier: which traced process or guest is running.
/// Either part may be unset.
#[derive(Clone, Copy, Debug, PartialEq, Eq, Structural)]
pub struct Asid {
    /// The root of the page tables.
    pub cr3: Option<u64>,
    /// The base of the virtual-machine control structure.
    pub vmcs: Option<u64>,
}

impl Asid {
    /// The identifier with the given parts.
    pub fn new(cr3: Option<u64>, vmcs: Option<u64>) -> (a: Asid)
        ensures
            a == (Asid { cr3, vmcs }),
    {
        Asid { cr3, vmcs }
    }

    /// Whether something that belongs to `self` is visible while `running`
    /// executes: each part that `self` sets is the same in `running`. An
    /// identifier with nothing set belongs to every address space.
    pub open spec fn admits(self, running: Asid) -> bool {
        &&& (self.cr3.is_some() ==> self.cr3 == running.cr3)
        &&& (self.vmcs.is_some() ==> self.vmcs == running.vmcs)
    }

    /// Whether the two can name one address space: no part is set in both
    /// to different values.
    pub open spec fn overlaps(self, other: Asid) -> bool {
        &&& (self.cr3.is_some() && other.cr3.is_some() ==> self.cr3 == other.cr3)
        &&& (self.vmcs.is_some() && other.vmcs.is_some() ==> self.vmcs == other.vmcs)
    }

    /// Computes [`Asid::admits`].
    pub fn matches(&self, running: &Asid) -> (r: bool)
        ensures
            r == self.admits(*running),
    {
        let cr3_ok = match (self.cr3, running.cr3) {
            (None, _) => true,
            (Some(a), Some(b)) => a == b,
            (Some(_), None) => false,
        };
        let vmcs_ok = match (self.vmcs, running.vmcs) {
            (None, _) => true,
            (Some(a), Some(b)) => a == b,
            (Some(_), None) => false,
        };
        cr3_ok && vmcs_ok
    }

    /// Computes [`Asid::overlaps`].
    pub fn may_share(&self, other: &Asid) -> (r: bool)
        ensures
            r == self.overlaps(*other),
    {
        let cr3_ok = match (self.cr3, other.cr3) {
            (Some(a), Some(b)) => a == b,
            _ => true,
        };
        let vmcs_ok = match (self.vmcs, other.vmcs) {
            (Some(a), Some(b)) => a == b,
            _ => true,
        };
        cr3_ok && vmcs_ok
    }
}

} // verus!
