//! Port allocation decisions.
//!
//! The allocator scans a bounded range of candidate ports in ascending
//! order. Probing a candidate (binding a listener to it) is outside work;
//! this module holds the decision machine the prober drives: which port to
//! probe next, and what a probe outcome means. A candidate whose probe
//! found it busy is never allocated and never offered again within a scan,
//! so a port held open by a listener cannot be returned twice.

use vstd::prelude::*;

verus! {

/// Lowest candidate port of the default range.
pub const MIN_PORT: u16 = 3000;

/// Exclusive upper bound of the default range.
pub const MAX_PORT: u16 = 65535;

/// What one probe outcome means for the scan.
#[derive(Clone, Copy, Debug, PartialEq, Eq, Structural)]
pub enum ScanStep {
    /// The probed candidate was free: allocate it.
    Allocated(u16),
    /// The probed candidate was busy: move on to the next one.
    Retry,
    /// The whole range is exhausted; no port is available.
    Exhausted,
}

/// An in-progress scan over the candidate range `lo..hi`.
#[derive(Clone, Copy, Debug)]
pub struct PortScan {
    /// Lowest candidate of the range.
    pub lo: u16,
    /// Exclusive upper bound of the range.
    pub hi: u16,
    /// Next candidate to probe; candidates below it were found busy.
    pub next: u16,
}

impl PortScan {
    /// A scan state is valid while its cursor stays within the range.
    pub open spec fn wf(&self) -> bool {
        self.lo <= self.next <= self.hi
    }

    /// Start a scan at the bottom of the range.
    pub fn new(lo: u16, hi: u16) -> (s: PortScan)
        requires
            lo <= hi,
        ensures
            s.lo == lo,
            s.hi == hi,
            s.next == lo,
            s.wf(),
    {
        PortScan { lo, hi, next: lo }
    }

    /// The candidate the caller should probe next, or `None` when the
    /// range is exhausted.
    pub fn candidate(&self) -> (c: Option<u16>)
        requires
            self.wf(),
        ensures
            self.next < self.hi ==> c == Some(self.next),
            self.next == self.hi ==> c is None,
            c matches Some(p) ==> self.lo <= p < self.hi,
    {
        if self.next < self.hi {
            Some(self.next)
        } else {
            None
        }
    }

    /// Consume the probe outcome of the current candidate. A busy
    /// candidate is skipped for good; only a free one is allocated, and
    /// it is always the probed candidate, inside the configured range.
    pub fn step(&mut self, busy: bool) -> (r: ScanStep)
        requires
            old(self).wf(),
        ensures
            final(self).wf(),
            final(self).lo == old(self).lo,
            final(self).hi == old(self).hi,
            old(self).next == old(self).hi ==> r == ScanStep::Exhausted && *final(self) == *old(
                self,
            ),
            old(self).next < old(self).hi && !busy ==> r == ScanStep::Allocated(old(self).next)
                && *final(self) == *old(self),
            old(self).next < old(self).hi && busy ==> r == ScanStep::Retry && final(self).next
                == old(self).next + 1,
            busy ==> !(r is Allocated),
            r matches ScanStep::Allocated(p) ==> old(self).lo <= p < old(self).hi && p == old(
                self,
            ).next && !busy,
    {
        if self.next == self.hi {
            ScanStep::Exhausted
        } else if busy {
            self.next = self.next + 1;
            ScanStep::Retry
        } else {
            ScanStep::Allocated(self.next)
        }
    }
}

} // verus!
