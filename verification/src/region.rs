//! Regions of a process's virtual address space.

use vstd::prelude::*;

verus! {

/// Which part of the address space a region covers.
#[derive(Clone, Copy, Debug, PartialEq, Eq, Structural)]
pub enum RegionKind {
    Stack,
    Heap,
}

/// A non-empty span `[start, end)` of virtual addresses.
#[derive(Clone, Copy, Debug, PartialEq, Eq, Structural)]
pub struct MemoryRegion {
    kind: RegionKind,
    start: usize,
    end: usize,
}

impl MemoryRegion {
    #[verifier::type_invariant]
    spec fn well_formed(self) -> bool {
        self.start < self.end
    }

    pub closed spec fn spec_kind(&self) -> RegionKind {
        self.kind
    }

    pub closed spec fn spec_start(&self) -> usize {
        self.start
    }

    pub closed spec fn spec_end(&self) -> usize {
        self.end
    }

    /// Number of bytes the region spans.
    pub open spec fn spec_size(&self) -> int {
        self.spec_end() - self.spec_start()
    }

    /// Builds the region `[start, end)`, which exists only when `start < end`.
    pub fn new(kind: RegionKind, start: usize, end: usize) -> (region: Option<MemoryRegion>)
        ensures
            region is Some <==> start < end,
            region matches Some(r) ==> r.spec_kind() == kind && r.spec_start() == start
                && r.spec_end() == end,
    {
        if start < end {
            Some(MemoryRegion { kind, start, end })
        } else {
            None
        }
    }

    #[verifier::when_used_as_spec(spec_kind)]
    pub fn kind(&self) -> (kind: RegionKind)
        ensures
            kind == self.spec_kind(),
    {
        self.kind
    }

    #[verifier::when_used_as_spec(spec_start)]
    pub fn start(&self) -> (start: usize)
        ensures
            start == self.spec_start(),
    {
        self.start
    }

    #[verifier::when_used_as_spec(spec_end)]
    pub fn end(&self) -> (end: usize)
        ensures
            end == self.spec_end(),
    {
        self.end
    }

    /// Number of bytes the region spans; never zero.
    pub fn size(&self) -> (size: usize)
        ensures
            size == self.spec_size(),
            size > 0,
    {
        proof {
            use_type_invariant(self);
        }
        self.end - self.start
    }
}

} // verus!
