//! The memory census: what each allocation class holds in each domain.

use vstd::prelude::*;

verus! {

/// The number of allocation classes.
pub const MEMC_COUNT: usize = 17;

/// The number of memory domains.
pub const MEMD_COUNT: usize = 2;

/// What one class has allocated in one domain.
#[derive(Clone, Copy, Debug, PartialEq, Eq, Structural)]
pub struct MemCell {
    pub requested: u64,
    pub committed: u64,
    pub freed_requested: u64,
    pub freed_committed: u64,
    pub alloc_calls: u64,
    pub free_calls: u64,
}

impl MemCell {
    pub open spec fn empty() -> MemCell {
        MemCell {
            requested: 0,
            committed: 0,
            freed_requested: 0,
            freed_committed: 0,
            alloc_calls: 0,
            free_calls: 0,
        }
    }
}

impl Default for MemCell {
    fn default() -> (r: MemCell)
        ensures
            r == MemCell::empty(),
    {
        MemCell {
            requested: 0,
            committed: 0,
            freed_requested: 0,
            freed_committed: 0,
            alloc_calls: 0,
            free_calls: 0,
        }
    }
}

/// The census of all classes and domains.
#[derive(Clone, Copy, Debug, PartialEq, Eq)]
pub struct MemCensus {
    pub supported: bool,
    pub faults: u64,
    pub epoch: u64,
    pub torn_fallbacks: u64,
    pub cells: [[MemCell; 2]; 17],
}

impl MemCensus {
    /// The census of a backend that keeps none.
    pub open spec fn unsupported(self) -> bool {
        &&& !self.supported
        &&& self.faults == 0
        &&& self.epoch == 0
        &&& self.torn_fallbacks == 0
        &&& forall|c: int, d: int|
            0 <= c < MEMC_COUNT && 0 <= d < MEMD_COUNT ==> #[trigger] self.cells@[c]@[d]
                == MemCell::empty()
    }
}

impl Default for MemCensus {
    fn default() -> (r: MemCensus)
        ensures
            r.unsupported(),
    {
        MemCensus {
            supported: false,
            faults: 0,
            epoch: 0,
            torn_fallbacks: 0,
            cells: [[MemCell::default();2];17],
        }
    }
}

/// What the system reports as free.
#[derive(Clone, Copy, Debug, PartialEq, Eq, Structural)]
pub struct MemObserve {
    pub status: i32,
    pub source: i32,
    pub free_bytes: u64,
    pub total_bytes: u64,
    pub cuda_free_bytes: u64,
    pub meminfo_avail_bytes: u64,
}

impl MemObserve {
    pub open spec fn empty() -> MemObserve {
        MemObserve {
            status: 0,
            source: 0,
            free_bytes: 0,
            total_bytes: 0,
            cuda_free_bytes: 0,
            meminfo_avail_bytes: 0,
        }
    }
}

impl Default for MemObserve {
    fn default() -> (r: MemObserve)
        ensures
            r == MemObserve::empty(),
    {
        MemObserve {
            status: 0,
            source: 0,
            free_bytes: 0,
            total_bytes: 0,
            cuda_free_bytes: 0,
            meminfo_avail_bytes: 0,
        }
    }
}

/// The census with the observation taken beside it.
#[derive(Clone, Copy, Debug, PartialEq, Eq)]
pub struct MemSnap {
    pub census: MemCensus,
    pub observe: MemObserve,
    pub substrate_outstanding: u64,
}

impl Default for MemSnap {
    fn default() -> (r: MemSnap)
        ensures
            r.census.unsupported(),
            r.observe == MemObserve::empty(),
            r.substrate_outstanding == 0,
    {
        MemSnap {
            census: MemCensus::default(),
            observe: MemObserve::default(),
            substrate_outstanding: 0,
        }
    }
}

/// The snapshot that a reading gives. `rc` is the census call's code; where it
/// is not 0 nothing of the reading counts.
pub fn snapshot_mem(
    rc: i32,
    census: MemCensus,
    observe: MemObserve,
    substrate_outstanding: u64,
) -> (r: MemSnap)
    ensures
        if rc != 0 {
            r.census.unsupported() && r.observe == MemObserve::empty() && r.substrate_outstanding
                == 0
        } else {
            r.census == census && r.observe == observe && r.substrate_outstanding
                == substrate_outstanding
        },
{
    if rc != 0 {
        return MemSnap::default();
    }
    MemSnap { census, observe, substrate_outstanding }
}

} // verus!
