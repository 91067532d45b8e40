//! Guest memory snapshots and the translation of a guest-physical range to
//! the host virtual address that backs it.

use vm_memory::{GuestAddress, GuestMemoryBackend, GuestMemoryMmap};
use vstd::prelude::*;

verus! {

/// The region collection that backs a `GuestMemoryMmap`.
#[verifier::external_type_specification]
#[verifier::external_body]
#[verifier::reject_recursive_types(R)]
pub struct ExGuestRegionCollection<R>(vm_memory::GuestRegionCollection<R>);

/// One mmap-backed guest memory region.
#[verifier::external_type_specification]
#[verifier::external_body]
#[verifier::reject_recursive_types(B)]
pub struct ExGuestRegionMmap<B>(vm_memory::GuestRegionMmap<B>);

/// The regions of a guest memory snapshot, each as
/// `(guest-physical base, length in bytes, host virtual base)`. A region's
/// mapping is `usize` bytes long.
pub uninterp spec fn regions_of(m: GuestMemoryMmap) -> Seq<(u64, usize, u64)>;

/// A region `(base, len, host)` backs `[gpa, gpa + size)` when `gpa` lies
/// inside it and the range does not run past its end.
pub open spec fn region_covers(region: (u64, usize, u64), gpa: u64, size: u64) -> bool {
    &&& region.0 <= gpa
    &&& gpa < region.0 + region.1
    &&& gpa + size <= region.0 + region.1
}

/// The host virtual address of `gpa` inside `region`.
pub open spec fn host_address_in(region: (u64, usize, u64), gpa: u64) -> int {
    region.2 + (gpa - region.0)
}

/// Some single region of `regions` backs the whole of `[gpa, gpa + size)`.
pub open spec fn is_backed(regions: Seq<(u64, usize, u64)>, gpa: u64, size: u64) -> bool {
    exists|i: int| 0 <= i < regions.len() && region_covers(#[trigger] regions[i], gpa, size)
}

/// Some single region of `regions` backs the whole of `[gpa, gpa + size)`,
/// and `host` is the host virtual address of `gpa` there.
pub open spec fn backs_at(regions: Seq<(u64, usize, u64)>, gpa: u64, size: u64, host: u64) -> bool {
    exists|i: int|
        0 <= i < regions.len() && region_covers(#[trigger] regions[i], gpa, size)
            && host == host_address_in(regions[i], gpa)
}

/// What a translation of `[gpa, gpa + size)` may return: the host address of
/// `gpa` in a region that backs the whole range, or nothing when no single
/// region does.
pub open spec fn translates_to(
    regions: Seq<(u64, usize, u64)>,
    gpa: u64,
    size: u64,
    r: Option<u64>,
) -> bool {
    match r {
        Some(host) => backs_at(regions, gpa, size, host),
        None => !is_backed(regions, gpa, size),
    }
}

/// Relies on `GuestMemoryBackend::get_slice` of vm-memory: it finds the
/// region holding `gpa` and succeeds only if `size` bytes from there stay
/// inside that region; the slice then starts at the region's host base plus
/// the offset of `gpa` in the region. The regions of a `GuestMemoryMmap` are
/// sorted and do not overlap (checked when the collection is built), so the
/// returned address is the only one that a backing region gives; and each
/// region ends at or below `u64::MAX` (checked when a region is built), so a
/// range that runs past it is never backed.
#[verifier::external_body]
fn host_address_range(m: &GuestMemoryMmap, gpa: u64, size: usize) -> (r: Option<u64>)
    ensures
        translates_to(regions_of(*m), gpa, size as u64, r),
        r matches Some(host) ==> forall|h: u64|
            #[trigger] backs_at(regions_of(*m), gpa, size as u64, h) ==> h == host,
        gpa + size > u64::MAX ==> r is None,
{
    match m.get_slice(GuestAddress(gpa), size) {
        Ok(slice) => Some(slice.ptr_guard().as_ptr() as u64),
        Err(_) => None,
    }
}

/// Resolves `[gpa, gpa + size)` to the host virtual address of `gpa`, if one
/// region of the snapshot backs the whole range; nothing otherwise.
pub fn resolve(memory: &GuestMemoryMmap, gpa: u64, size: u64) -> (r: Option<u64>)
    ensures
        translates_to(regions_of(*memory), gpa, size, r),
        r is Some <==> is_backed(regions_of(*memory), gpa, size),
        forall|h: u64| #[trigger] backs_at(regions_of(*memory), gpa, size, h) ==> r == Some(h),
        gpa + size > u64::MAX ==> r is None,
{
    if size <= usize::MAX as u64 {
        host_address_range(memory, gpa, size as usize)
    } else {
        // No region is longer than `usize::MAX` bytes.
        assert(!is_backed(regions_of(*memory), gpa, size)) by {
            if is_backed(regions_of(*memory), gpa, size) {
                let regions = regions_of(*memory);
                let i = choose|i: int|
                    0 <= i < regions.len() && region_covers(#[trigger] regions[i], gpa, size);
                assert(region_covers(regions[i], gpa, size));
            }
        }
        None
    }
}

} // verus!
