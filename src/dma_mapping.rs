//! The DMA mapping adapter: for each map or unmap request it decides what to
//! ask of the IOMMU container, and how the container's answer becomes the
//! adapter's result. The caller performs the container operation itself and
//! hands its outcome back, so the adapter holds no state between calls.

use std::sync::Arc;
use vm_memory::GuestMemoryMmap;
use vstd::prelude::*;

use crate::memory::{backs_at, is_backed, regions_of, resolve};

verus! {

/// The container operation that a request or a failure concerns.
#[derive(Clone, Copy, Debug, PartialEq, Eq, Structural)]
pub enum DmaOperation {
    MapDma,
    UnmapDma,
}

/// An operation to be performed on the container.
#[derive(Clone, Copy, Debug, PartialEq, Eq, Structural)]
pub enum DmaRequest {
    /// Install `[iova, iova + size)` -> `[host_addr, host_addr + size)`.
    MapDma { iova: u64, size: u64, host_addr: u64 },
    /// Remove the mapping of `[iova, iova + size)`.
    UnmapDma { iova: u64, size: u64 },
}

/// Why a map or unmap request failed; `E` is the container's own error.
#[derive(Clone, Debug, PartialEq, Eq)]
pub enum DmaMappingError<E> {
    /// `[gpa, gpa + size)` is not backed by one contiguous region of guest
    /// memory; the container was not asked anything.
    AddressTranslationFailure { gpa: u64, size: u64 },
    /// The container rejected the operation. `gpa` is present for a map and
    /// absent for an unmap; `cause` is the container's error, unchanged.
    ContainerOperationFailure {
        operation: DmaOperation,
        iova: u64,
        gpa: Option<u64>,
        size: u64,
        cause: E,
    },
}

/// The request for mapping `[gpa, gpa + size)` at `iova`, given what the
/// translation of the guest range returned.
pub open spec fn map_plan<E>(iova: u64, gpa: u64, size: u64, translation: Option<u64>) -> Result<
    DmaRequest,
    DmaMappingError<E>,
> {
    match translation {
        Some(host_addr) => Ok(DmaRequest::MapDma { iova, size, host_addr }),
        None => Err(DmaMappingError::AddressTranslationFailure { gpa, size }),
    }
}

/// The result of a map, given the container's answer to the map request.
pub open spec fn map_outcome<E>(iova: u64, gpa: u64, size: u64, container: Result<(), E>) -> Result<
    (),
    DmaMappingError<E>,
> {
    match container {
        Ok(()) => Ok(()),
        Err(cause) => Err(
            DmaMappingError::ContainerOperationFailure {
                operation: DmaOperation::MapDma,
                iova,
                gpa: Some(gpa),
                size,
                cause,
            },
        ),
    }
}

/// The result of an unmap, given the container's answer to the unmap request.
pub open spec fn unmap_outcome<E>(iova: u64, size: u64, container: Result<(), E>) -> Result<
    (),
    DmaMappingError<E>,
> {
    match container {
        Ok(()) => Ok(()),
        Err(cause) => Err(
            DmaMappingError::ContainerOperationFailure {
                operation: DmaOperation::UnmapDma,
                iova,
                gpa: None,
                size,
                cause,
            },
        ),
    }
}

/// What a map of `[gpa, gpa + size)` at `iova` decides on a snapshot with
/// `regions`: forward the one host address that a region backing the whole
/// range gives, or fail the translation when no single region backs it.
pub open spec fn map_decision<E>(
    regions: Seq<(u64, usize, u64)>,
    iova: u64,
    gpa: u64,
    size: u64,
    r: Result<DmaRequest, DmaMappingError<E>>,
) -> bool {
    match r {
        Ok(DmaRequest::MapDma { iova: i, size: s, host_addr }) => {
            &&& i == iova
            &&& s == size
            &&& backs_at(regions, gpa, size, host_addr)
            &&& forall|h: u64| #[trigger] backs_at(regions, gpa, size, h) ==> h == host_addr
        },
        Ok(DmaRequest::UnmapDma { .. }) => false,
        Err(e) => {
            &&& e == DmaMappingError::<E>::AddressTranslationFailure { gpa, size }
            &&& !is_backed(regions, gpa, size)
        },
    }
}

/// Decides a map of `[gpa, gpa + size)` at `iova` from the translation of
/// the guest range: a translation failure ends the request before the
/// container is involved.
pub fn map_request<E>(iova: u64, gpa: u64, size: u64, translation: Option<u64>) -> (r: Result<
    DmaRequest,
    DmaMappingError<E>,
>)
    ensures
        r == map_plan::<E>(iova, gpa, size, translation),
{
    match translation {
        Some(host_addr) => Ok(DmaRequest::MapDma { iova, size, host_addr }),
        None => Err(DmaMappingError::AddressTranslationFailure { gpa, size }),
    }
}

/// Turns the container's answer to a map request into the result of the map:
/// success passes through, a failure keeps its cause and gains the request's
/// addresses.
pub fn map_result<E>(iova: u64, gpa: u64, size: u64, container: Result<(), E>) -> (r: Result<
    (),
    DmaMappingError<E>,
>)
    ensures
        r == map_outcome(iova, gpa, size, container),
        container is Ok <==> r is Ok,
        container matches Err(cause) ==> r == Err::<(), DmaMappingError<E>>(
            DmaMappingError::ContainerOperationFailure {
                operation: DmaOperation::MapDma,
                iova,
                gpa: Some(gpa),
                size,
                cause,
            },
        ),
{
    match container {
        Ok(()) => Ok(()),
        Err(cause) => Err(
            DmaMappingError::ContainerOperationFailure {
                operation: DmaOperation::MapDma,
                iova,
                gpa: Some(gpa),
                size,
                cause,
            },
        ),
    }
}

/// The request for unmapping `[iova, iova + size)`: it goes to the container
/// unchanged, whatever was mapped before.
pub fn unmap_request(iova: u64, size: u64) -> (r: DmaRequest)
    ensures
        r == (DmaRequest::UnmapDma { iova, size }),
{
    DmaRequest::UnmapDma { iova, size }
}

/// Turns the container's answer to an unmap request into the result of the
/// unmap: success passes through, a failure keeps its cause.
pub fn unmap_result<E>(iova: u64, size: u64, container: Result<(), E>) -> (r: Result<
    (),
    DmaMappingError<E>,
>)
    ensures
        r == unmap_outcome(iova, size, container),
        container is Ok <==> r is Ok,
        container matches Err(cause) ==> r == Err::<(), DmaMappingError<E>>(
            DmaMappingError::ContainerOperationFailure {
                operation: DmaOperation::UnmapDma,
                iova,
                gpa: None,
                size,
                cause,
            },
        ),
{
    match container {
        Ok(()) => Ok(()),
        Err(cause) => Err(
            DmaMappingError::ContainerOperationFailure {
                operation: DmaOperation::UnmapDma,
                iova,
                gpa: None,
                size,
                cause,
            },
        ),
    }
}

/// Decides a map of `[gpa, gpa + size)` at `iova` on `memory`, the guest
/// memory as it is now: translates the range and, if one region backs all of
/// it, returns the container request; otherwise the translation failure.
pub fn prepare_map<E>(memory: &GuestMemoryMmap, iova: u64, gpa: u64, size: u64) -> (r: Result<
    DmaRequest,
    DmaMappingError<E>,
>)
    ensures
        map_decision(regions_of(*memory), iova, gpa, size, r),
        r is Ok <==> is_backed(regions_of(*memory), gpa, size),
        forall|h: u64| #[trigger] backs_at(regions_of(*memory), gpa, size, h) ==> r == Ok::<
            DmaRequest,
            DmaMappingError<E>,
        >(DmaRequest::MapDma { iova, size, host_addr: h }),
        gpa + size > u64::MAX ==> r == Err::<DmaRequest, DmaMappingError<E>>(
            DmaMappingError::AddressTranslationFailure { gpa, size },
        ),
{
    let translation = resolve(memory, gpa, size);
    map_request(iova, gpa, size, translation)
}

/// Keeps a VFIO container and the provider of the guest memory whose ranges
/// are mapped into it. Both are shared with the rest of the system; each map
/// request is decided on the memory that the provider gives at that moment.
pub struct VfioDmaMapping<C, M> {
    container: Arc<C>,
    memory: Arc<M>,
}

impl<C, M> VfioDmaMapping<C, M> {
    /// The container that the requests are meant for.
    pub closed spec fn container_spec(&self) -> C {
        *self.container
    }

    /// The provider of the guest memory.
    pub closed spec fn memory_spec(&self) -> M {
        *self.memory
    }

    /// Creates an adapter for `container` over the guest memory provider
    /// `memory`.
    pub fn new(container: Arc<C>, memory: Arc<M>) -> (r: Self)
        ensures
            r.container_spec() == *container,
            r.memory_spec() == *memory,
    {
        VfioDmaMapping { container, memory }
    }

    /// The container that the requests are meant for.
    pub fn container(&self) -> (r: &Arc<C>)
        ensures
            **r == self.container_spec(),
    {
        &self.container
    }

    /// The provider of the guest memory that map requests are decided on.
    pub fn memory(&self) -> (r: &Arc<M>)
        ensures
            **r == self.memory_spec(),
    {
        &self.memory
    }
}

/// A range that one region backs contiguously at `host` is forwarded to the
/// container as exactly one map request `(iova, size, host)`, and the map
/// succeeds when the container accepts it.
pub proof fn lemma_backed_range_is_forwarded<E>(
    regions: Seq<(u64, usize, u64)>,
    iova: u64,
    gpa: u64,
    size: u64,
    host: u64,
)
    requires
        backs_at(regions, gpa, size, host),
    ensures
        forall|r: Result<DmaRequest, DmaMappingError<E>>|
            #[trigger] map_decision(regions, iova, gpa, size, r) ==> r == Ok::<
                DmaRequest,
                DmaMappingError<E>,
            >(DmaRequest::MapDma { iova, size, host_addr: host }),
        map_outcome::<E>(iova, gpa, size, Ok(())) == Ok::<(), DmaMappingError<E>>(()),
{
    assert forall|r: Result<DmaRequest, DmaMappingError<E>>|
        #[trigger] map_decision(regions, iova, gpa, size, r) implies r == Ok::<
            DmaRequest,
            DmaMappingError<E>,
        >(DmaRequest::MapDma { iova, size, host_addr: host }) by {
        if r is Err {
            let i = choose|i: int|
                0 <= i < regions.len() && crate::memory::region_covers(
                    #[trigger] regions[i],
                    gpa,
                    size,
                ) && host == crate::memory::host_address_in(regions[i], gpa);
            assert(is_backed(regions, gpa, size));
        }
    }
}

/// A range that no single region backs fails the translation, and no
/// request reaches the container.
pub proof fn lemma_unbacked_range_is_rejected<E>(
    regions: Seq<(u64, usize, u64)>,
    iova: u64,
    gpa: u64,
    size: u64,
)
    requires
        !is_backed(regions, gpa, size),
    ensures
        forall|r: Result<DmaRequest, DmaMappingError<E>>|
            #[trigger] map_decision(regions, iova, gpa, size, r) ==> r == Err::<
                DmaRequest,
                DmaMappingError<E>,
            >(DmaMappingError::AddressTranslationFailure { gpa, size }),
{
    assert forall|r: Result<DmaRequest, DmaMappingError<E>>|
        #[trigger] map_decision(regions, iova, gpa, size, r) implies r == Err::<
            DmaRequest,
            DmaMappingError<E>,
        >(DmaMappingError::AddressTranslationFailure { gpa, size }) by {
        if let Ok(DmaRequest::MapDma { host_addr, .. }) = r {
            let i = choose|i: int|
                0 <= i < regions.len() && crate::memory::region_covers(
                    #[trigger] regions[i],
                    gpa,
                    size,
                ) && host_addr == crate::memory::host_address_in(regions[i], gpa);
            assert(crate::memory::region_covers(regions[i], gpa, size));
        }
    }
}

/// An unmap always sends `(iova, size)` to the container, and its result is
/// the container's: success as is, a failure wrapped with its cause intact.
pub proof fn lemma_unmap_passes_through<E>(iova: u64, size: u64, container: Result<(), E>)
    ensures
        unmap_outcome(iova, size, container) == (match container {
            Ok(()) => Ok::<(), DmaMappingError<E>>(()),
            Err(cause) => Err(
                DmaMappingError::ContainerOperationFailure {
                    operation: DmaOperation::UnmapDma,
                    iova,
                    gpa: None,
                    size,
                    cause,
                },
            ),
        }),
        unmap_outcome(iova, size, container) is Ok <==> container is Ok,
{
}

} // verus!
