//! Translation of guest-physical ranges to host virtual addresses, and the
//! decisions of a DMA mapping adapter that forwards map and unmap requests to
//! an IOMMU container.

pub mod memory;
pub mod dma_mapping;
