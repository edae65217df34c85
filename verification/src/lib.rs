//! Device-discovery layer: locates hardware on MMIO and PCI buses, binds each
//! discovered device to a driver, and provides the DMA address-translation
//! adapter that DMA-capable drivers use for coherent transfers.

pub mod config;
pub mod device;
pub mod discovery;
pub mod dma;
pub mod ramdisk;
pub mod registry;
