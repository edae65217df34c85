//! Device handles and bus descriptors.
//!
//! A `AxDeviceEnum` is a successfully bound device: a tagged union over the
//! three device classes, each arm owning the driver instance selected at
//! probe time.  The bus descriptors are the read-only records a discovery
//! pass works from: a fixed MMIO range, or an enumerated PCI function with
//! its configuration-space identification and resolved BAR0.

use vstd::prelude::*;
use crate::ramdisk::ram_view;
use crate::ramdisk::ramdisk_num_blocks;
use crate::ramdisk::ramdisk_read_block;
use axdriver_block::ramdisk::RamDisk;

verus! {

/// The category of a device: every bound handle belongs to exactly one.
#[derive(Clone, Copy, PartialEq, Eq, Structural, Debug)]
pub enum DeviceClass {
    Net,
    Block,
    Display,
}

/// A PCI function identifier: the bus/device/function triple.
#[derive(Clone, Copy, PartialEq, Eq, Structural, Debug)]
pub struct PciAddress {
    pub bus: u8,
    pub device: u8,
    pub function: u8,
}

/// A fixed memory-mapped register window.
#[derive(Clone, Copy, PartialEq, Eq, Structural, Debug)]
pub struct MmioRange {
    pub base: usize,
    pub size: usize,
}

/// Resolved base-address-register information of a PCI function: either a
/// memory-mapped window or an I/O-mapped port range.  A DMA-capable driver
/// must check the kind before use; only a memory-mapped BAR is acceptable
/// to it.
#[derive(Clone, Copy, PartialEq, Eq, Structural, Debug)]
pub enum BarInfo {
    Memory { address: usize, size: usize },
    Io { port: u32 },
}

/// A discovered PCI function as the external bus walker reports it: its
/// identifier, its read-only vendor/device identification, and its resolved
/// BAR0.
#[derive(Clone, Copy, PartialEq, Eq, Structural, Debug)]
pub struct PciFunction {
    pub addr: PciAddress,
    pub vendor_id: u16,
    pub device_id: u16,
    pub bar0: BarInfo,
}

/// Where a bound device was discovered.
#[derive(Clone, Copy, PartialEq, Eq, Structural, Debug)]
pub enum Location {
    /// Not discovered via any bus: conjured by configuration.
    Global,
    /// A fixed board-configured MMIO range.
    Mmio { range: MmioRange },
    /// An enumerated PCI function, bound through its BAR0.
    Pci { addr: PciAddress, bar: BarInfo },
}

/// A bound network device: the driver that claimed it and where it was
/// found.
pub struct NetDevice {
    pub driver: u64,
    pub location: Location,
}

/// A bound display device.
pub struct DisplayDevice {
    pub driver: u64,
    pub location: Location,
}

/// A bound block device: either the RAM-backed driver instance itself, or a
/// bus-discovered device.
pub enum BlockDevice {
    Ram { driver: u64, disk: RamDisk },
    Bus { driver: u64, location: Location },
}

/// A successfully bound device of any class.  Once constructed the category
/// is immutable and the wrapped driver instance belongs to the handle.
pub enum AxDeviceEnum {
    Net(NetDevice),
    Block(BlockDevice),
    Display(DisplayDevice),
}

/// What backs a bound device, at the specification level.
pub enum SourceV {
    /// The RAM disk's byte contents.
    Ram { contents: Seq<u8> },
    /// A bus-discovered device at a location.
    Bus { location: Location },
}

/// Model of a bound device: its class, the identifier of the driver that
/// claimed it, and what backs it.
pub struct HandleV {
    pub class: DeviceClass,
    pub driver: u64,
    pub source: SourceV,
}

impl View for NetDevice {
    type V = HandleV;

    open spec fn view(&self) -> HandleV {
        HandleV {
            class: DeviceClass::Net,
            driver: self.driver,
            source: SourceV::Bus { location: self.location },
        }
    }
}

impl View for DisplayDevice {
    type V = HandleV;

    open spec fn view(&self) -> HandleV {
        HandleV {
            class: DeviceClass::Display,
            driver: self.driver,
            source: SourceV::Bus { location: self.location },
        }
    }
}

impl View for BlockDevice {
    type V = HandleV;

    open spec fn view(&self) -> HandleV {
        match self {
            BlockDevice::Ram { driver, disk } => HandleV {
                class: DeviceClass::Block,
                driver: *driver,
                source: SourceV::Ram { contents: ram_view(*disk) },
            },
            BlockDevice::Bus { driver, location } => HandleV {
                class: DeviceClass::Block,
                driver: *driver,
                source: SourceV::Bus { location: *location },
            },
        }
    }
}

impl View for AxDeviceEnum {
    type V = HandleV;

    open spec fn view(&self) -> HandleV {
        match self {
            AxDeviceEnum::Net(d) => d@,
            AxDeviceEnum::Block(d) => d@,
            AxDeviceEnum::Display(d) => d@,
        }
    }
}

impl AxDeviceEnum {
    /// Constructs a handle from a bound network device.
    pub fn from_net(dev: NetDevice) -> (r: AxDeviceEnum)
        ensures
            r@ == dev@,
    {
        AxDeviceEnum::Net(dev)
    }

    /// Constructs a handle from a bound block device.
    pub fn from_block(dev: BlockDevice) -> (r: AxDeviceEnum)
        ensures
            r@ == dev@,
    {
        AxDeviceEnum::Block(dev)
    }

    /// Constructs a handle from a bound display device.
    pub fn from_display(dev: DisplayDevice) -> (r: AxDeviceEnum)
        ensures
            r@ == dev@,
    {
        AxDeviceEnum::Display(dev)
    }

    /// The category of the bound device.
    pub fn class(&self) -> (r: DeviceClass)
        ensures
            r == self@.class,
    {
        match self {
            AxDeviceEnum::Net(_) => DeviceClass::Net,
            AxDeviceEnum::Block(_) => DeviceClass::Block,
            AxDeviceEnum::Display(_) => DeviceClass::Display,
        }
    }

    /// The identifier of the driver that claimed the device.
    pub fn driver_id(&self) -> (r: u64)
        ensures
            r == self@.driver,
    {
        match self {
            AxDeviceEnum::Net(d) => d.driver,
            AxDeviceEnum::Block(d) => match d {
                BlockDevice::Ram { driver, .. } => *driver,
                BlockDevice::Bus { driver, .. } => *driver,
            },
            AxDeviceEnum::Display(d) => d.driver,
        }
    }
}

impl BlockDevice {
    /// The number of 512-byte blocks the device holds; a bus-discovered
    /// block device reports no capacity in this model.
    pub fn num_blocks(&self) -> (r: u64)
        ensures
            self@.source matches SourceV::Ram { contents } ==> r as int == contents.len() as int
                / 512,
            self@.source is Bus ==> r == 0,
    {
        match self {
            BlockDevice::Ram { disk, .. } => ramdisk_num_blocks(disk),
            BlockDevice::Bus { .. } => 0,
        }
    }

    /// Reads whole blocks starting at `block_id` into `buf`, reporting
    /// whether the request was aligned and in bounds.  Only the RAM-backed
    /// driver can serve reads in this model.
    pub fn read_block(&mut self, block_id: u64, buf: &mut Vec<u8>) -> (r: bool)
        ensures
            final(self)@ == old(self)@,
            final(self)@.source matches SourceV::Ram { contents } ==> {
                &&& r <==> (old(buf)@.len() % 512 == 0 && block_id as int * 512 + old(buf)@.len()
                    <= contents.len())
                &&& r ==> final(buf)@ == contents.subrange(
                    block_id as int * 512,
                    block_id as int * 512 + old(buf)@.len(),
                )
            },
            final(self)@.source is Bus ==> !r,
            !r ==> final(buf)@ == old(buf)@,
    {
        match self {
            BlockDevice::Ram { disk, .. } => ramdisk_read_block(disk, block_id, buf),
            BlockDevice::Bus { .. } => false,
        }
    }
}

} // verus!
