//! Driver configuration.
//!
//! Which drivers are compiled into a build is configuration, not a runtime
//! algorithm; this module states it as an explicit struct and builds the
//! registry from it, in a fixed registration order, so the registry stays
//! constructible and testable.  The PCI identifications are the exact
//! vendor/device pairs the two Intel NIC drivers recognize; both are
//! DMA-capable and therefore require a memory-mapped BAR0.

use vstd::prelude::*;
use crate::registry::DriverProbe;
use crate::registry::EntryV;
use crate::registry::GlobalProbe;
use crate::registry::MmioProbe;
use crate::registry::PciDeviceId;
use crate::registry::PciProbe;
use crate::registry::Registry;
use crate::device::DeviceClass;

verus! {

/// The PCI vendor identification of Intel.
pub const INTEL_VEND: u16 = 0x8086;

/// The device identification of the 82599 10-gigabit controller (ixgbe).
pub const INTEL_82599: u16 = 0x10FB;

/// The device identification of the 82576 gigabit controller (igb).
pub const INTEL_82576: u16 = 0x10C9;

/// The size of the RAM-backed block device: 16 MiB.
pub const RAMDISK_SIZE: usize = 0x100_0000;

/// The driver identifier the RAM disk driver binds under.
pub const RAMDISK_DRIVER_ID: u64 = 1;

/// The driver identifier the ixgbe driver binds under.
pub const IXGBE_DRIVER_ID: u64 = 2;

/// The driver identifier the igb driver binds under.
pub const IGB_DRIVER_ID: u64 = 3;

/// Which drivers this build enables, per device class.
#[derive(Clone, Copy, PartialEq, Eq, Structural, Debug)]
pub struct DriverConfig {
    /// The RAM-backed block driver, bound by the global pass.
    pub ramdisk: bool,
    /// The Intel 82599 10-gigabit network driver, bound over PCI.
    pub ixgbe: bool,
    /// The Intel 82576 gigabit network driver, bound over PCI.
    pub igb: bool,
}

/// The registry entry of the RAM disk driver.
pub open spec fn spec_ramdisk_entry() -> EntryV {
    EntryV {
        class: DeviceClass::Block,
        id: RAMDISK_DRIVER_ID,
        global: GlobalProbe::Ramdisk { size_hint: RAMDISK_SIZE },
        mmio: MmioProbe::NoMatch,
        pci_matches: Seq::empty(),
        pci_requires_memory_bar: false,
    }
}

/// The registry entry of the ixgbe driver.
pub open spec fn spec_ixgbe_entry() -> EntryV {
    EntryV {
        class: DeviceClass::Net,
        id: IXGBE_DRIVER_ID,
        global: GlobalProbe::NoMatch,
        mmio: MmioProbe::NoMatch,
        pci_matches: seq![PciDeviceId { vendor_id: INTEL_VEND, device_id: INTEL_82599 }],
        pci_requires_memory_bar: true,
    }
}

/// The registry entry of the igb driver.
pub open spec fn spec_igb_entry() -> EntryV {
    EntryV {
        class: DeviceClass::Net,
        id: IGB_DRIVER_ID,
        global: GlobalProbe::NoMatch,
        mmio: MmioProbe::NoMatch,
        pci_matches: seq![PciDeviceId { vendor_id: INTEL_VEND, device_id: INTEL_82576 }],
        pci_requires_memory_bar: true,
    }
}

/// The registry a configuration yields: the enabled drivers, in the fixed
/// registration order ramdisk, ixgbe, igb.
pub open spec fn spec_registry_for(cfg: DriverConfig) -> Seq<EntryV> {
    (if cfg.ramdisk {
        seq![spec_ramdisk_entry()]
    } else {
        Seq::empty()
    }) + (if cfg.ixgbe {
        seq![spec_ixgbe_entry()]
    } else {
        Seq::empty()
    }) + (if cfg.igb {
        seq![spec_igb_entry()]
    } else {
        Seq::empty()
    })
}

/// Builds the registry for a configuration, registering the enabled
/// drivers in the fixed order.
pub fn build_registry(cfg: &DriverConfig) -> (r: Registry)
    ensures
        r.wf(),
        r@ == spec_registry_for(*cfg),
{
    let mut reg = Registry::new();
    if cfg.ramdisk {
        reg.register_block_driver(
            RAMDISK_DRIVER_ID,
            DriverProbe {
                global: GlobalProbe::Ramdisk { size_hint: RAMDISK_SIZE },
                mmio: MmioProbe::NoMatch,
                pci: PciProbe { matches: Vec::new(), requires_memory_bar: false },
            },
        );
    }
    if cfg.ixgbe {
        let mut ids: Vec<PciDeviceId> = Vec::new();
        ids.push(PciDeviceId { vendor_id: INTEL_VEND, device_id: INTEL_82599 });
        reg.register_net_driver(
            IXGBE_DRIVER_ID,
            DriverProbe {
                global: GlobalProbe::NoMatch,
                mmio: MmioProbe::NoMatch,
                pci: PciProbe { matches: ids, requires_memory_bar: true },
            },
        );
    }
    if cfg.igb {
        let mut ids: Vec<PciDeviceId> = Vec::new();
        ids.push(PciDeviceId { vendor_id: INTEL_VEND, device_id: INTEL_82576 });
        reg.register_net_driver(
            IGB_DRIVER_ID,
            DriverProbe {
                global: GlobalProbe::NoMatch,
                mmio: MmioProbe::NoMatch,
                pci: PciProbe { matches: ids, requires_memory_bar: true },
            },
        );
    }
    proof {
        assert(reg@ =~= spec_registry_for(*cfg));
    }
    reg
}

} // verus!
