//! Driver registry and probe capability.
//!
//! A registry entry pairs a device class with the probe capability of one
//! driver; entries are appended once, at configuration time, and the
//! registry is read-only afterwards.  Each probe operation either binds a
//! device and returns its handle or reports "no match" — absence of a match
//! is never an error.

use vstd::prelude::*;
use crate::device::AxDeviceEnum;
use crate::device::BarInfo;
use crate::device::BlockDevice;
use crate::device::DeviceClass;
use crate::device::DisplayDevice;
use crate::device::HandleV;
use crate::device::Location;
use crate::device::MmioRange;
use crate::device::NetDevice;
use crate::device::PciFunction;
use crate::device::SourceV;
use crate::ramdisk::ramdisk_new;
use crate::ramdisk::spec_align_up_512;

verus! {

/// One exact vendor/device identification a driver recognizes.  Matching is
/// by equality of both fields; there is no wildcard or best-effort match.
#[derive(Clone, Copy, PartialEq, Eq, Structural, Debug)]
pub struct PciDeviceId {
    pub vendor_id: u16,
    pub device_id: u16,
}

/// How a driver answers the global (bus-less) probe.
#[derive(Clone, Copy, PartialEq, Eq, Structural, Debug)]
pub enum GlobalProbe {
    /// The default: the driver binds nothing without a bus.
    NoMatch,
    /// The driver conjures a RAM-backed block device of this size.
    Ramdisk { size_hint: usize },
}

/// How a driver answers the fixed-MMIO probe.
#[derive(Clone, Copy, PartialEq, Eq, Structural, Debug)]
pub enum MmioProbe {
    /// The default: the driver does not live at a fixed MMIO range.
    NoMatch,
    /// The driver binds whatever region the board configuration assigns to
    /// it.
    Fixed,
}

/// How a driver answers the PCI probe: the identifications it recognizes,
/// and whether it performs DMA and therefore requires BAR0 to be
/// memory-mapped.  An empty match list is the default "no match".
pub struct PciProbe {
    pub matches: Vec<PciDeviceId>,
    pub requires_memory_bar: bool,
}

/// The probe capability of one driver: the subset of discovery operations
/// it implements.  Unimplemented operations keep the default "no match", so
/// the orchestrator can try every driver across every discovery mechanism
/// uniformly.
pub struct DriverProbe {
    pub global: GlobalProbe,
    pub mmio: MmioProbe,
    pub pci: PciProbe,
}

/// One registry entry: a device class and a probe capability, under a
/// driver identifier that bound handles carry.
pub struct RegistryEntry {
    pub class: DeviceClass,
    pub id: u64,
    pub probe: DriverProbe,
}

/// Model of one registry entry.
pub struct EntryV {
    pub class: DeviceClass,
    pub id: u64,
    pub global: GlobalProbe,
    pub mmio: MmioProbe,
    pub pci_matches: Seq<PciDeviceId>,
    pub pci_requires_memory_bar: bool,
}

impl View for RegistryEntry {
    type V = EntryV;

    open spec fn view(&self) -> EntryV {
        EntryV {
            class: self.class,
            id: self.id,
            global: self.probe.global,
            mmio: self.probe.mmio,
            pci_matches: self.probe.pci.matches@,
            pci_requires_memory_bar: self.probe.pci.requires_memory_bar,
        }
    }
}

/// A well-formed entry: only a block driver conjures the RAM disk, and its
/// size hint leaves room for alignment within an allocatable layout.
pub open spec fn spec_entry_wf(e: EntryV) -> bool {
    e.global matches GlobalProbe::Ramdisk { size_hint } ==> {
        &&& e.class == DeviceClass::Block
        &&& size_hint + 511 <= usize::MAX / 2
    }
}

/// Whether `ids` lists exactly this vendor/device identification.
pub open spec fn spec_id_listed(ids: Seq<PciDeviceId>, vendor_id: u16, device_id: u16) -> bool {
    exists|i: int|
        0 <= i < ids.len() && ids[i].vendor_id == vendor_id && ids[i].device_id == device_id
}

/// Whether the resolved BAR is of a kind the driver can use: a driver that
/// requires memory-mapped access never accepts an I/O-mapped BAR.
pub open spec fn spec_bar_usable(e: EntryV, bar: BarInfo) -> bool {
    !e.pci_requires_memory_bar || bar is Memory
}

/// Whether the driver of entry `e` claims PCI function `f`: its
/// identification is listed exactly, and its BAR0 kind is usable.
pub open spec fn spec_pci_accepts(e: EntryV, f: PciFunction) -> bool {
    spec_id_listed(e.pci_matches, f.vendor_id, f.device_id) && spec_bar_usable(e, f.bar0)
}

/// The handle a driver produces for a bus-discovered device.
pub open spec fn spec_bus_handle(e: EntryV, location: Location) -> HandleV {
    HandleV { class: e.class, driver: e.id, source: SourceV::Bus { location } }
}

/// What the global probe of entry `e` binds: the RAM-backed block device if
/// the driver conjures one, otherwise nothing.
pub open spec fn spec_probe_global(e: EntryV) -> Option<HandleV> {
    match e.global {
        GlobalProbe::NoMatch => None,
        GlobalProbe::Ramdisk { size_hint } => Some(
            HandleV {
                class: e.class,
                driver: e.id,
                source: SourceV::Ram {
                    contents: Seq::new(
                        spec_align_up_512(size_hint as int) as nat,
                        |i: int| 0u8,
                    ),
                },
            },
        ),
    }
}

/// What the MMIO probe of entry `e` binds for a given fixed region.
pub open spec fn spec_probe_mmio(e: EntryV, range: MmioRange) -> Option<HandleV> {
    match e.mmio {
        MmioProbe::NoMatch => None,
        MmioProbe::Fixed => Some(spec_bus_handle(e, Location::Mmio { range })),
    }
}

/// What the PCI probe of entry `e` binds for a discovered function: a
/// handle exactly when the entry accepts the function.
pub open spec fn spec_probe_pci(e: EntryV, f: PciFunction) -> Option<HandleV> {
    if spec_pci_accepts(e, f) {
        Some(spec_bus_handle(e, Location::Pci { addr: f.addr, bar: f.bar0 }))
    } else {
        None
    }
}

impl RegistryEntry {
    pub open spec fn wf(&self) -> bool {
        spec_entry_wf(self@)
    }

    /// Builds the handle for a bus-discovered device of this entry's class.
    fn bind_at(&self, location: Location) -> (r: AxDeviceEnum)
        ensures
            r@ == spec_bus_handle(self@, location),
    {
        match self.class {
            DeviceClass::Net => AxDeviceEnum::Net(NetDevice { driver: self.id, location }),
            DeviceClass::Block => AxDeviceEnum::Block(
                BlockDevice::Bus { driver: self.id, location },
            ),
            DeviceClass::Display => AxDeviceEnum::Display(
                DisplayDevice { driver: self.id, location },
            ),
        }
    }

    /// Attempts to bind a device that no bus discovers.  Only a driver that
    /// conjures one from configuration answers; the default is "no match".
    pub fn probe_global(&self) -> (r: Option<AxDeviceEnum>)
        requires
            self.wf(),
        ensures
            match r {
                None => spec_probe_global(self@) is None,
                Some(h) => spec_probe_global(self@) == Some(h@),
            },
    {
        match self.probe.global {
            GlobalProbe::NoMatch => None,
            GlobalProbe::Ramdisk { size_hint } => Some(
                AxDeviceEnum::Block(BlockDevice::Ram { driver: self.id, disk: ramdisk_new(size_hint) }),
            ),
        }
    }

    /// Attempts to bind a device at a fixed, pre-known memory-mapped range.
    pub fn probe_mmio(&self, mmio_base: usize, mmio_size: usize) -> (r: Option<AxDeviceEnum>)
        ensures
            match r {
                None => spec_probe_mmio(
                    self@,
                    MmioRange { base: mmio_base, size: mmio_size },
                ) is None,
                Some(h) => spec_probe_mmio(self@, MmioRange { base: mmio_base, size: mmio_size })
                    == Some(h@),
            },
    {
        match self.probe.mmio {
            MmioProbe::NoMatch => None,
            MmioProbe::Fixed => Some(
                self.bind_at(
                    Location::Mmio { range: MmioRange { base: mmio_base, size: mmio_size } },
                ),
            ),
        }
    }

    /// Attempts to bind an enumerated PCI function: the driver claims it
    /// exactly when the vendor/device identification is in its match list
    /// and BAR0 is of a kind it can use.  A DMA-requiring driver reports
    /// "no match" for an I/O-mapped BAR0 rather than falling back to I/O
    /// access.
    pub fn probe_pci(&self, function: &PciFunction) -> (r: Option<AxDeviceEnum>)
        ensures
            match r {
                None => spec_probe_pci(self@, *function) is None,
                Some(h) => spec_probe_pci(self@, *function) == Some(h@),
            },
            r is Some <==> spec_pci_accepts(self@, *function),
    {
        if !self.pci_id_listed(function.vendor_id, function.device_id) {
            return None;
        }
        if self.probe.pci.requires_memory_bar {
            match function.bar0 {
                BarInfo::Memory { .. } => {},
                BarInfo::Io { .. } => {
                    return None;
                },
            }
        }
        Some(self.bind_at(Location::Pci { addr: function.addr, bar: function.bar0 }))
    }

    /// Whether this driver's match list holds the identification exactly.
    fn pci_id_listed(&self, vendor_id: u16, device_id: u16) -> (r: bool)
        ensures
            r == spec_id_listed(self@.pci_matches, vendor_id, device_id),
    {
        let mut i: usize = 0;
        while i < self.probe.pci.matches.len()
            invariant
                i <= self.probe.pci.matches@.len(),
                forall|k: int|
                    0 <= k < i ==> !(self.probe.pci.matches@[k].vendor_id == vendor_id
                        && self.probe.pci.matches@[k].device_id == device_id),
            decreases self.probe.pci.matches@.len() - i,
        {
            let id = self.probe.pci.matches[i];
            if id.vendor_id == vendor_id && id.device_id == device_id {
                return true;
            }
            i = i + 1;
        }
        false
    }
}

/// The per-class, ordered list of drivers compiled into this configuration.
/// Order reflects configuration priority: when two drivers could claim the
/// same device, the first registered wins.  Built once, before any probing;
/// consulted, never mutated, during discovery.
pub struct Registry {
    entries: Vec<RegistryEntry>,
}

impl View for Registry {
    type V = Seq<EntryV>;

    closed spec fn view(&self) -> Seq<EntryV> {
        self.entries@.map_values(|e: RegistryEntry| e@)
    }
}

impl Registry {
    pub open spec fn wf(&self) -> bool {
        forall|i: int| 0 <= i < self@.len() ==> spec_entry_wf(#[trigger] self@[i])
    }

    /// An empty registry.
    pub fn new() -> (r: Registry)
        ensures
            r@ == Seq::<EntryV>::empty(),
            r.wf(),
    {
        let r = Registry { entries: Vec::new() };
        proof {
            assert(r@ =~= Seq::<EntryV>::empty());
        }
        r
    }

    /// Appends one entry; used by the per-class registration operations.
    fn register(&mut self, entry: RegistryEntry)
        requires
            old(self).wf(),
            spec_entry_wf(entry@),
        ensures
            final(self).wf(),
            final(self)@ == old(self)@.push(entry@),
    {
        let ghost entry_v = entry@;
        self.entries.push(entry);
        proof {
            assert(self@ =~= old(self)@.push(entry_v));
        }
    }

    /// Registers a network driver with the given probe capability, after
    /// every driver registered so far.
    pub fn register_net_driver(&mut self, id: u64, probe: DriverProbe)
        requires
            old(self).wf(),
            probe.global is NoMatch,
        ensures
            final(self).wf(),
            final(self)@ == old(self)@.push(
                (RegistryEntry { class: DeviceClass::Net, id, probe })@,
            ),
    {
        self.register(RegistryEntry { class: DeviceClass::Net, id, probe });
    }

    /// Registers a block driver with the given probe capability, after
    /// every driver registered so far.  A driver that conjures the RAM disk
    /// must leave room to align its size hint.
    pub fn register_block_driver(&mut self, id: u64, probe: DriverProbe)
        requires
            old(self).wf(),
            probe.global matches GlobalProbe::Ramdisk { size_hint } ==> size_hint + 511
                <= usize::MAX / 2,
        ensures
            final(self).wf(),
            final(self)@ == old(self)@.push(
                (RegistryEntry { class: DeviceClass::Block, id, probe })@,
            ),
    {
        self.register(RegistryEntry { class: DeviceClass::Block, id, probe });
    }

    /// Registers a display driver with the given probe capability, after
    /// every driver registered so far.
    pub fn register_display_driver(&mut self, id: u64, probe: DriverProbe)
        requires
            old(self).wf(),
            probe.global is NoMatch,
        ensures
            final(self).wf(),
            final(self)@ == old(self)@.push(
                (RegistryEntry { class: DeviceClass::Display, id, probe })@,
            ),
    {
        self.register(RegistryEntry { class: DeviceClass::Display, id, probe });
    }

    /// The number of registered drivers.
    pub fn len(&self) -> (r: usize)
        ensures
            r == self@.len(),
    {
        self.entries.len()
    }

    /// The entry registered at position `i`.
    pub fn entry(&self, i: usize) -> (r: &RegistryEntry)
        requires
            i < self@.len(),
        ensures
            r@ == self@[i as int],
    {
        &self.entries[i]
    }
}

} // verus!
