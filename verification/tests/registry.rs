use axdriver::device::AxDeviceEnum;
use axdriver::device::BarInfo;
use axdriver::device::BlockDevice;
use axdriver::device::DeviceClass;
use axdriver::device::DisplayDevice;
use axdriver::device::Location;
use axdriver::device::MmioRange;
use axdriver::device::NetDevice;
use axdriver::device::PciAddress;
use axdriver::device::PciFunction;
use axdriver::registry::DriverProbe;
use axdriver::registry::GlobalProbe;
use axdriver::registry::MmioProbe;
use axdriver::registry::PciProbe;
use axdriver::registry::Registry;

fn default_probe() -> DriverProbe {
    DriverProbe {
        global: GlobalProbe::NoMatch,
        mmio: MmioProbe::NoMatch,
        pci: PciProbe { matches: Vec::new(), requires_memory_bar: false },
    }
}

#[test]
fn registration_is_append_only() {
    let mut reg = Registry::new();
    assert_eq!(reg.len(), 0);
    reg.register_net_driver(1, default_probe());
    reg.register_block_driver(2, default_probe());
    reg.register_display_driver(3, default_probe());
    assert_eq!(reg.len(), 3);
    assert_eq!(reg.entry(0).id, 1);
    assert_eq!(reg.entry(1).id, 2);
    assert_eq!(reg.entry(2).id, 3);
}

#[test]
fn default_probe_operations_never_match() {
    let mut reg = Registry::new();
    reg.register_net_driver(1, default_probe());
    let entry = reg.entry(0);
    assert!(entry.probe_global().is_none());
    assert!(entry.probe_mmio(0x1000_0000, 0x1000).is_none());
    let function = PciFunction {
        addr: PciAddress { bus: 0, device: 0, function: 0 },
        vendor_id: 0x8086,
        device_id: 0x10D3,
        bar0: BarInfo::Memory { address: 0xfebc_0000, size: 0x2_0000 },
    };
    assert!(entry.probe_pci(&function).is_none());
}

#[test]
fn handle_constructors_preserve_class_and_driver() {
    let net = AxDeviceEnum::from_net(NetDevice { driver: 4, location: Location::Global });
    assert!(matches!(net.class(), DeviceClass::Net));
    assert_eq!(net.driver_id(), 4);

    let block = AxDeviceEnum::from_block(BlockDevice::Bus {
        driver: 5,
        location: Location::Mmio { range: MmioRange { base: 0x1000, size: 0x100 } },
    });
    assert!(matches!(block.class(), DeviceClass::Block));
    assert_eq!(block.driver_id(), 5);

    let display = AxDeviceEnum::from_display(DisplayDevice { driver: 6, location: Location::Global });
    assert!(matches!(display.class(), DeviceClass::Display));
    assert_eq!(display.driver_id(), 6);
}
