use axdriver::config::build_registry;
use axdriver::config::DriverConfig;
use axdriver::config::IGB_DRIVER_ID;
use axdriver::config::IXGBE_DRIVER_ID;
use axdriver::config::RAMDISK_DRIVER_ID;
use axdriver::device::AxDeviceEnum;
use axdriver::device::BarInfo;
use axdriver::device::DeviceClass;
use axdriver::device::MmioRange;
use axdriver::device::PciAddress;
use axdriver::device::PciFunction;
use axdriver::discovery::discover;
use axdriver::discovery::partition_devices;
use axdriver::discovery::MmioAssignment;
use axdriver::registry::DriverProbe;
use axdriver::registry::GlobalProbe;
use axdriver::registry::MmioProbe;
use axdriver::registry::PciDeviceId;
use axdriver::registry::PciProbe;
use axdriver::registry::Registry;

fn stub_pci_probe(vendor_id: u16, device_id: u16, requires_memory_bar: bool) -> DriverProbe {
    DriverProbe {
        global: GlobalProbe::NoMatch,
        mmio: MmioProbe::NoMatch,
        pci: PciProbe {
            matches: vec![PciDeviceId { vendor_id, device_id }],
            requires_memory_bar,
        },
    }
}

fn function_at(device: u8, vendor_id: u16, device_id: u16, bar0: BarInfo) -> PciFunction {
    PciFunction {
        addr: PciAddress { bus: 0, device, function: 0 },
        vendor_id,
        device_id,
        bar0,
    }
}

#[test]
fn ramdisk_only_yields_one_block_handle() {
    let cfg = DriverConfig { ramdisk: true, ixgbe: false, igb: false };
    let reg = build_registry(&cfg);
    // Neither the MMIO pass nor the PCI pass contributes: the ramdisk
    // driver probes neither bus, and nothing else is registered.
    let mmio_config = vec![MmioAssignment {
        range: MmioRange { base: 0xfe00_0000, size: 0x1000 },
        driver_index: 0,
    }];
    let functions = vec![function_at(
        4,
        0x8086,
        0x10D3,
        BarInfo::Memory { address: 0xfebc_0000, size: 0x2_0000 },
    )];
    let devices = discover(&reg, &mmio_config, &functions);
    assert_eq!(devices.len(), 1);

    let set = partition_devices(devices);
    assert_eq!(set.net.len(), 0);
    assert_eq!(set.block.len(), 1);
    assert_eq!(set.display.len(), 0);

    let mut dev = set.block.into_iter().next().unwrap();
    assert!(matches!(dev.class(), DeviceClass::Block));
    assert_eq!(dev.driver_id(), RAMDISK_DRIVER_ID);
    match &mut dev {
        AxDeviceEnum::Block(block) => {
            // 16 MiB of 512-byte blocks, zero-initialized.
            assert_eq!(block.num_blocks(), 0x100_0000 / 512);
            let mut buf = vec![0xAAu8; 1024];
            assert!(block.read_block(0, &mut buf));
            assert!(buf.iter().all(|&b| b == 0));
            // A read past the end is refused.
            let mut tail = vec![0u8; 512];
            assert!(!block.read_block(0x100_0000 / 512, &mut tail));
            // An unaligned buffer is refused.
            let mut odd = vec![0u8; 100];
            assert!(!block.read_block(0, &mut odd));
        }
        _ => panic!("expected a block device"),
    }
}

#[test]
fn pci_memory_bar_binds_network_io_bar_does_not() {
    let mut reg = Registry::new();
    reg.register_net_driver(7, stub_pci_probe(0x8086, 0x10D3, true));
    let mmio_config: Vec<MmioAssignment> = Vec::new();

    let with_memory = function_at(
        3,
        0x8086,
        0x10D3,
        BarInfo::Memory { address: 0xfebc_0000, size: 0x2_0000 },
    );
    let devices = discover(&reg, &mmio_config, &vec![with_memory]);
    assert_eq!(devices.len(), 1);
    assert!(matches!(devices[0].class(), DeviceClass::Net));
    assert_eq!(devices[0].driver_id(), 7);

    let with_io = function_at(3, 0x8086, 0x10D3, BarInfo::Io { port: 0xc000 });
    let devices = discover(&reg, &mmio_config, &vec![with_io]);
    assert_eq!(devices.len(), 0);
}

#[test]
fn first_registered_driver_wins() {
    let mut reg = Registry::new();
    reg.register_net_driver(1, stub_pci_probe(0x8086, 0x10D3, true));
    reg.register_net_driver(2, stub_pci_probe(0x8086, 0x10D3, true));
    let mmio_config: Vec<MmioAssignment> = Vec::new();

    let func = function_at(
        0,
        0x8086,
        0x10D3,
        BarInfo::Memory { address: 0xfeb0_0000, size: 0x1_0000 },
    );
    let devices = discover(&reg, &mmio_config, &vec![func]);
    assert_eq!(devices.len(), 1);
    assert_eq!(devices[0].driver_id(), 1);
}

#[test]
fn unknown_identification_never_binds() {
    let cfg = DriverConfig { ramdisk: false, ixgbe: true, igb: true };
    let reg = build_registry(&cfg);
    let mmio_config: Vec<MmioAssignment> = Vec::new();

    let unknown = function_at(
        5,
        0x1234,
        0x5678,
        BarInfo::Memory { address: 0xfea0_0000, size: 0x1000 },
    );
    let devices = discover(&reg, &mmio_config, &vec![unknown]);
    assert_eq!(devices.len(), 0);
}

#[test]
fn configured_intel_controllers_bind_in_order() {
    let cfg = DriverConfig { ramdisk: true, ixgbe: true, igb: true };
    let reg = build_registry(&cfg);
    let mmio_config: Vec<MmioAssignment> = Vec::new();

    let functions = vec![
        function_at(1, 0x8086, 0x10C9, BarInfo::Memory { address: 0xfeb0_0000, size: 0x2_0000 }),
        function_at(2, 0x1234, 0x5678, BarInfo::Memory { address: 0xfea0_0000, size: 0x1000 }),
        function_at(3, 0x8086, 0x10FB, BarInfo::Memory { address: 0xfe90_0000, size: 0x8_0000 }),
    ];
    let devices = discover(&reg, &mmio_config, &functions);
    let set = partition_devices(devices);
    assert_eq!(set.block.len(), 1);
    assert_eq!(set.net.len(), 2);
    assert_eq!(set.display.len(), 0);
    // Functions keep enumeration order: the 82576 was enumerated first.
    assert_eq!(set.net[0].driver_id(), IGB_DRIVER_ID);
    assert_eq!(set.net[1].driver_id(), IXGBE_DRIVER_ID);
    assert_eq!(set.block[0].driver_id(), RAMDISK_DRIVER_ID);
}

#[test]
fn empty_registry_binds_nothing() {
    let reg = Registry::new();
    let mmio_config = vec![MmioAssignment {
        range: MmioRange { base: 0xfe00_0000, size: 0x1000 },
        driver_index: 0,
    }];
    let functions = vec![function_at(
        0,
        0x8086,
        0x10D3,
        BarInfo::Memory { address: 0xfebc_0000, size: 0x2_0000 },
    )];
    let devices = discover(&reg, &mmio_config, &functions);
    assert_eq!(devices.len(), 0);
}

#[test]
fn bound_handles_stay_within_evaluations() {
    let cfg = DriverConfig { ramdisk: true, ixgbe: true, igb: true };
    let reg = build_registry(&cfg);
    let mmio_config: Vec<MmioAssignment> = Vec::new();

    // Two separate 82576 controllers and one 82599.
    let functions = vec![
        function_at(1, 0x8086, 0x10C9, BarInfo::Memory { address: 0xfeb0_0000, size: 0x2_0000 }),
        function_at(2, 0x8086, 0x10C9, BarInfo::Memory { address: 0xfea0_0000, size: 0x2_0000 }),
        function_at(3, 0x8086, 0x10FB, BarInfo::Memory { address: 0xfe90_0000, size: 0x8_0000 }),
    ];
    let devices = discover(&reg, &mmio_config, &functions);
    let set = partition_devices(devices);
    // Per class, never more handles than driver evaluations: one per driver
    // of the class in the global pass and one per enumerated PCI function.
    assert!(set.net.len() <= 2 + functions.len());
    assert!(set.block.len() <= 1 + functions.len());
    assert_eq!(set.net.len(), 3);
    assert_eq!(set.block.len(), 1);
    // A class with no registered driver binds nothing at all.
    assert_eq!(set.display.len(), 0);
}

#[test]
fn mmio_assignment_binds_assigned_driver() {
    let mut reg = Registry::new();
    reg.register_display_driver(
        9,
        DriverProbe {
            global: GlobalProbe::NoMatch,
            mmio: MmioProbe::Fixed,
            pci: PciProbe { matches: Vec::new(), requires_memory_bar: false },
        },
    );
    let functions: Vec<PciFunction> = Vec::new();

    let assigned = MmioAssignment {
        range: MmioRange { base: 0xfe00_0000, size: 0x1000 },
        driver_index: 0,
    };
    let devices = discover(&reg, &vec![assigned], &functions);
    assert_eq!(devices.len(), 1);
    assert!(matches!(devices[0].class(), DeviceClass::Display));
    assert_eq!(devices[0].driver_id(), 9);

    // An assignment naming no registered driver binds nothing.
    let dangling = MmioAssignment {
        range: MmioRange { base: 0xfe00_0000, size: 0x1000 },
        driver_index: 5,
    };
    let devices = discover(&reg, &vec![dangling], &functions);
    assert_eq!(devices.len(), 0);
}
