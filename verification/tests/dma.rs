use axdriver::dma::DmaAdapter;

#[test]
fn conversion_roundtrip() {
    let adapter = DmaAdapter::new(0xffff_0000_0000, 0x1000, 0x10000);
    let paddr: usize = 0x8_2000;
    let vaddr = adapter.mmio_to_virtual(paddr);
    assert_eq!(vaddr, 0xffff_0008_2000);
    assert_eq!(adapter.virtual_to_mmio(vaddr), paddr);
}

#[test]
fn alloc_dealloc_conserves_bytes() {
    let mut adapter = DmaAdapter::new(0x100, 0x1000, 0x1000);
    assert_eq!(adapter.allocated_bytes(), 0);

    let (bus, vaddr) = adapter.allocate_coherent(0x200);
    assert_eq!(bus, 0x1000);
    assert_eq!(vaddr, 0x1100);
    assert_eq!(adapter.allocated_bytes(), 0x200);

    let (bus2, vaddr2) = adapter.allocate_coherent(0x80);
    assert_eq!(bus2, 0x1200);
    assert_eq!(vaddr2, 0x1300);
    assert_eq!(adapter.allocated_bytes(), 0x280);

    adapter.deallocate_coherent(bus, vaddr, 0x200);
    assert_eq!(adapter.allocated_bytes(), 0x80);
    adapter.deallocate_coherent(bus2, vaddr2, 0x80);
    assert_eq!(adapter.allocated_bytes(), 0);
}

#[test]
fn allocation_failure_sentinel() {
    let mut adapter = DmaAdapter::new(0, 0x1000, 0x100);

    assert_eq!(adapter.allocate_coherent(0), (0, 0));
    assert_eq!(adapter.allocate_coherent(0x101), (0, 0));
    assert_eq!(adapter.allocated_bytes(), 0);

    let (bus, _vaddr) = adapter.allocate_coherent(0x100);
    assert_ne!(bus, 0);
    assert_eq!(adapter.allocated_bytes(), 0x100);

    assert_eq!(adapter.allocate_coherent(1), (0, 0));
    assert_eq!(adapter.allocated_bytes(), 0x100);
}

#[test]
fn deallocate_out_of_order() {
    let mut adapter = DmaAdapter::new(0x10, 0x2000, 0x1000);
    let (b1, v1) = adapter.allocate_coherent(0x100);
    let (b2, v2) = adapter.allocate_coherent(0x200);
    let (b3, v3) = adapter.allocate_coherent(0x40);
    assert_eq!(adapter.allocated_bytes(), 0x340);

    adapter.deallocate_coherent(b2, v2, 0x200);
    assert_eq!(adapter.allocated_bytes(), 0x140);
    adapter.deallocate_coherent(b3, v3, 0x40);
    assert_eq!(adapter.allocated_bytes(), 0x100);
    adapter.deallocate_coherent(b1, v1, 0x100);
    assert_eq!(adapter.allocated_bytes(), 0);
}

#[test]
fn wait_until_always_succeeds() {
    let adapter = DmaAdapter::new(0, 1, 1);
    assert!(adapter.wait_until(1_000_000).is_ok());
}
