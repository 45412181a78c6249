use vmm_mmio::manager::{AttachedDevice, DeviceType, Error, MMIODeviceManager};
use vmm_mmio::manager::ioevent_requests;
use vmm_mmio::memory::{GuestAddress, GuestMemory};
use vmm_mmio::cmdline::Cmdline;
use vmm_mmio::virtio::{Block, DummyDevice, VirtioDevice};
use vmm_mmio::transport::VIRTIO_MMIO_INT_CONFIG;
use vmm_mmio::MMIO_LEN;

const IRQ_BASE: u32 = 5;
const IRQ_MAX: u32 = 23;

fn test_memory() -> GuestMemory {
    let start_addr1 = GuestAddress(0x0);
    let start_addr2 = GuestAddress(0x1000);
    GuestMemory::new(&[(start_addr1, 0x1000), (start_addr2, 0x1000)]).unwrap()
}

#[test]
fn register_device() {
    let guest_mem = test_memory();
    let mut device_manager = MMIODeviceManager::new(guest_mem, 0xd000_0000, (IRQ_BASE, IRQ_MAX));

    let mut cmdline = Cmdline::new(4096);
    let dummy = DummyDevice { dummy: 0 };

    assert!(device_manager
        .register_virtio_device(dummy, vec![101], 102, &mut cmdline, "dummy")
        .is_ok());
}

#[test]
fn register_too_many_devices() {
    let guest_mem = test_memory();
    let mut device_manager = MMIODeviceManager::new(guest_mem, 0xd000_0000, (IRQ_BASE, IRQ_MAX));

    let mut cmdline = Cmdline::new(4096);
    let dummy = DummyDevice { dummy: 0 };
    for _i in IRQ_BASE..=IRQ_MAX {
        device_manager
            .register_virtio_device(dummy, vec![101], 102, &mut cmdline, "dummy1")
            .unwrap();
    }
    assert_eq!(
        device_manager
            .register_virtio_device(dummy, vec![101], 102, &mut cmdline, "dummy2")
            .unwrap_err()
            .describe(),
        "no more IRQs are available".to_string()
    );
}

#[test]
fn test_dummy_device() {
    let mut dummy = DummyDevice { dummy: 0 };
    assert_eq!(dummy.device_type(), 0);
    assert_eq!(dummy.queue_max_sizes(), vec![64u16]);

    // test activate
    let m = GuestMemory::new(&[(GuestAddress(0), 0x1000)]).unwrap();
    let queue_evts = vec![103u64];
    let result = dummy.activate(m.clone(), 104, Vec::with_capacity(1), queue_evts);
    assert!(result.is_ok());
}

#[test]
fn test_error_messages() {
    let guest_mem = test_memory();
    let device_manager: MMIODeviceManager<DummyDevice> =
        MMIODeviceManager::new(guest_mem, 0xd000_0000, (IRQ_BASE, IRQ_MAX));
    let mut cmdline = Cmdline::new(4096);
    let e = Error::Cmdline(
        cmdline
            .insert(
                "virtio_mmio=device",
                &format!(
                    "{}K@0x{:08x}:{}",
                    MMIO_LEN / 1024,
                    device_manager.mmio_base,
                    device_manager.irq
                ),
            )
            .unwrap_err(),
    );
    assert_eq!(
        e.describe(),
        "unable to add device to kernel command line: string contains an equals sign".to_string(),
    );
    assert_eq!(
        Error::UpdateFailed.describe(),
        "failed to update the mmio device".to_string()
    );
    assert_eq!(
        Error::BusError(vmm_mmio::bus::BusError::Overlap).describe(),
        "failed to perform bus operation: new device overlaps with an old device".to_string()
    );
    assert_eq!(
        Error::CreateMmioDevice(0).describe(),
        "failed to create mmio device: os error 0".to_string()
    );
    assert_eq!(
        Error::IrqsExhausted.describe(),
        "no more IRQs are available".to_string()
    );
    assert_eq!(
        Error::RegisterIoEvent(0).describe(),
        "failed to register IO event: os error 0".to_string()
    );
    assert_eq!(
        Error::RegisterIrqFd(0).describe(),
        "failed to register irqfd: os error 0".to_string()
    );
    assert_eq!(
        Error::EventFd(-3).describe(),
        "failed to create or clone event descriptor: os error -3".to_string()
    );
}

#[test]
fn test_update_drive() {
    let guest_mem = test_memory();
    let mut device_manager = MMIODeviceManager::new(guest_mem, 0xd000_0000, (IRQ_BASE, IRQ_MAX));
    let mut cmdline = Cmdline::new(4096);
    let dummy = DummyDevice { dummy: 0 };

    if let Ok(addr) =
        device_manager.register_virtio_device(dummy, vec![101], 102, &mut cmdline, "foo")
    {
        assert!(device_manager.update_drive(addr, 1_048_576).is_ok());
    }
    assert!(device_manager.update_drive(0xbeef, 1_048_576).is_err());
}

#[test]
fn test_device_info() {
    let guest_mem = test_memory();
    let mut device_manager = MMIODeviceManager::new(guest_mem, 0xd000_0000, (IRQ_BASE, IRQ_MAX));
    let mut cmdline = Cmdline::new(4096);
    let dummy = DummyDevice { dummy: 0 };

    let id = String::from("foo");
    if let Ok(addr) =
        device_manager.register_virtio_device(dummy, vec![101], 102, &mut cmdline, &id)
    {
        assert_eq!(Some(addr), device_manager.get_address(&id));
        let info = &device_manager
            .get_device_info()
            .iter()
            .find(|entry| entry.0 == id)
            .unwrap()
            .1;
        assert_eq!(addr, info.addr());
        assert_eq!(IRQ_BASE, info.irq());
        assert_eq!(MMIO_LEN, info.length());
        assert_eq!(DeviceType::Virtio, info.type_());
    }
    let id = "bar";
    assert_eq!(None, device_manager.get_address(id));
}

#[test]
fn single_virtio_block_discovery() {
    let guest_mem = test_memory();
    let mut device_manager = MMIODeviceManager::new(guest_mem, 0xd000_0000, (5, 23));
    let mut cmdline = Cmdline::new(4096);
    let block = Block::new(0x20_0000);

    let addr = device_manager
        .register_virtio_device(block, vec![101], 102, &mut cmdline, "rootfs")
        .unwrap();
    assert_eq!(addr, 0xd000_0000);
    assert_eq!(device_manager.get_address("rootfs"), Some(0xd000_0000));
    assert_eq!(
        cmdline.as_bytes().as_slice(),
        b"virtio_mmio.device=4K@0xd0000000:5"
    );
}

#[test]
fn irq_exhaustion() {
    let guest_mem = test_memory();
    let mut device_manager = MMIODeviceManager::new(guest_mem, 0xd000_0000, (5, 23));
    let mut cmdline = Cmdline::new(4096);
    for i in 0..19u32 {
        let id = format!("disk{}", i);
        let addr = device_manager
            .register_virtio_device(Block::new(0x1000), vec![101], 102, &mut cmdline, &id)
            .unwrap();
        assert_eq!(addr, 0xd000_0000 + u64::from(i) * MMIO_LEN);
    }
    let err = device_manager
        .register_virtio_device(Block::new(0x1000), vec![101], 102, &mut cmdline, "one_more")
        .unwrap_err();
    assert_eq!(err, Error::IrqsExhausted);
    assert_eq!(err.describe(), "no more IRQs are available".to_string());
}

#[test]
fn update_unknown_address() {
    let guest_mem = test_memory();
    let mut device_manager: MMIODeviceManager<Block> =
        MMIODeviceManager::new(guest_mem, 0xd000_0000, (5, 23));
    assert_eq!(
        device_manager.update_drive(0xbeef, 1_048_576),
        Err(Error::UpdateFailed)
    );
}

#[test]
fn successful_update() {
    let guest_mem = test_memory();
    let mut device_manager = MMIODeviceManager::new(guest_mem, 0xd000_0000, (5, 23));
    let mut cmdline = Cmdline::new(4096);
    let block = Block::new(0x10_0000);
    let addr = device_manager
        .register_virtio_device(block, vec![101], 102, &mut cmdline, "rootfs")
        .unwrap();

    assert!(device_manager.update_drive(addr, 1_048_576).is_ok());

    // 1_048_576 bytes are 2048 sectors; little endian
    let mut buf = vec![0xffu8; 8];
    assert!(device_manager.mmio_read(addr + 0x100, &mut buf));
    assert_eq!(buf, vec![0x00, 0x08, 0x00, 0x00, 0x00, 0x00, 0x00, 0x00]);

    match &device_manager.bus.entries[0].device {
        AttachedDevice::Virtio(t) => {
            assert!(t.interrupt_status & VIRTIO_MMIO_INT_CONFIG != 0);
        }
        _ => panic!("expected a virtio device on the bus"),
    }
}

#[test]
fn dropped_access_on_unmapped_address() {
    let guest_mem = test_memory();
    let mut device_manager: MMIODeviceManager<Block> =
        MMIODeviceManager::new(guest_mem, 0xd000_0000, (5, 23));
    let mut buf = vec![0xaau8; 4];
    assert!(!device_manager.mmio_read(0x1234, &mut buf));
    assert_eq!(buf, vec![0xaa; 4]);
    assert!(!device_manager.mmio_write(0x1234, &[1, 2, 3]));
}

#[test]
fn register_serial_and_rtc() {
    let guest_mem = test_memory();
    let mut device_manager: MMIODeviceManager<Block> =
        MMIODeviceManager::new(guest_mem, 0xd000_0000, (5, 23));
    let mut cmdline = Cmdline::new(4096);

    assert!(device_manager.register_mmio_serial(103, &mut cmdline).is_ok());
    assert_eq!(
        cmdline.as_bytes().as_slice(),
        b"earlycon=uart,mmio32,0xd0000000"
    );
    assert!(device_manager.register_mmio_rtc(104).is_ok());

    assert_eq!(device_manager.get_address("uart"), Some(0xd000_0000));
    assert_eq!(device_manager.get_address("rtc"), Some(0xd000_1000));
    let registry = device_manager.get_device_info();
    assert_eq!(registry[0].1.type_(), DeviceType::Serial);
    assert_eq!(registry[0].1.irq(), 5);
    assert_eq!(registry[1].1.type_(), DeviceType::RTC);
    assert_eq!(registry[1].1.irq(), 6);
}

#[test]
fn slot_planning() {
    let guest_mem = test_memory();
    let mut device_manager = MMIODeviceManager::new(guest_mem, 0xd000_0000, (5, 23));
    assert_eq!(device_manager.next_slot(), Ok((0xd000_0000, 5)));

    let queue_evts = vec![31u64, 32u64];
    let reqs = ioevent_requests(0xd000_0000, &queue_evts);
    assert_eq!(reqs, vec![(31, 0xd000_0050, 0), (32, 0xd000_0050, 1)]);

    let mut cmdline = Cmdline::new(4096);
    device_manager
        .register_virtio_device(Block::new(0x1000), vec![31], 33, &mut cmdline, "disk")
        .unwrap();
    assert_eq!(device_manager.next_slot(), Ok((0xd000_1000, 6)));
}
