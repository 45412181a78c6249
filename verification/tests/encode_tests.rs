use vmm_mmio::encode::{dec_i32_string, dec_u32, dec_u32_string, hex_u64_padded8};
use vmm_mmio::memory::{GuestAddress, GuestMemory, GuestMemoryError};
use vmm_mmio::virtio::{build_config_space, Block, VirtioDevice};

#[test]
fn hex_padding() {
    assert_eq!(hex_u64_padded8(0xd000_0000), b"d0000000".to_vec());
    assert_eq!(hex_u64_padded8(0), b"00000000".to_vec());
    assert_eq!(hex_u64_padded8(0x1a2b), b"00001a2b".to_vec());
    assert_eq!(hex_u64_padded8(0x1_2345_6789), b"123456789".to_vec());
}

#[test]
fn decimal_digits() {
    assert_eq!(dec_u32(0), b"0".to_vec());
    assert_eq!(dec_u32(23), b"23".to_vec());
    assert_eq!(dec_u32(4_294_967_295), b"4294967295".to_vec());
    assert_eq!(dec_u32_string(907), "907".to_string());
    assert_eq!(dec_i32_string(-5), "-5".to_string());
    assert_eq!(dec_i32_string(12), "12".to_string());
}

#[test]
fn block_config_space_capacity() {
    // 1 MiB is 2048 sectors of 512 bytes, little endian
    assert_eq!(
        build_config_space(1_048_576),
        vec![0x00, 0x08, 0x00, 0x00, 0x00, 0x00, 0x00, 0x00]
    );
    // sizes round down to whole sectors
    assert_eq!(
        build_config_space(1023),
        vec![0x01, 0x00, 0x00, 0x00, 0x00, 0x00, 0x00, 0x00]
    );
}

#[test]
fn block_config_roundtrip() {
    let mut block = Block::new(0x10_0000);
    let mut buf = vec![0u8; 8];
    block.read_config(0, &mut buf);
    assert_eq!(buf, build_config_space(0x10_0000));

    block.write_config(0, &build_config_space(0x20_0000));
    let mut buf = vec![0u8; 8];
    block.read_config(0, &mut buf);
    assert_eq!(buf, build_config_space(0x20_0000));

    // a write past the config space is dropped whole
    block.write_config(4, &[1, 2, 3, 4, 5]);
    let mut buf = vec![0u8; 8];
    block.read_config(0, &mut buf);
    assert_eq!(buf, build_config_space(0x20_0000));

    // a read past the config space leaves the buffer bytes alone
    let mut buf = vec![0x55u8; 4];
    block.read_config(100, &mut buf);
    assert_eq!(buf, vec![0x55; 4]);

    assert_eq!(block.device_type(), 2);
    assert_eq!(block.queue_max_sizes(), vec![256u16]);
}

#[test]
fn guest_memory_layout() {
    assert_eq!(
        GuestMemory::new(&[]).unwrap_err(),
        GuestMemoryError::NoMemoryRegions
    );
    assert_eq!(
        GuestMemory::new(&[(GuestAddress(0x1000), 0x2000), (GuestAddress(0), 0x1000)])
            .unwrap_err(),
        GuestMemoryError::MemoryRegionOverlap
    );
    assert_eq!(
        GuestMemory::new(&[(GuestAddress(0), 0x2000), (GuestAddress(0x1000), 0x1000)])
            .unwrap_err(),
        GuestMemoryError::MemoryRegionOverlap
    );
    let m = GuestMemory::new(&[(GuestAddress(0), 0x1000), (GuestAddress(0x1000), 0x1000)])
        .unwrap();
    assert_eq!(m.num_regions(), 2);
}
