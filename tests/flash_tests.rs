use crispy::flash::{addr_to_offset, FlashImage};
use crispy::protocol::{BootData, BOOT_DATA_ADDR, BOOT_DATA_MAGIC, FLASH_BASE, FW_A_ADDR};

#[test]
fn addr_to_offset_subtracts_flash_base() {
    assert_eq!(addr_to_offset(FW_A_ADDR), 0x1_0000);
    assert_eq!(addr_to_offset(FLASH_BASE), 0);
}

#[test]
fn crc32_of_check_string() {
    let mut flash = FlashImage::new_erased();
    let mut page = b"123456789".to_vec();
    page.resize(256, 0xFF);
    flash.flash_program(addr_to_offset(FW_A_ADDR), &page);
    assert_eq!(flash.compute_crc32(FW_A_ADDR, 9), 0xCBF4_3926);
}

#[test]
fn erased_sector_reads_as_default_record() {
    let flash = FlashImage::new_erased();
    let bd = flash.read_boot_data();
    assert_eq!(bd, BootData::default_new());
    assert_eq!(bd.magic, BOOT_DATA_MAGIC);
}

#[test]
fn boot_data_write_then_read() {
    let mut flash = FlashImage::new_erased();
    let mut bd = BootData::default_new();
    bd.active_bank = 1;
    bd.confirmed = 1;
    bd.boot_attempts = 3;
    bd.version_a = 5;
    bd.crc_b = 0x1234_5678;
    bd.size_b = 777;
    flash.write_boot_data(&bd);
    assert_eq!(flash.read_boot_data(), bd);
    let raw = flash.flash_read(BOOT_DATA_ADDR, 256);
    assert_eq!(&raw[..32], &bd.as_bytes()[..]);
    assert!(raw[32..].iter().all(|&b| b == 0xFF));
}

#[test]
fn record_without_magic_reads_as_default() {
    let mut flash = FlashImage::new_erased();
    let mut bd = BootData::default_new();
    bd.magic = 0xDEAD_BEEF;
    bd.version_a = 9;
    flash.write_boot_data(&bd);
    assert_eq!(flash.read_boot_data(), BootData::default_new());
}

#[test]
fn erase_and_program_ranges() {
    let mut flash = FlashImage::new_erased();
    let data: Vec<u8> = (0..256u32).map(|i| i as u8).collect();
    flash.flash_program(0x2000, &data);
    assert_eq!(flash.flash_read(FLASH_BASE + 0x2000, 256), data);
    flash.flash_erase(0x2000, 4096);
    assert!(flash.flash_read(FLASH_BASE + 0x2000, 256).iter().all(|&b| b == 0xFF));
}
