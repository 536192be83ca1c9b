use crispy::boot::{
    check_update_trigger, is_in_ram, read_boot_data, select_bank, validate_bank, BootTarget,
    MemoryLayout, VectorTable,
};
use crispy::flash::{addr_to_offset, FlashImage};
use crispy::protocol::{BootData, BOOT_DATA_ADDR, FW_A_ADDR, FW_B_ADDR};

fn with_vectors(flash: &mut FlashImage, addr: u32, sp: u32, reset: u32) {
    let mut page = Vec::new();
    page.extend_from_slice(&sp.to_le_bytes());
    page.extend_from_slice(&reset.to_le_bytes());
    page.resize(256, 0xFF);
    flash.flash_program(addr_to_offset(addr), &page);
}

#[test]
fn layout_matches_memory_map() {
    let l = MemoryLayout::from_linker();
    assert_eq!((l.fw_a, l.fw_b, l.boot_data), (FW_A_ADDR, FW_B_ADDR, BOOT_DATA_ADDR));
    assert_eq!((l.ram_base, l.copy_size), (0x2000_0000, 0x0003_0000));
}

#[test]
fn ram_range_bounds() {
    assert!(is_in_ram(0x2000_0000));
    assert!(is_in_ram(0x2003_FFFF));
    assert!(!is_in_ram(0x2004_0000));
    assert!(!is_in_ram(0x1FFF_FFFF));
}

#[test]
fn erased_banks_do_not_validate() {
    let flash = FlashImage::new_erased();
    assert_eq!(validate_bank(&flash, FW_A_ADDR), None);
    assert_eq!(validate_bank(&flash, FW_B_ADDR), None);
    assert_eq!(select_bank(&flash, &MemoryLayout::from_linker()), None);
}

#[test]
fn bank_validates_only_with_both_words_in_ram() {
    let mut flash = FlashImage::new_erased();
    with_vectors(&mut flash, FW_A_ADDR, 0x2004_0000, 0x2000_0101);
    assert_eq!(validate_bank(&flash, FW_A_ADDR), None);
    with_vectors(&mut flash, FW_B_ADDR, 0x2003_FF00, 0x2000_00C1);
    assert_eq!(validate_bank(&flash, FW_B_ADDR), Some((0x2003_FF00, 0x2000_00C1)));
    let vt = VectorTable::read_from(&flash, FW_B_ADDR);
    assert!(vt.is_valid_for_ram_execution());
}

#[test]
fn selection_prefers_a_then_b() {
    let mut flash = FlashImage::new_erased();
    let layout = MemoryLayout::from_linker();
    with_vectors(&mut flash, FW_B_ADDR, 0x2000_1000, 0x2000_0201);
    assert_eq!(
        select_bank(&flash, &layout),
        Some(BootTarget { flash_addr: FW_B_ADDR, initial_sp: 0x2000_1000, reset_vector: 0x2000_0201 })
    );
    with_vectors(&mut flash, FW_A_ADDR, 0x2000_2000, 0x2000_0301);
    assert_eq!(select_bank(&flash, &layout).unwrap().flash_addr, FW_A_ADDR);
}

#[test]
fn recorded_preference_for_b_is_tried_first() {
    let mut flash = FlashImage::new_erased();
    let layout = MemoryLayout::from_linker();
    with_vectors(&mut flash, FW_A_ADDR, 0x2000_2000, 0x2000_0301);
    with_vectors(&mut flash, FW_B_ADDR, 0x2000_1000, 0x2000_0201);
    assert_eq!(read_boot_data(&flash, BOOT_DATA_ADDR), None);
    let mut bd = BootData::default_new();
    bd.active_bank = 1;
    flash.write_boot_data(&bd);
    assert_eq!(read_boot_data(&flash, BOOT_DATA_ADDR), Some(1));
    assert_eq!(select_bank(&flash, &layout).unwrap().flash_addr, FW_B_ADDR);
}

#[test]
fn trigger_low_requests_update() {
    assert!(check_update_trigger(true));
    assert!(!check_update_trigger(false));
}

#[test]
fn image_is_copied_to_the_load_region() {
    let mut device = crispy::update::Device::new(None);
    with_vectors(&mut device.flash, FW_B_ADDR, 0x2003_F000, 0x2000_0401);
    let vt = crispy::boot::copy_firmware_to_ram(&mut device, FW_B_ADDR);
    assert_eq!((vt.initial_sp, vt.reset_vector), (0x2003_F000, 0x2000_0401));
    assert_eq!(&device.ram[..8], &[0x00, 0xF0, 0x03, 0x20, 0x01, 0x04, 0x00, 0x20]);
    assert_eq!(device.ram.len(), 0x0003_0000);
    assert!(device.ram[8..256].iter().all(|&b| b == 0xFF));
}

#[test]
fn normal_boot_loads_the_selected_bank() {
    let mut device = crispy::update::Device::new(None);
    with_vectors(&mut device.flash, FW_A_ADDR, 0x2003_0000, 0x2000_0101);
    let vt = crispy::boot::run_normal_boot(&mut device, &MemoryLayout::from_linker()).unwrap();
    assert_eq!((vt.initial_sp, vt.reset_vector), (0x2003_0000, 0x2000_0101));
    assert_eq!(&device.ram[..4], &[0x00, 0x00, 0x03, 0x20]);
}
