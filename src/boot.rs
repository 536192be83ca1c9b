//! Boot engine checks: where the image regions are, whether a bank holds a
//! vector table that can run from RAM, and which bank to start.
use vstd::prelude::*;
use crate::bytes::{from_le32, read_le32};
use crate::flash::{FlashImage, in_flash, region};
use crate::protocol::{BOOT_DATA_ADDR, BOOT_DATA_MAGIC, FLASH_BASE, FW_A_ADDR, FW_B_ADDR};
use crate::update::{Device, FW_COPY_SIZE, FW_RAM_BASE};

verus! {

/// First address of on-chip RAM.
pub const RAM_START: u32 = 0x2000_0000;
/// One past the last address of on-chip RAM.
pub const RAM_END: u32 = 0x2004_0000;

/// Addresses of the regions the boot engine works with.
#[derive(Clone, Copy, Debug, PartialEq, Eq, Structural)]
pub struct MemoryLayout {
    pub fw_a: u32,
    pub fw_b: u32,
    pub ram_base: u32,
    pub copy_size: u32,
    pub boot_data: u32,
}

impl MemoryLayout {
    pub open spec fn spec_standard() -> MemoryLayout {
        MemoryLayout {
            fw_a: FW_A_ADDR,
            fw_b: FW_B_ADDR,
            ram_base: FW_RAM_BASE,
            copy_size: FW_COPY_SIZE,
            boot_data: BOOT_DATA_ADDR,
        }
    }

    /// The layout fixed by the memory map: the two bank entry points, the
    /// RAM load region and its size, and the boot record.
    pub fn from_linker() -> (r: MemoryLayout)
        ensures
            r == MemoryLayout::spec_standard(),
    {
        MemoryLayout {
            fw_a: FW_A_ADDR,
            fw_b: FW_B_ADDR,
            ram_base: FW_RAM_BASE,
            copy_size: FW_COPY_SIZE,
            boot_data: BOOT_DATA_ADDR,
        }
    }
}

/// Whether `addr` lies in `[RAM_START, RAM_END)`.
pub open spec fn spec_in_ram(addr: u32) -> bool {
    RAM_START <= addr < RAM_END
}

/// Whether `addr` lies in RAM.
pub fn is_in_ram(addr: u32) -> (r: bool)
    ensures
        r == spec_in_ram(addr),
{
    RAM_START <= addr && addr < RAM_END
}

/// The little-endian word stored at absolute flash address `addr`.
pub open spec fn word_at(flash: Seq<u8>, addr: u32) -> u32 {
    let b = region(flash, addr, 4);
    from_le32(b[0], b[1], b[2], b[3])
}

/// The first two words of a firmware image.
#[derive(Clone, Copy, Debug, PartialEq, Eq, Structural)]
pub struct VectorTable {
    pub initial_sp: u32,
    pub reset_vector: u32,
}

impl VectorTable {
    /// Reads the vector table at absolute flash address `addr`.
    pub fn read_from(flash: &FlashImage, addr: u32) -> (r: VectorTable)
        requires
            flash.wf(),
            in_flash(addr, 8),
        ensures
            r.initial_sp == word_at(flash.bytes@, addr),
            r.reset_vector == word_at(flash.bytes@, (addr + 4) as u32),
    {
        let raw = flash.flash_read(addr, 8);
        let r = VectorTable { initial_sp: read_le32(raw.as_slice(), 0), reset_vector: read_le32(raw.as_slice(), 4) };
        assert(region(flash.bytes@, (addr + 4) as u32, 4) =~= raw@.subrange(4, 8));
        r
    }

    /// Whether both the stack pointer and the reset vector point into RAM.
    pub fn is_valid_for_ram_execution(&self) -> (r: bool)
        ensures
            r == (spec_in_ram(self.initial_sp) && spec_in_ram(self.reset_vector)),
    {
        is_in_ram(self.initial_sp) && is_in_ram(self.reset_vector)
    }
}

/// The stack pointer and reset vector of the bank at `addr` when both point
/// into RAM.
pub open spec fn spec_validate_bank(flash: Seq<u8>, addr: u32) -> Option<(u32, u32)> {
    let sp = word_at(flash, addr);
    let reset = word_at(flash, (addr + 4) as u32);
    if spec_in_ram(sp) && spec_in_ram(reset) {
        Some((sp, reset))
    } else {
        None
    }
}

/// Reads the first two words of the bank at `flash_addr` and returns them
/// when both point into RAM.
pub fn validate_bank(flash: &FlashImage, flash_addr: u32) -> (r: Option<(u32, u32)>)
    requires
        flash.wf(),
        in_flash(flash_addr, 8),
    ensures
        r == spec_validate_bank(flash.bytes@, flash_addr),
{
    let vt = VectorTable::read_from(flash, flash_addr);
    if vt.is_valid_for_ram_execution() {
        Some((vt.initial_sp, vt.reset_vector))
    } else {
        None
    }
}

/// The bank preference recorded at `addr`: the byte after the magic word,
/// when the magic is present.
pub open spec fn spec_preferred_bank(flash: Seq<u8>, addr: u32) -> Option<u8> {
    if word_at(flash, addr) == BOOT_DATA_MAGIC {
        Some(flash[addr - FLASH_BASE + 4])
    } else {
        None
    }
}

/// Reads the bank preference stored at `addr`, if its magic is present.
pub fn read_boot_data(flash: &FlashImage, addr: u32) -> (r: Option<u8>)
    requires
        flash.wf(),
        in_flash(addr, 8),
    ensures
        r == spec_preferred_bank(flash.bytes@, addr),
{
    let raw = flash.flash_read(addr, 8);
    if read_le32(raw.as_slice(), 0) == BOOT_DATA_MAGIC {
        Some(raw[4])
    } else {
        None
    }
}

/// A bank that passed validation: its address and the words to start it.
#[derive(Clone, Copy, Debug, PartialEq, Eq, Structural)]
pub struct BootTarget {
    pub flash_addr: u32,
    pub initial_sp: u32,
    pub reset_vector: u32,
}

pub open spec fn target_of(flash: Seq<u8>, addr: u32) -> Option<BootTarget> {
    match spec_validate_bank(flash, addr) {
        Some((sp, reset)) => Some(BootTarget { flash_addr: addr, initial_sp: sp, reset_vector: reset }),
        None => None,
    }
}

/// The bank to start: the preferred one first and the other second when a
/// preference for bank B is recorded, bank A first and bank B second
/// otherwise; the first whose vector table is valid wins.
pub open spec fn spec_select_bank(flash: Seq<u8>, layout: MemoryLayout) -> Option<BootTarget> {
    let (first, second) = if spec_preferred_bank(flash, layout.boot_data) == Some(1u8) {
        (layout.fw_b, layout.fw_a)
    } else {
        (layout.fw_a, layout.fw_b)
    };
    if target_of(flash, first) is Some {
        target_of(flash, first)
    } else {
        target_of(flash, second)
    }
}

fn try_bank(flash: &FlashImage, addr: u32) -> (r: Option<BootTarget>)
    requires
        flash.wf(),
        in_flash(addr, 8),
    ensures
        r == target_of(flash.bytes@, addr),
{
    match validate_bank(flash, addr) {
        Some((sp, reset)) => Some(BootTarget { flash_addr: addr, initial_sp: sp, reset_vector: reset }),
        None => None,
    }
}

/// Chooses the bank to start under the selection policy, or `None` when
/// neither bank holds a valid vector table.
pub fn select_bank(flash: &FlashImage, layout: &MemoryLayout) -> (r: Option<BootTarget>)
    requires
        flash.wf(),
        in_flash(layout.fw_a, 8),
        in_flash(layout.fw_b, 8),
        in_flash(layout.boot_data, 8),
    ensures
        r == spec_select_bank(flash.bytes@, *layout),
{
    let preferred = read_boot_data(flash, layout.boot_data);
    let (first, second) = if preferred == Some(1u8) {
        (layout.fw_b, layout.fw_a)
    } else {
        (layout.fw_a, layout.fw_b)
    };
    match try_bank(flash, first) {
        Some(t) => Some(t),
        None => try_bank(flash, second),
    }
}

/// Whether the update trigger is asserted: the trigger input reads low.
pub fn check_update_trigger(trigger_low: bool) -> (r: bool)
    ensures
        r == trigger_low,
{
    trigger_low
}


/// Copies the image at `flash_addr` into the RAM load region (the region
/// the staging buffer overlays), `FW_COPY_SIZE` bytes, and returns the
/// vector table of the copy: what the jump that follows loads into the
/// stack pointer and branches to.
pub fn copy_firmware_to_ram(device: &mut Device, flash_addr: u32) -> (r: VectorTable)
    requires
        old(device).wf(),
        in_flash(flash_addr, FW_COPY_SIZE),
    ensures
        final(device).wf(),
        final(device).flash == old(device).flash,
        final(device).bootloader_version == old(device).bootloader_version,
        final(device).ram@ == region(old(device).flash.bytes@, flash_addr, FW_COPY_SIZE),
        r.initial_sp == word_at(old(device).flash.bytes@, flash_addr),
        r.reset_vector == word_at(old(device).flash.bytes@, (flash_addr + 4) as u32),
{
    let image = device.flash.flash_read(flash_addr, FW_COPY_SIZE);
    device.copy_to_ram_buffer(0, image.as_slice());
    assert(device.ram@ =~= image@);
    let ram = device.ram.as_slice();
    let vt = VectorTable { initial_sp: read_le32(ram, 0), reset_vector: read_le32(ram, 4) };
    assert(region(old(device).flash.bytes@, (flash_addr + 4) as u32, 4) =~= image@.subrange(4, 8));
    assert(region(old(device).flash.bytes@, flash_addr, 4) =~= image@.subrange(0, 4));
    vt
}


/// The boot path of the service loop: chooses a bank under the selection
/// policy and copies it to the RAM load region. Returns the vector table of
/// the copy for the jump, or `None` when no bank validates (the caller then
/// falls back to update mode); in that case RAM is left as it was.
pub fn run_normal_boot(device: &mut Device, layout: &MemoryLayout) -> (r: Option<VectorTable>)
    requires
        old(device).wf(),
        in_flash(layout.fw_a, FW_COPY_SIZE),
        in_flash(layout.fw_b, FW_COPY_SIZE),
        in_flash(layout.boot_data, 8),
    ensures
        final(device).wf(),
        final(device).flash == old(device).flash,
        final(device).bootloader_version == old(device).bootloader_version,
        match spec_select_bank(old(device).flash.bytes@, *layout) {
            None => r is None && final(device).ram == old(device).ram,
            Some(t) => r == Some(
                VectorTable { initial_sp: t.initial_sp, reset_vector: t.reset_vector },
            ) && final(device).ram@ == region(old(device).flash.bytes@, t.flash_addr, FW_COPY_SIZE),
        },
{
    match select_bank(&device.flash, layout) {
        None => None,
        Some(t) => Some(copy_firmware_to_ram(device, t.flash_addr)),
    }
}

} // verus!
