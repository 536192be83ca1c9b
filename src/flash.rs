//! Byte-level model of the execute-in-place flash, with sector erase, page
//! program, reads, CRC over ranges, and the boot metadata store.
use vstd::prelude::*;
use crate::protocol::{
    BootData, BOOT_DATA_ADDR, BOOT_DATA_SIZE, FLASH_BASE, FLASH_PAGE_SIZE, FLASH_SECTOR_SIZE,
    FLASH_SIZE, lemma_boot_data_round_trip,
};

verus! {

/// The CRC-32/ISO-HDLC checksum of `data`.
pub uninterp spec fn crc32_of(data: Seq<u8>) -> u32;

/// Relies on crc's `Crc::<u32>::checksum` with the CRC-32/ISO-HDLC algorithm
/// (reflected polynomial 0xEDB88320): the checksum depends on the bytes alone.
#[verifier::external_body]
pub(crate) fn crc32(data: &[u8]) -> (r: u32)
    ensures
        r == crc32_of(data@),
{
    crc::Crc::<u32>::new(&crc::CRC_32_ISO_HDLC).checksum(data)
}

/// Flash-relative offset of an absolute flash address.
pub fn addr_to_offset(abs_addr: u32) -> (r: u32)
    requires
        abs_addr >= FLASH_BASE,
    ensures
        r == abs_addr - FLASH_BASE,
{
    abs_addr - FLASH_BASE
}

/// The `size` bytes of `flash` that start at absolute address `abs_addr`.
pub open spec fn region(flash: Seq<u8>, abs_addr: u32, size: u32) -> Seq<u8> {
    flash.subrange(abs_addr - FLASH_BASE, abs_addr - FLASH_BASE + size)
}

/// Whether `[abs_addr, abs_addr + size)` lies inside the flash device.
pub open spec fn in_flash(abs_addr: u32, size: u32) -> bool {
    FLASH_BASE <= abs_addr && abs_addr - FLASH_BASE + size <= FLASH_SIZE
}

/// The sector holding the boot record, as written for `bd`: its encoding,
/// then 0xFF up to the end of the sector.
pub open spec fn boot_sector_image(bd: BootData) -> Seq<u8> {
    bd.spec_bytes() + Seq::new((FLASH_SECTOR_SIZE - BOOT_DATA_SIZE) as nat, |i: int| 0xFFu8)
}

/// The record that a read of the boot sector of `flash` yields.
pub open spec fn spec_read_boot_data(flash: Seq<u8>) -> BootData {
    let bd = BootData::spec_from_bytes(region(flash, BOOT_DATA_ADDR, BOOT_DATA_SIZE as u32));
    if bd.spec_is_valid() { bd } else { BootData::spec_default() }
}

/// Contents of the whole flash device; offset 0 is `FLASH_BASE`.
pub struct FlashImage {
    pub bytes: Vec<u8>,
}

impl FlashImage {
    pub open spec fn wf(&self) -> bool {
        self.bytes@.len() == FLASH_SIZE
    }

    /// A fully erased device.
    pub fn new_erased() -> (r: FlashImage)
        ensures
            r.wf(),
            forall|i: int| 0 <= i < FLASH_SIZE ==> r.bytes@[i] == 0xFF,
    {
        let mut bytes: Vec<u8> = Vec::new();
        while bytes.len() < FLASH_SIZE as usize
            invariant
                bytes@.len() <= FLASH_SIZE,
                forall|i: int| 0 <= i < bytes@.len() ==> bytes@[i] == 0xFF,
            decreases FLASH_SIZE - bytes@.len(),
        {
            bytes.push(0xFF);
        }
        FlashImage { bytes }
    }

    /// Erases `size` bytes at flash-relative `offset` to 0xFF; both are
    /// sector-aligned.
    pub fn flash_erase(&mut self, offset: u32, size: u32)
        requires
            old(self).wf(),
            offset % FLASH_SECTOR_SIZE == 0,
            size % FLASH_SECTOR_SIZE == 0,
            offset + size <= FLASH_SIZE,
        ensures
            final(self).wf(),
            final(self).bytes@ == old(self).bytes@.subrange(0, offset as int) + Seq::new(
                size as nat,
                |i: int| 0xFFu8,
            ) + old(self).bytes@.subrange(offset + size, FLASH_SIZE as int),
    {
        let end = offset as usize + size as usize;
        let mut i: usize = offset as usize;
        while i < end
            invariant
                offset <= i <= end,
                end == offset + size,
                end <= FLASH_SIZE,
                self.bytes@.len() == FLASH_SIZE,
                forall|j: int| 0 <= j < offset ==> self.bytes@[j] == old(self).bytes@[j],
                forall|j: int| offset <= j < i ==> self.bytes@[j] == 0xFF,
                forall|j: int| end <= j < FLASH_SIZE ==> self.bytes@[j] == old(self).bytes@[j],
            decreases end - i,
        {
            self.bytes.set(i, 0xFF);
            i = i + 1;
        }
        assert(self.bytes@ =~= old(self).bytes@.subrange(0, offset as int) + Seq::new(
            size as nat,
            |i: int| 0xFFu8,
        ) + old(self).bytes@.subrange(offset + size, FLASH_SIZE as int));
    }

    /// Programs `data` at flash-relative `offset`; both are page-aligned.
    pub fn flash_program(&mut self, offset: u32, data: &[u8])
        requires
            old(self).wf(),
            offset % FLASH_PAGE_SIZE == 0,
            data@.len() % (FLASH_PAGE_SIZE as nat) == 0,
            offset + data@.len() <= FLASH_SIZE,
        ensures
            final(self).wf(),
            final(self).bytes@ == old(self).bytes@.subrange(0, offset as int) + data@ + old(
                self,
            ).bytes@.subrange(offset + data@.len(), FLASH_SIZE as int),
    {
        let mut k: usize = 0;
        while k < data.len()
            invariant
                0 <= k <= data@.len(),
                offset + data@.len() <= FLASH_SIZE,
                self.bytes@.len() == FLASH_SIZE,
                forall|j: int| 0 <= j < offset ==> self.bytes@[j] == old(self).bytes@[j],
                forall|j: int| 0 <= j < k ==> self.bytes@[offset + j] == data@[j],
                forall|j: int|
                    offset + k <= j < FLASH_SIZE ==> self.bytes@[j] == old(self).bytes@[j],
            decreases data@.len() - k,
        {
            self.bytes.set(offset as usize + k, data[k]);
            k = k + 1;
        }
        assert(self.bytes@ =~= old(self).bytes@.subrange(0, offset as int) + data@ + old(
            self,
        ).bytes@.subrange(offset + data@.len(), FLASH_SIZE as int));
    }

    /// The `size` bytes at absolute address `abs_addr`.
    pub fn flash_read(&self, abs_addr: u32, size: u32) -> (r: Vec<u8>)
        requires
            self.wf(),
            in_flash(abs_addr, size),
        ensures
            r@ == region(self.bytes@, abs_addr, size),
    {
        let start = (abs_addr - FLASH_BASE) as usize;
        let mut out: Vec<u8> = Vec::new();
        let mut k: usize = 0;
        while k < size as usize
            invariant
                k <= size,
                start + size <= FLASH_SIZE,
                self.bytes@.len() == FLASH_SIZE,
                out@ == self.bytes@.subrange(start as int, start + k),
            decreases size - k,
        {
            out.push(self.bytes[start + k]);
            k = k + 1;
            assert(out@ =~= self.bytes@.subrange(start as int, start + k));
        }
        out
    }

    /// CRC-32 of the `size` bytes at absolute address `abs_addr`.
    pub fn compute_crc32(&self, abs_addr: u32, size: u32) -> (r: u32)
        requires
            self.wf(),
            in_flash(abs_addr, size),
        ensures
            r == crc32_of(region(self.bytes@, abs_addr, size)),
    {
        let data = self.flash_read(abs_addr, size);
        crc32(data.as_slice())
    }

    /// Reads the boot record; a sector without the magic yields the default
    /// record.
    pub fn read_boot_data(&self) -> (r: BootData)
        requires
            self.wf(),
        ensures
            r == spec_read_boot_data(self.bytes@),
    {
        let raw = self.flash_read(BOOT_DATA_ADDR, BOOT_DATA_SIZE as u32);
        let bd = BootData::from_bytes(raw.as_slice());
        if bd.is_valid() {
            bd
        } else {
            BootData::default_new()
        }
    }

    /// Rewrites the boot record: erases its sector, then programs one page
    /// holding the encoding padded with 0xFF.
    pub fn write_boot_data(&mut self, bd: &BootData)
        requires
            old(self).wf(),
        ensures
            final(self).wf(),
            final(self).bytes@ == old(self).bytes@.subrange(0, BOOT_DATA_ADDR - FLASH_BASE)
                + boot_sector_image(*bd) + old(self).bytes@.subrange(
                BOOT_DATA_ADDR - FLASH_BASE + FLASH_SECTOR_SIZE,
                FLASH_SIZE as int,
            ),
    {
        let offset = addr_to_offset(BOOT_DATA_ADDR);
        self.flash_erase(offset, FLASH_SECTOR_SIZE);
        let mut page = bd.as_bytes();
        while page.len() < FLASH_PAGE_SIZE as usize
            invariant
                BOOT_DATA_SIZE <= page@.len() <= FLASH_PAGE_SIZE,
                page@.subrange(0, BOOT_DATA_SIZE as int) == bd.spec_bytes(),
                forall|j: int| BOOT_DATA_SIZE <= j < page@.len() ==> page@[j] == 0xFF,
            decreases FLASH_PAGE_SIZE - page@.len(),
        {
            page.push(0xFF);
        }
        self.flash_program(offset, page.as_slice());
        assert(self.bytes@ =~= old(self).bytes@.subrange(0, BOOT_DATA_ADDR - FLASH_BASE)
            + boot_sector_image(*bd) + old(self).bytes@.subrange(
            BOOT_DATA_ADDR - FLASH_BASE + FLASH_SECTOR_SIZE,
            FLASH_SIZE as int,
        ));
    }
}

/// Reading the boot record back after writing a record that carries the
/// magic yields that record; the sector written for a record without the
/// magic reads back as the default record.
pub proof fn lemma_boot_data_write_read(flash: Seq<u8>, bd: BootData)
    requires
        flash.len() == FLASH_SIZE,
    ensures
        ({
            let written = flash.subrange(0, BOOT_DATA_ADDR - FLASH_BASE) + boot_sector_image(bd)
                + flash.subrange(BOOT_DATA_ADDR - FLASH_BASE + FLASH_SECTOR_SIZE, FLASH_SIZE as int);
            &&& bd.spec_is_valid() ==> spec_read_boot_data(written) == bd
            &&& !bd.spec_is_valid() ==> spec_read_boot_data(written) == BootData::spec_default()
        }),
{
    let written = flash.subrange(0, BOOT_DATA_ADDR - FLASH_BASE) + boot_sector_image(bd)
        + flash.subrange(BOOT_DATA_ADDR - FLASH_BASE + FLASH_SECTOR_SIZE, FLASH_SIZE as int);
    lemma_boot_data_round_trip(bd);
    assert(region(written, BOOT_DATA_ADDR, BOOT_DATA_SIZE as u32) =~= bd.spec_bytes());
}

} // verus!
