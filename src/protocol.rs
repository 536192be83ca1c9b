//! Memory map, boot metadata record, and protocol message types.
use vstd::prelude::*;
use crate::bytes::{le32, from_le32, push_le32, read_le32, lemma_le32_inverse};

verus! {

/// Start of the execute-in-place flash window.
pub const FLASH_BASE: u32 = 0x1000_0000;
/// Size of the flash device in bytes.
pub const FLASH_SIZE: u32 = 0x0020_0000;
/// Erase granularity.
pub const FLASH_SECTOR_SIZE: u32 = 4096;
/// Program granularity.
pub const FLASH_PAGE_SIZE: u32 = 256;
/// Start of firmware bank A.
pub const FW_A_ADDR: u32 = 0x1001_0000;
/// Start of firmware bank B.
pub const FW_B_ADDR: u32 = 0x100D_0000;
/// Size of each firmware bank.
pub const FW_BANK_SIZE: u32 = 0x000C_0000;
/// Address of the sector holding the boot metadata record.
pub const BOOT_DATA_ADDR: u32 = 0x1019_0000;
/// Marks a boot metadata record as authoritative.
pub const BOOT_DATA_MAGIC: u32 = 0xB007_DA7A;
/// Largest payload of one data block.
pub const MAX_DATA_BLOCK_SIZE: usize = 1024;
/// Size of the encoded boot metadata record.
pub const BOOT_DATA_SIZE: usize = 32;

/// Persistent boot metadata: which bank is active and what each bank holds.
#[derive(Clone, Copy, Debug, PartialEq, Eq, Structural)]
pub struct BootData {
    pub magic: u32,
    pub active_bank: u8,
    pub confirmed: u8,
    pub boot_attempts: u8,
    pub _pad: u8,
    pub version_a: u32,
    pub version_b: u32,
    pub crc_a: u32,
    pub crc_b: u32,
    pub size_a: u32,
    pub size_b: u32,
}

/// Start address of bank 0 (A) or bank 1 (B).
pub open spec fn spec_bank_addr(bank: u8) -> u32 {
    if bank == 0 { FW_A_ADDR } else { FW_B_ADDR }
}

impl BootData {
    /// The record with the correct magic and every other field zero.
    pub open spec fn spec_default() -> BootData {
        BootData {
            magic: BOOT_DATA_MAGIC,
            active_bank: 0,
            confirmed: 0,
            boot_attempts: 0,
            _pad: 0,
            version_a: 0,
            version_b: 0,
            crc_a: 0,
            crc_b: 0,
            size_a: 0,
            size_b: 0,
        }
    }

    /// The 32-byte little-endian encoding of the record.
    pub open spec fn spec_bytes(self) -> Seq<u8> {
        le32(self.magic) + seq![self.active_bank, self.confirmed, self.boot_attempts, self._pad]
            + le32(self.version_a) + le32(self.version_b) + le32(self.crc_a) + le32(self.crc_b)
            + le32(self.size_a) + le32(self.size_b)
    }

    /// The record whose encoding is the first 32 bytes of `b`.
    pub open spec fn spec_from_bytes(b: Seq<u8>) -> BootData {
        BootData {
            magic: from_le32(b[0], b[1], b[2], b[3]),
            active_bank: b[4],
            confirmed: b[5],
            boot_attempts: b[6],
            _pad: b[7],
            version_a: from_le32(b[8], b[9], b[10], b[11]),
            version_b: from_le32(b[12], b[13], b[14], b[15]),
            crc_a: from_le32(b[16], b[17], b[18], b[19]),
            crc_b: from_le32(b[20], b[21], b[22], b[23]),
            size_a: from_le32(b[24], b[25], b[26], b[27]),
            size_b: from_le32(b[28], b[29], b[30], b[31]),
        }
    }

    pub open spec fn spec_is_valid(self) -> bool {
        self.magic == BOOT_DATA_MAGIC
    }

    /// A fresh record: correct magic, everything else zero.
    pub fn default_new() -> (r: BootData)
        ensures
            r == BootData::spec_default(),
    {
        BootData {
            magic: BOOT_DATA_MAGIC,
            active_bank: 0,
            confirmed: 0,
            boot_attempts: 0,
            _pad: 0,
            version_a: 0,
            version_b: 0,
            crc_a: 0,
            crc_b: 0,
            size_a: 0,
            size_b: 0,
        }
    }

    /// Whether the record carries the magic that makes it authoritative.
    pub fn is_valid(&self) -> (r: bool)
        ensures
            r == self.spec_is_valid(),
    {
        self.magic == BOOT_DATA_MAGIC
    }

    /// Start address of the active bank: A for bank 0, B otherwise.
    pub fn bank_addr(&self) -> (r: u32)
        ensures
            r == spec_bank_addr(self.active_bank),
    {
        if self.active_bank == 0 { FW_A_ADDR } else { FW_B_ADDR }
    }

    /// The 32-byte little-endian encoding of the record.
    pub fn as_bytes(&self) -> (r: Vec<u8>)
        ensures
            r@ == self.spec_bytes(),
            r@.len() == BOOT_DATA_SIZE,
    {
        let mut out: Vec<u8> = Vec::new();
        push_le32(&mut out, self.magic);
        out.push(self.active_bank);
        out.push(self.confirmed);
        out.push(self.boot_attempts);
        out.push(self._pad);
        push_le32(&mut out, self.version_a);
        push_le32(&mut out, self.version_b);
        push_le32(&mut out, self.crc_a);
        push_le32(&mut out, self.crc_b);
        push_le32(&mut out, self.size_a);
        push_le32(&mut out, self.size_b);
        assert(out@ =~= self.spec_bytes());
        out
    }

    /// Decodes the record held in the first 32 bytes of `b`.
    pub fn from_bytes(b: &[u8]) -> (r: BootData)
        requires
            b@.len() >= BOOT_DATA_SIZE,
        ensures
            r == BootData::spec_from_bytes(b@),
    {
        BootData {
            magic: read_le32(b, 0),
            active_bank: b[4],
            confirmed: b[5],
            boot_attempts: b[6],
            _pad: b[7],
            version_a: read_le32(b, 8),
            version_b: read_le32(b, 12),
            crc_a: read_le32(b, 16),
            crc_b: read_le32(b, 20),
            size_a: read_le32(b, 24),
            size_b: read_le32(b, 28),
        }
    }
}

/// Decoding the encoding of a record gives the record back.
pub proof fn lemma_boot_data_round_trip(bd: BootData)
    ensures
        BootData::spec_from_bytes(bd.spec_bytes()) == bd,
        bd.spec_bytes().len() == BOOT_DATA_SIZE,
{
    let b = bd.spec_bytes();
    lemma_le32_inverse(bd.magic);
    lemma_le32_inverse(bd.version_a);
    lemma_le32_inverse(bd.version_b);
    lemma_le32_inverse(bd.crc_a);
    lemma_le32_inverse(bd.crc_b);
    lemma_le32_inverse(bd.size_a);
    lemma_le32_inverse(bd.size_b);
    assert(b.len() == 32);
    assert(b.subrange(0, 4) =~= le32(bd.magic));
    assert(b.subrange(8, 12) =~= le32(bd.version_a));
    assert(b.subrange(12, 16) =~= le32(bd.version_b));
    assert(b.subrange(16, 20) =~= le32(bd.crc_a));
    assert(b.subrange(20, 24) =~= le32(bd.crc_b));
    assert(b.subrange(24, 28) =~= le32(bd.size_a));
    assert(b.subrange(28, 32) =~= le32(bd.size_b));
}

} // verus!
