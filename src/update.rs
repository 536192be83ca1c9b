//! The firmware-update protocol: commands are checked against the current
//! state, images are staged in RAM, verified, written to a bank, verified
//! again, and only then committed to the boot record.
use vstd::prelude::*;
use crate::bytes::copy_range;
use crate::flash::{
    FlashImage, addr_to_offset, boot_sector_image, crc32, crc32_of, in_flash, region,
    spec_read_boot_data, lemma_boot_data_write_read,
};
use crate::protocol::{
    BootData, BOOT_DATA_ADDR, FLASH_BASE, FLASH_PAGE_SIZE, FLASH_SECTOR_SIZE, FLASH_SIZE,
    FW_A_ADDR, FW_BANK_SIZE, FW_B_ADDR, spec_bank_addr,
};
use crate::wire::{AckStatus, BootState, Command, CommandModel, Response};

verus! {

/// Start of the RAM region where images are staged.
pub const FW_RAM_BASE: u32 = 0x2000_0000;
/// Size of the RAM staging region.
pub const FW_COPY_SIZE: u32 = 0x0003_0000;
/// Largest run of whole pages programmed in one flash operation.
pub const FLASH_PROGRAM_BATCH_SIZE: u32 = FLASH_SECTOR_SIZE;

/// Protocol state of the update engine.
#[derive(Clone, Copy, Debug, PartialEq, Eq, Structural)]
pub enum UpdateState {
    /// Waiting for an explicit update-mode request.
    Standby,
    /// Bringing up the USB transport.
    InitializingUsb,
    /// Update mode is active and ready for commands.
    Ready,
    /// Receiving an image into the RAM staging region.
    ReceivingData {
        bank: u8,
        bank_addr: u32,
        expected_size: u32,
        expected_crc: u32,
        version: u32,
        bytes_received: u32,
    },
}

/// A state is well formed when an upload in progress targets a real bank,
/// fits both the staging region and the bank, and has not received more
/// than announced.
pub open spec fn state_wf(s: UpdateState) -> bool {
    match s {
        UpdateState::ReceivingData { bank, bank_addr, expected_size, bytes_received, .. } => {
            &&& bank <= 1
            &&& bank_addr == spec_bank_addr(bank)
            &&& 0 < expected_size <= FW_COPY_SIZE
            &&& expected_size <= FW_BANK_SIZE
            &&& bytes_received <= expected_size
        },
        _ => true,
    }
}

pub open spec fn spec_as_boot_state(s: UpdateState) -> BootState {
    match s {
        UpdateState::ReceivingData { .. } => BootState::Receiving,
        _ => BootState::UpdateMode,
    }
}

impl UpdateState {
    /// The activity reported to the host for this state.
    pub fn as_boot_state(self) -> (r: BootState)
        ensures
            r == spec_as_boot_state(self),
    {
        match self {
            UpdateState::ReceivingData { .. } => BootState::Receiving,
            _ => BootState::UpdateMode,
        }
    }
}

/// Start address of a bank, if `bank` names one.
pub fn bank_addr(bank: u8) -> (r: Option<u32>)
    ensures
        bank <= 1 ==> r == Some(spec_bank_addr(bank)),
        bank > 1 ==> r is None,
{
    if bank == 0 {
        Some(FW_A_ADDR)
    } else if bank == 1 {
        Some(FW_B_ADDR)
    } else {
        None
    }
}

pub open spec fn spec_bank_info(bd: BootData, bank: u8) -> (u32, u32) {
    if bank == 0 { (bd.size_a, bd.crc_a) } else { (bd.size_b, bd.crc_b) }
}

/// Recorded (size, crc) of a bank, if `bank` names one.
pub fn bank_firmware_info(bd: &BootData, bank: u8) -> (r: Option<(u32, u32)>)
    ensures
        bank <= 1 ==> r == Some(spec_bank_info(*bd, bank)),
        bank > 1 ==> r is None,
{
    if bank == 0 {
        Some((bd.size_a, bd.crc_a))
    } else if bank == 1 {
        Some((bd.size_b, bd.crc_b))
    } else {
        None
    }
}

/// Bytes erased before an image of `size` bytes is programmed: whole sectors.
pub open spec fn erase_len(size: int) -> int {
    ((size + FLASH_SECTOR_SIZE - 1) / FLASH_SECTOR_SIZE as int) * FLASH_SECTOR_SIZE
}

/// `flash` after `image` is written at `addr`: the covering sectors are
/// erased, the image programmed, and the rest of those sectors left at 0xFF.
pub open spec fn persisted(flash: Seq<u8>, addr: u32, image: Seq<u8>) -> Seq<u8> {
    let off = addr - FLASH_BASE;
    let e = erase_len(image.len() as int);
    flash.subrange(0, off) + image + Seq::new((e - image.len()) as nat, |i: int| 0xFFu8)
        + flash.subrange(off + e, FLASH_SIZE as int)
}

/// `flash` after the boot record is rewritten with `bd`.
pub open spec fn with_boot_data(flash: Seq<u8>, bd: BootData) -> Seq<u8> {
    flash.subrange(0, BOOT_DATA_ADDR - FLASH_BASE) + boot_sector_image(bd) + flash.subrange(
        BOOT_DATA_ADDR - FLASH_BASE + FLASH_SECTOR_SIZE,
        FLASH_SIZE as int,
    )
}

/// The boot record after committing an image to `bank`.
pub open spec fn committed(bd: BootData, bank: u8, version: u32, crc: u32, size: u32) -> BootData {
    if bank == 0 {
        BootData {
            active_bank: bank,
            confirmed: 0,
            boot_attempts: 0,
            version_a: version,
            crc_a: crc,
            size_a: size,
            ..bd
        }
    } else {
        BootData {
            active_bank: bank,
            confirmed: 0,
            boot_attempts: 0,
            version_b: version,
            crc_b: crc,
            size_b: size,
            ..bd
        }
    }
}

/// The boot record after selecting `bank`.
pub open spec fn selected(bd: BootData, bank: u8) -> BootData {
    BootData { active_bank: bank, confirmed: 0, boot_attempts: 0, ..bd }
}

/// What one command does: the new flash and RAM contents, the new state,
/// and the response sent.
pub struct UpdateStep {
    pub flash: Seq<u8>,
    pub ram: Seq<u8>,
    pub state: UpdateState,
    pub response: Response,
}

pub open spec fn reject(flash: Seq<u8>, ram: Seq<u8>, state: UpdateState, s: AckStatus) -> UpdateStep {
    UpdateStep { flash, ram, state, response: Response::Ack(s) }
}

pub open spec fn spec_get_status(
    flash: Seq<u8>,
    ram: Seq<u8>,
    version: Option<u32>,
    state: UpdateState,
) -> UpdateStep {
    let bd = spec_read_boot_data(flash);
    UpdateStep {
        flash,
        ram,
        state,
        response: Response::Status {
            active_bank: bd.active_bank,
            version_a: bd.version_a,
            version_b: bd.version_b,
            state: spec_as_boot_state(state),
            bootloader_version: version,
        },
    }
}

pub open spec fn spec_start_update(
    flash: Seq<u8>,
    ram: Seq<u8>,
    state: UpdateState,
    bank: u8,
    size: u32,
    crc32: u32,
    version: u32,
) -> UpdateStep {
    if state != UpdateState::Ready {
        reject(flash, ram, state, AckStatus::BadState)
    } else if bank > 1 || size == 0 || size > FW_COPY_SIZE || size > FW_BANK_SIZE {
        reject(flash, ram, state, AckStatus::BankInvalid)
    } else {
        UpdateStep {
            flash,
            ram,
            state: UpdateState::ReceivingData {
                bank,
                bank_addr: spec_bank_addr(bank),
                expected_size: size,
                expected_crc: crc32,
                version,
                bytes_received: 0,
            },
            response: Response::Ack(AckStatus::Success),
        }
    }
}

pub open spec fn spec_data_block(
    flash: Seq<u8>,
    ram: Seq<u8>,
    state: UpdateState,
    offset: u32,
    data: Seq<u8>,
) -> UpdateStep {
    match state {
        UpdateState::ReceivingData {
            bank,
            bank_addr,
            expected_size,
            expected_crc,
            version,
            bytes_received,
        } => {
            if offset != bytes_received || bytes_received + data.len() > expected_size {
                reject(flash, ram, state, AckStatus::BadCommand)
            } else {
                UpdateStep {
                    flash,
                    ram: ram.subrange(0, bytes_received as int) + data + ram.subrange(
                        bytes_received + data.len(),
                        ram.len() as int,
                    ),
                    state: UpdateState::ReceivingData {
                        bank,
                        bank_addr,
                        expected_size,
                        expected_crc,
                        version,
                        bytes_received: (bytes_received + data.len()) as u32,
                    },
                    response: Response::Ack(AckStatus::Success),
                }
            }
        },
        _ => reject(flash, ram, state, AckStatus::BadState),
    }
}

pub open spec fn spec_finish_update(flash: Seq<u8>, ram: Seq<u8>, state: UpdateState) -> UpdateStep {
    match state {
        UpdateState::ReceivingData {
            bank,
            bank_addr,
            expected_size,
            expected_crc,
            version,
            bytes_received,
        } => {
            let image = ram.subrange(0, expected_size as int);
            let written = persisted(flash, bank_addr, image);
            if bytes_received != expected_size {
                reject(flash, ram, state, AckStatus::BadCommand)
            } else if crc32_of(image) != expected_crc {
                reject(flash, ram, UpdateState::Ready, AckStatus::CrcError)
            } else if crc32_of(region(written, bank_addr, expected_size)) != expected_crc {
                reject(written, ram, UpdateState::Ready, AckStatus::CrcError)
            } else {
                let bd = committed(
                    spec_read_boot_data(written),
                    bank,
                    version,
                    expected_crc,
                    expected_size,
                );
                reject(with_boot_data(written, bd), ram, UpdateState::Ready, AckStatus::Success)
            }
        },
        _ => reject(flash, ram, state, AckStatus::BadState),
    }
}

pub open spec fn spec_set_active_bank(
    flash: Seq<u8>,
    ram: Seq<u8>,
    state: UpdateState,
    bank: u8,
) -> UpdateStep {
    let bd = spec_read_boot_data(flash);
    let (size, crc) = spec_bank_info(bd, bank);
    if state != UpdateState::Ready {
        reject(flash, ram, state, AckStatus::BadState)
    } else if bank > 1 || size == 0 || !in_flash(spec_bank_addr(bank), size) {
        reject(flash, ram, state, AckStatus::BankInvalid)
    } else if crc32_of(region(flash, spec_bank_addr(bank), size)) != crc {
        reject(flash, ram, state, AckStatus::CrcError)
    } else {
        reject(with_boot_data(flash, selected(bd, bank)), ram, state, AckStatus::Success)
    }
}

pub open spec fn spec_wipe_all(flash: Seq<u8>, ram: Seq<u8>, state: UpdateState) -> UpdateStep {
    if state != UpdateState::Ready {
        reject(flash, ram, state, AckStatus::BadState)
    } else {
        reject(
            with_boot_data(flash, BootData::spec_default()),
            ram,
            state,
            AckStatus::Success,
        )
    }
}

/// Whether a `Reboot` is accepted in `state`: only once update mode is up.
pub open spec fn reboot_allowed(state: UpdateState) -> bool {
    state == UpdateState::Ready || state is ReceivingData
}

pub open spec fn spec_reboot(flash: Seq<u8>, ram: Seq<u8>, state: UpdateState) -> UpdateStep {
    if reboot_allowed(state) {
        reject(flash, ram, state, AckStatus::Success)
    } else {
        reject(flash, ram, state, AckStatus::BadState)
    }
}

/// What `cmd` does in `state` on a device with the given flash and RAM.
pub open spec fn spec_dispatch(
    flash: Seq<u8>,
    ram: Seq<u8>,
    version: Option<u32>,
    state: UpdateState,
    cmd: CommandModel,
) -> UpdateStep {
    match cmd {
        CommandModel::GetStatus => spec_get_status(flash, ram, version, state),
        CommandModel::StartUpdate { bank, size, crc32, version } => spec_start_update(
            flash,
            ram,
            state,
            bank,
            size,
            crc32,
            version,
        ),
        CommandModel::DataBlock { offset, data } => spec_data_block(flash, ram, state, offset, data),
        CommandModel::FinishUpdate => spec_finish_update(flash, ram, state),
        CommandModel::Reboot => spec_reboot(flash, ram, state),
        CommandModel::SetActiveBank { bank } => spec_set_active_bank(flash, ram, state, bank),
        CommandModel::WipeAll => spec_wipe_all(flash, ram, state),
    }
}

/// The device side of the update protocol: flash, the RAM staging region,
/// and the version reported in status responses.
pub struct Device {
    pub flash: FlashImage,
    pub ram: Vec<u8>,
    pub bootloader_version: Option<u32>,
}

impl Device {
    pub open spec fn wf(&self) -> bool {
        self.flash.wf() && self.ram@.len() == FW_COPY_SIZE
    }

    pub open spec fn step_of(&self, state: UpdateState, response: Response) -> UpdateStep {
        UpdateStep { flash: self.flash.bytes@, ram: self.ram@, state, response }
    }

    /// A device with erased flash and a zeroed staging region.
    pub fn new(bootloader_version: Option<u32>) -> (r: Device)
        ensures
            r.wf(),
            r.bootloader_version == bootloader_version,
            forall|i: int| 0 <= i < FLASH_SIZE ==> r.flash.bytes@[i] == 0xFF,
            forall|i: int| 0 <= i < FW_COPY_SIZE ==> r.ram@[i] == 0,
    {
        let flash = FlashImage::new_erased();
        let mut ram: Vec<u8> = Vec::new();
        while ram.len() < FW_COPY_SIZE as usize
            invariant
                ram@.len() <= FW_COPY_SIZE,
                forall|i: int| 0 <= i < ram@.len() ==> ram@[i] == 0,
            decreases FW_COPY_SIZE - ram@.len(),
        {
            ram.push(0);
        }
        Device { flash, ram, bootloader_version }
    }

    /// CRC-32 of the first `size` staged bytes.
    pub fn compute_ram_crc32(&self, size: u32) -> (r: u32)
        requires
            self.wf(),
            size <= FW_COPY_SIZE,
        ensures
            r == crc32_of(self.ram@.subrange(0, size as int)),
    {
        let data = copy_range(self.ram.as_slice(), 0, size as usize);
        crc32(data.as_slice())
    }

    /// Copies `data` into the staging region at `offset`.
    pub fn copy_to_ram_buffer(&mut self, offset: usize, data: &[u8])
        requires
            old(self).wf(),
            offset + data@.len() <= FW_COPY_SIZE,
        ensures
            final(self).wf(),
            final(self).flash == old(self).flash,
            final(self).bootloader_version == old(self).bootloader_version,
            final(self).ram@ == old(self).ram@.subrange(0, offset as int) + data@ + old(
                self,
            ).ram@.subrange(offset + data@.len(), FW_COPY_SIZE as int),
    {
        let mut k: usize = 0;
        while k < data.len()
            invariant
                k <= data@.len(),
                offset + data@.len() <= FW_COPY_SIZE,
                self.ram@.len() == FW_COPY_SIZE,
                self.flash == old(self).flash,
                self.bootloader_version == old(self).bootloader_version,
                forall|j: int| 0 <= j < offset ==> self.ram@[j] == old(self).ram@[j],
                forall|j: int| 0 <= j < k ==> self.ram@[offset + j] == data@[j],
                forall|j: int|
                    offset + k <= j < FW_COPY_SIZE ==> self.ram@[j] == old(self).ram@[j],
            decreases data@.len() - k,
        {
            self.ram.set(offset + k, data[k]);
            k = k + 1;
        }
        assert(self.ram@ =~= old(self).ram@.subrange(0, offset as int) + data@ + old(
            self,
        ).ram@.subrange(offset + data@.len(), FW_COPY_SIZE as int));
    }

    /// Writes the first `size` staged bytes to the bank at `bank_addr`:
    /// erases the covering sectors, programs whole pages in batches of at most
    /// a sector, then programs any trailing partial page padded with 0xFF.
    pub fn persist_ram_to_flash(&mut self, bank_addr: u32, size: u32)
        requires
            old(self).wf(),
            bank_addr == FW_A_ADDR || bank_addr == FW_B_ADDR,
            0 < size <= FW_BANK_SIZE,
            size <= FW_COPY_SIZE,
        ensures
            final(self).wf(),
            final(self).ram == old(self).ram,
            final(self).bootloader_version == old(self).bootloader_version,
            final(self).flash.bytes@ == persisted(
                old(self).flash.bytes@,
                bank_addr,
                old(self).ram@.subrange(0, size as int),
            ),
    {
        let ghost pre = old(self).flash.bytes@;
        let ghost image = old(self).ram@.subrange(0, size as int);
        let offset = addr_to_offset(bank_addr);
        let erase_size = ((size + FLASH_SECTOR_SIZE - 1) / FLASH_SECTOR_SIZE) * FLASH_SECTOR_SIZE;
        let full = (size / FLASH_PAGE_SIZE) * FLASH_PAGE_SIZE;
        assert(erase_size % 4096 == 0 && size <= erase_size <= FW_BANK_SIZE && erase_size - size
            < 4096) by (nonlinear_arith)
            requires
                erase_size == ((size + 4095) / 4096) * 4096,
                0 < size <= 0xC0000,
        ;
        assert(full % 256 == 0 && full <= size && size - full < 256) by (nonlinear_arith)
            requires
                full == (size / 256) * 256,
        ;
        assert(erase_size == erase_len(size as int));
        self.flash.flash_erase(offset, erase_size);
        let mut done: u32 = 0;
        while done < full
            invariant
                done <= full,
                done % 256 == 0,
                full % 256 == 0,
                full <= size,
                size <= erase_size,
                size <= FW_COPY_SIZE,
                offset == bank_addr - FLASH_BASE,
                offset % 4096 == 0,
                offset + erase_size <= FLASH_SIZE,
                self.wf(),
                self.ram == old(self).ram,
                self.bootloader_version == old(self).bootloader_version,
                image == self.ram@.subrange(0, size as int),
                image.len() == size,
                pre.len() == FLASH_SIZE,
                self.flash.bytes@ == pre.subrange(0, offset as int) + image.subrange(0, done as int)
                    + Seq::new((erase_size - done) as nat, |i: int| 0xFFu8) + pre.subrange(
                    offset + erase_size,
                    FLASH_SIZE as int,
                ),
            decreases full - done,
        {
            let chunk = if full - done < FLASH_PROGRAM_BATCH_SIZE {
                full - done
            } else {
                FLASH_PROGRAM_BATCH_SIZE
            };
            let data = copy_range(self.ram.as_slice(), done as usize, (done + chunk) as usize);
            assert(data@ =~= image.subrange(done as int, (done + chunk) as int));
            self.flash.flash_program(offset + done, data.as_slice());
            assert(self.flash.bytes@ =~= pre.subrange(0, offset as int) + image.subrange(
                0,
                (done + chunk) as int,
            ) + Seq::new((erase_size - (done + chunk)) as nat, |i: int| 0xFFu8) + pre.subrange(
                offset + erase_size,
                FLASH_SIZE as int,
            ));
            done = done + chunk;
        }
        if size > full {
            let mut page = copy_range(self.ram.as_slice(), full as usize, size as usize);
            while page.len() < FLASH_PAGE_SIZE as usize
                invariant
                    full < size,
                    image.len() == size,
                    size - full <= page@.len() <= FLASH_PAGE_SIZE,
                    page@.subrange(0, (size - full) as int) == image.subrange(
                        full as int,
                        size as int,
                    ),
                    forall|j: int| size - full <= j < page@.len() ==> page@[j] == 0xFF,
                decreases FLASH_PAGE_SIZE - page@.len(),
            {
                let ghost prev = page@;
                page.push(0xFF);
                assert(page@.subrange(0, (size - full) as int) =~= prev.subrange(
                    0,
                    (size - full) as int,
                ));
            }
            assert(full + 256 <= erase_size);
            self.flash.flash_program(offset + full, page.as_slice());
            assert forall|j: int| 0 <= j < FLASH_SIZE implies self.flash.bytes@[j] == persisted(
                pre,
                bank_addr,
                image,
            )[j] by {
                if offset + full <= j < offset + size {
                    assert(page@[j - offset - full] == page@.subrange(0, (size - full) as int)[j
                        - offset - full]);
                }
            }
        } else {
            assert(done == full && full == size);
            assert(image.subrange(0, done as int) =~= image);
        }
        assert(self.flash.bytes@ =~= persisted(pre, bank_addr, image));
    }

    fn handle_get_status(&self, state: UpdateState) -> (r: (UpdateState, Response))
        requires
            self.wf(),
        ensures
            self.step_of(r.0, r.1) == spec_get_status(
                self.flash.bytes@,
                self.ram@,
                self.bootloader_version,
                state,
            ),
    {
        let bd = self.flash.read_boot_data();
        (
            state,
            Response::Status {
                active_bank: bd.active_bank,
                version_a: bd.version_a,
                version_b: bd.version_b,
                state: state.as_boot_state(),
                bootloader_version: self.bootloader_version,
            },
        )
    }

    fn handle_start_update(
        &self,
        state: UpdateState,
        bank: u8,
        size: u32,
        crc32: u32,
        version: u32,
    ) -> (r: (UpdateState, Response))
        ensures
            self.step_of(r.0, r.1) == spec_start_update(
                self.flash.bytes@,
                self.ram@,
                state,
                bank,
                size,
                crc32,
                version,
            ),
    {
        if state != UpdateState::Ready {
            return (state, Response::Ack(AckStatus::BadState));
        }
        let addr = match bank_addr(bank) {
            Some(a) => a,
            None => {
                return (state, Response::Ack(AckStatus::BankInvalid));
            },
        };
        if size == 0 || size > FW_COPY_SIZE {
            return (state, Response::Ack(AckStatus::BankInvalid));
        }
        if size > FW_BANK_SIZE {
            return (state, Response::Ack(AckStatus::BankInvalid));
        }
        (
            UpdateState::ReceivingData {
                bank,
                bank_addr: addr,
                expected_size: size,
                expected_crc: crc32,
                version,
                bytes_received: 0,
            },
            Response::Ack(AckStatus::Success),
        )
    }

    fn handle_data_block(&mut self, state: UpdateState, offset: u32, data: &[u8]) -> (r: (
        UpdateState,
        Response,
    ))
        requires
            old(self).wf(),
            state_wf(state),
        ensures
            final(self).wf(),
            final(self).bootloader_version == old(self).bootloader_version,
            final(self).step_of(r.0, r.1) == spec_data_block(
                old(self).flash.bytes@,
                old(self).ram@,
                state,
                offset,
                data@,
            ),
    {
        match state {
            UpdateState::ReceivingData {
                bank,
                bank_addr,
                expected_size,
                expected_crc,
                version,
                bytes_received,
            } => {
                if offset != bytes_received {
                    return (state, Response::Ack(AckStatus::BadCommand));
                }
                if data.len() > (expected_size - bytes_received) as usize {
                    return (state, Response::Ack(AckStatus::BadCommand));
                }
                let data_len = data.len() as u32;
                self.copy_to_ram_buffer(bytes_received as usize, data);
                (
                    UpdateState::ReceivingData {
                        bank,
                        bank_addr,
                        expected_size,
                        expected_crc,
                        version,
                        bytes_received: bytes_received + data_len,
                    },
                    Response::Ack(AckStatus::Success),
                )
            },
            _ => (state, Response::Ack(AckStatus::BadState)),
        }
    }

    fn handle_finish_update(&mut self, state: UpdateState) -> (r: (UpdateState, Response))
        requires
            old(self).wf(),
            state_wf(state),
        ensures
            final(self).wf(),
            final(self).bootloader_version == old(self).bootloader_version,
            final(self).step_of(r.0, r.1) == spec_finish_update(
                old(self).flash.bytes@,
                old(self).ram@,
                state,
            ),
    {
        match state {
            UpdateState::ReceivingData {
                bank,
                bank_addr,
                expected_size,
                expected_crc,
                version,
                bytes_received,
            } => {
                if bytes_received != expected_size {
                    return (state, Response::Ack(AckStatus::BadCommand));
                }
                let ram_crc = self.compute_ram_crc32(expected_size);
                if ram_crc != expected_crc {
                    return (UpdateState::Ready, Response::Ack(AckStatus::CrcError));
                }
                self.persist_ram_to_flash(bank_addr, expected_size);
                let flash_crc = self.flash.compute_crc32(bank_addr, expected_size);
                if flash_crc != expected_crc {
                    return (UpdateState::Ready, Response::Ack(AckStatus::CrcError));
                }
                let mut bd = self.flash.read_boot_data();
                bd.active_bank = bank;
                bd.confirmed = 0;
                bd.boot_attempts = 0;
                if bank == 0 {
                    bd.version_a = version;
                    bd.crc_a = expected_crc;
                    bd.size_a = expected_size;
                } else {
                    bd.version_b = version;
                    bd.crc_b = expected_crc;
                    bd.size_b = expected_size;
                }
                self.flash.write_boot_data(&bd);
                (UpdateState::Ready, Response::Ack(AckStatus::Success))
            },
            _ => (state, Response::Ack(AckStatus::BadState)),
        }
    }

    fn handle_set_active_bank(&mut self, state: UpdateState, bank: u8) -> (r: (
        UpdateState,
        Response,
    ))
        requires
            old(self).wf(),
        ensures
            final(self).wf(),
            final(self).bootloader_version == old(self).bootloader_version,
            final(self).step_of(r.0, r.1) == spec_set_active_bank(
                old(self).flash.bytes@,
                old(self).ram@,
                state,
                bank,
            ),
    {
        if state != UpdateState::Ready {
            return (state, Response::Ack(AckStatus::BadState));
        }
        let addr = match bank_addr(bank) {
            Some(a) => a,
            None => {
                return (state, Response::Ack(AckStatus::BankInvalid));
            },
        };
        let mut bd = self.flash.read_boot_data();
        let (size, crc) = match bank_firmware_info(&bd, bank) {
            Some(info) => info,
            None => {
                return (state, Response::Ack(AckStatus::BankInvalid));
            },
        };
        // A recorded size that runs past the end of the flash device cannot
        // be read back, so it describes no firmware.
        if size == 0 || size > FLASH_SIZE - (addr - FLASH_BASE) {
            return (state, Response::Ack(AckStatus::BankInvalid));
        }
        let actual_crc = self.flash.compute_crc32(addr, size);
        if actual_crc != crc {
            return (state, Response::Ack(AckStatus::CrcError));
        }
        bd.active_bank = bank;
        bd.confirmed = 0;
        bd.boot_attempts = 0;
        self.flash.write_boot_data(&bd);
        (state, Response::Ack(AckStatus::Success))
    }

    fn handle_wipe_all(&mut self, state: UpdateState) -> (r: (UpdateState, Response))
        requires
            old(self).wf(),
        ensures
            final(self).wf(),
            final(self).bootloader_version == old(self).bootloader_version,
            final(self).step_of(r.0, r.1) == spec_wipe_all(
                old(self).flash.bytes@,
                old(self).ram@,
                state,
            ),
    {
        if state != UpdateState::Ready {
            return (state, Response::Ack(AckStatus::BadState));
        }
        self.flash.write_boot_data(&BootData::default_new());
        (state, Response::Ack(AckStatus::Success))
    }
}

/// Runs one command against the device and returns the next state and the
/// response to send. For `Reboot` the response is sent first and the caller
/// then resets the processor.
pub fn dispatch_command(device: &mut Device, state: UpdateState, cmd: Command) -> (r: (
    UpdateState,
    Response,
))
    requires
        old(device).wf(),
        state_wf(state),
    ensures
        final(device).wf(),
        state_wf(r.0),
        final(device).bootloader_version == old(device).bootloader_version,
        final(device).step_of(r.0, r.1) == spec_dispatch(
            old(device).flash.bytes@,
            old(device).ram@,
            old(device).bootloader_version,
            state,
            cmd@,
        ),
{
    match cmd {
        Command::GetStatus => device.handle_get_status(state),
        Command::StartUpdate { bank, size, crc32, version } => device.handle_start_update(
            state,
            bank,
            size,
            crc32,
            version,
        ),
        Command::DataBlock { offset, data } => device.handle_data_block(
            state,
            offset,
            data.as_slice(),
        ),
        Command::FinishUpdate => device.handle_finish_update(state),
        Command::Reboot => {
            if state == UpdateState::Ready || matches!(state, UpdateState::ReceivingData { .. }) {
                (state, Response::Ack(AckStatus::Success))
            } else {
                (state, Response::Ack(AckStatus::BadState))
            }
        },
        Command::SetActiveBank { bank } => device.handle_set_active_bank(state, bank),
        Command::WipeAll => device.handle_wipe_all(state),
    }
}



/// The sector that holds the boot record.
pub open spec fn boot_sector(flash: Seq<u8>) -> Seq<u8> {
    region(flash, BOOT_DATA_ADDR, FLASH_SECTOR_SIZE)
}

proof fn lemma_erase_len_fits(size: u32)
    requires
        0 < size <= FW_BANK_SIZE,
    ensures
        size <= erase_len(size as int) <= FW_BANK_SIZE,
{
    assert(size <= ((size + 4095) / 4096) * 4096 <= 0xC0000) by (nonlinear_arith)
        requires
            0 < size <= 0xC0000,
    ;
}

/// While an image is being received, a data block is accepted only at the
/// offset where the previous one ended: any other offset is answered with
/// `BadCommand` and leaves the progress and the staged bytes unchanged, and
/// an accepted block advances the progress by its length.
pub proof fn lemma_data_block_offsets(
    flash: Seq<u8>,
    ram: Seq<u8>,
    version: Option<u32>,
    state: UpdateState,
    offset: u32,
    data: Seq<u8>,
)
    requires
        state is ReceivingData,
    ensures
        ({
            let step = spec_dispatch(
                flash,
                ram,
                version,
                state,
                CommandModel::DataBlock { offset, data },
            );
            let received = state->ReceivingData_bytes_received;
            &&& offset != received ==> step == reject(flash, ram, state, AckStatus::BadCommand)
            &&& step.response == Response::Ack(AckStatus::Success) ==> offset == received
                && step.state->ReceivingData_bytes_received == received + data.len()
        }),
{
}

/// A `FinishUpdate` answered with `CrcError`, whether the staged image or
/// the written bank failed its check, leaves the boot record's sector
/// byte-for-byte as it was.
pub proof fn lemma_finish_crc_error_keeps_boot_data(
    flash: Seq<u8>,
    ram: Seq<u8>,
    version: Option<u32>,
    state: UpdateState,
)
    requires
        flash.len() == FLASH_SIZE,
        ram.len() == FW_COPY_SIZE,
        state_wf(state),
    ensures
        ({
            let step = spec_dispatch(flash, ram, version, state, CommandModel::FinishUpdate);
            step.response == Response::Ack(AckStatus::CrcError) ==> boot_sector(step.flash)
                == boot_sector(flash)
        }),
{
    if let UpdateState::ReceivingData { bank_addr, expected_size, .. } = state {
        lemma_erase_len_fits(expected_size);
        let image = ram.subrange(0, expected_size as int);
        let written = persisted(flash, bank_addr, image);
        assert(boot_sector(written) =~= boot_sector(flash));
    }
}

/// A `FinishUpdate` answered with `Success` leaves a boot record that makes
/// the uploaded bank active and unconfirmed and records the announced size,
/// CRC and version for it, and the bank then holds bytes whose CRC is the
/// announced one.
pub proof fn lemma_finish_success_commits(
    flash: Seq<u8>,
    ram: Seq<u8>,
    version: Option<u32>,
    state: UpdateState,
)
    requires
        flash.len() == FLASH_SIZE,
        ram.len() == FW_COPY_SIZE,
        state_wf(state),
    ensures
        ({
            let step = spec_dispatch(flash, ram, version, state, CommandModel::FinishUpdate);
            step.response == Response::Ack(AckStatus::Success) ==> {
                let bank = state->ReceivingData_bank;
                let size = state->ReceivingData_expected_size;
                let crc = state->ReceivingData_expected_crc;
                let ver = state->ReceivingData_version;
                let bd = spec_read_boot_data(step.flash);
                &&& state is ReceivingData
                &&& bd.active_bank == bank
                &&& bd.confirmed == 0
                &&& bd.boot_attempts == 0
                &&& bank == 0 ==> bd.version_a == ver && bd.crc_a == crc && bd.size_a == size
                &&& bank == 1 ==> bd.version_b == ver && bd.crc_b == crc && bd.size_b == size
                &&& crc32_of(region(step.flash, spec_bank_addr(bank), size)) == crc
            }
        }),
{
    if let UpdateState::ReceivingData {
        bank,
        bank_addr,
        expected_size,
        expected_crc,
        version: ver,
        bytes_received,
    } = state {
        lemma_erase_len_fits(expected_size);
        let image = ram.subrange(0, expected_size as int);
        let written = persisted(flash, bank_addr, image);
        let bd = committed(spec_read_boot_data(written), bank, ver, expected_crc, expected_size);
        lemma_boot_data_write_read(written, bd);
        let fin = with_boot_data(written, bd);
        assert(region(fin, bank_addr, expected_size) =~= region(written, bank_addr, expected_size));
    }
}

} // verus!
