use crispy::host::upload_commands;
use crispy::protocol::{BootData, BOOT_DATA_ADDR, FW_A_ADDR, FW_B_ADDR};
use crispy::update::{bank_addr, bank_firmware_info, dispatch_command, Device, UpdateState};
use crispy::wire::{AckStatus, BootState, Command, Response};

fn ack(s: AckStatus) -> Response {
    Response::Ack(s)
}

fn image(len: usize) -> Vec<u8> {
    (0..len).map(|i| (i * 7 + 3) as u8).collect()
}

/// Runs `cmds` from `Ready`, returning the final state and all responses.
fn run(device: &mut Device, cmds: Vec<Command>) -> (UpdateState, Vec<Response>) {
    let mut state = UpdateState::Ready;
    let mut out = Vec::new();
    for c in cmds {
        let (next, resp) = dispatch_command(device, state, c);
        state = next;
        out.push(resp);
    }
    (state, out)
}

#[test]
fn upload_to_bank_a_commits_boot_data() {
    let mut device = Device::new(None);
    let fw = image(4096);
    let cmds = upload_commands(&fw, 0, 7);
    assert_eq!(cmds.len(), 6);
    let crc = match cmds[0] {
        Command::StartUpdate { crc32, .. } => crc32,
        _ => panic!("first command is not StartUpdate"),
    };
    let (state, responses) = run(&mut device, cmds);
    assert_eq!(state, UpdateState::Ready);
    assert!(responses.iter().all(|r| *r == ack(AckStatus::Success)));
    let bd = device.flash.read_boot_data();
    let mut expected = BootData::default_new();
    expected.active_bank = 0;
    expected.version_a = 7;
    expected.crc_a = crc;
    expected.size_a = 4096;
    assert_eq!(bd, expected);
    assert_eq!(device.flash.flash_read(FW_A_ADDR, 4096), fw);
    assert_eq!(device.flash.compute_crc32(FW_A_ADDR, 4096), crc);
}

#[test]
fn upload_with_partial_page_pads_with_erased_bytes() {
    let mut device = Device::new(None);
    let fw = image(1000);
    let (_, responses) = run(&mut device, upload_commands(&fw, 1, 2));
    assert_eq!(*responses.last().unwrap(), ack(AckStatus::Success));
    assert_eq!(device.flash.flash_read(FW_B_ADDR, 1000), fw);
    assert!(device.flash.flash_read(FW_B_ADDR + 1000, 3096).iter().all(|&b| b == 0xFF));
    let bd = device.flash.read_boot_data();
    assert_eq!((bd.active_bank, bd.version_b, bd.size_b), (1, 2, 1000));
}

#[test]
fn corrupted_block_gives_crc_error_and_keeps_boot_data() {
    let mut device = Device::new(None);
    let fw = image(4096);
    let mut cmds = upload_commands(&fw, 0, 7);
    if let Command::DataBlock { data, .. } = &mut cmds[4] {
        data[10] ^= 0x01;
    }
    let before = device.flash.flash_read(BOOT_DATA_ADDR, 4096);
    let (state, responses) = run(&mut device, cmds);
    assert_eq!(*responses.last().unwrap(), ack(AckStatus::CrcError));
    assert_eq!(state, UpdateState::Ready);
    assert_eq!(device.flash.flash_read(BOOT_DATA_ADDR, 4096), before);
    assert_eq!(device.flash.read_boot_data(), BootData::default_new());
}

#[test]
fn out_of_order_block_is_rejected() {
    let mut device = Device::new(None);
    let state = UpdateState::Ready;
    let (state, r) = dispatch_command(
        &mut device,
        state,
        Command::StartUpdate { bank: 0, size: 2048, crc32: 0, version: 1 },
    );
    assert_eq!(r, ack(AckStatus::Success));
    let (state, r) = dispatch_command(
        &mut device,
        state,
        Command::DataBlock { offset: 0, data: vec![1; 1024] },
    );
    assert_eq!(r, ack(AckStatus::Success));
    let (state, r) = dispatch_command(
        &mut device,
        state,
        Command::DataBlock { offset: 2048, data: vec![] },
    );
    assert_eq!(r, ack(AckStatus::BadCommand));
    match state {
        UpdateState::ReceivingData { bytes_received, .. } => assert_eq!(bytes_received, 1024),
        _ => panic!("left the receiving state"),
    }
    let (_, r) = dispatch_command(
        &mut device,
        state,
        Command::DataBlock { offset: 1024, data: vec![2; 1025] },
    );
    assert_eq!(r, ack(AckStatus::BadCommand));
}

#[test]
fn set_active_bank_to_empty_bank_is_refused() {
    let mut device = Device::new(None);
    let fw = image(4096);
    run(&mut device, upload_commands(&fw, 0, 7));
    let (_, r) = dispatch_command(&mut device, UpdateState::Ready, Command::SetActiveBank { bank: 1 });
    assert_eq!(r, ack(AckStatus::BankInvalid));
    assert_eq!(device.flash.read_boot_data().active_bank, 0);
}

#[test]
fn set_active_bank_switches_to_valid_bank() {
    let mut device = Device::new(None);
    run(&mut device, upload_commands(&image(300), 1, 4));
    run(&mut device, upload_commands(&image(500), 0, 5));
    assert_eq!(device.flash.read_boot_data().active_bank, 0);
    let (_, r) = dispatch_command(&mut device, UpdateState::Ready, Command::SetActiveBank { bank: 1 });
    assert_eq!(r, ack(AckStatus::Success));
    let bd = device.flash.read_boot_data();
    assert_eq!((bd.active_bank, bd.version_a, bd.version_b), (1, 5, 4));
}

#[test]
fn set_active_bank_detects_corrupted_bank() {
    let mut device = Device::new(None);
    run(&mut device, upload_commands(&image(256), 1, 4));
    let mut page = vec![0u8; 256];
    page[0] = 0xAA;
    device.flash.flash_program(FW_B_ADDR - 0x1000_0000, &page);
    let (_, r) = dispatch_command(&mut device, UpdateState::Ready, Command::SetActiveBank { bank: 1 });
    assert_eq!(r, ack(AckStatus::CrcError));
}

#[test]
fn start_update_checks_state_bank_and_size() {
    let mut device = Device::new(None);
    let start = |bank, size| Command::StartUpdate { bank, size, crc32: 0, version: 0 };
    let (_, r) = dispatch_command(&mut device, UpdateState::Standby, start(0, 16));
    assert_eq!(r, ack(AckStatus::BadState));
    let (_, r) = dispatch_command(&mut device, UpdateState::Ready, start(2, 16));
    assert_eq!(r, ack(AckStatus::BankInvalid));
    let (_, r) = dispatch_command(&mut device, UpdateState::Ready, start(0, 0));
    assert_eq!(r, ack(AckStatus::BankInvalid));
    let (_, r) = dispatch_command(&mut device, UpdateState::Ready, start(0, 0x0003_0001));
    assert_eq!(r, ack(AckStatus::BankInvalid));
    let (s, r) = dispatch_command(&mut device, UpdateState::Ready, start(1, 0x0003_0000));
    assert_eq!(r, ack(AckStatus::Success));
    assert_eq!(
        s,
        UpdateState::ReceivingData {
            bank: 1,
            bank_addr: FW_B_ADDR,
            expected_size: 0x0003_0000,
            expected_crc: 0,
            version: 0,
            bytes_received: 0
        }
    );
    let (_, r) = dispatch_command(&mut device, s, start(0, 16));
    assert_eq!(r, ack(AckStatus::BadState));
}

#[test]
fn finish_update_requires_all_bytes() {
    let mut device = Device::new(None);
    let (s, _) = dispatch_command(
        &mut device,
        UpdateState::Ready,
        Command::StartUpdate { bank: 0, size: 10, crc32: 0, version: 0 },
    );
    let (s, _) = dispatch_command(&mut device, s, Command::DataBlock { offset: 0, data: vec![1; 4] });
    let (s2, r) = dispatch_command(&mut device, s, Command::FinishUpdate);
    assert_eq!(r, ack(AckStatus::BadCommand));
    assert_eq!(s2, s);
    let (_, r) = dispatch_command(&mut device, UpdateState::Ready, Command::FinishUpdate);
    assert_eq!(r, ack(AckStatus::BadState));
}

#[test]
fn wipe_all_resets_boot_data_only_when_ready() {
    let mut device = Device::new(None);
    run(&mut device, upload_commands(&image(100), 0, 3));
    let receiving = UpdateState::ReceivingData {
        bank: 0,
        bank_addr: FW_A_ADDR,
        expected_size: 4,
        expected_crc: 0,
        version: 0,
        bytes_received: 0,
    };
    let (_, r) = dispatch_command(&mut device, receiving, Command::WipeAll);
    assert_eq!(r, ack(AckStatus::BadState));
    assert_eq!(device.flash.read_boot_data().version_a, 3);
    let (s, r) = dispatch_command(&mut device, UpdateState::Ready, Command::WipeAll);
    assert_eq!((s, r), (UpdateState::Ready, ack(AckStatus::Success)));
    assert_eq!(device.flash.read_boot_data(), BootData::default_new());
}

#[test]
fn get_status_reports_boot_data_and_state() {
    let mut device = Device::new(Some(0x0001_0203));
    run(&mut device, upload_commands(&image(64), 1, 9));
    let (s, r) = dispatch_command(&mut device, UpdateState::Ready, Command::GetStatus);
    assert_eq!(s, UpdateState::Ready);
    assert_eq!(
        r,
        Response::Status {
            active_bank: 1,
            version_a: 0,
            version_b: 9,
            state: BootState::UpdateMode,
            bootloader_version: Some(0x0001_0203)
        }
    );
    let receiving = UpdateState::ReceivingData {
        bank: 0,
        bank_addr: FW_A_ADDR,
        expected_size: 4,
        expected_crc: 0,
        version: 0,
        bytes_received: 0,
    };
    assert_eq!(receiving.as_boot_state(), BootState::Receiving);
}

#[test]
fn reboot_is_acknowledged() {
    let mut device = Device::new(None);
    let (s, r) = dispatch_command(&mut device, UpdateState::Ready, Command::Reboot);
    assert_eq!((s, r), (UpdateState::Ready, ack(AckStatus::Success)));
}

#[test]
fn reboot_is_refused_before_update_mode_is_up() {
    let mut device = Device::new(None);
    for st in [UpdateState::Standby, UpdateState::InitializingUsb] {
        let (s, r) = dispatch_command(&mut device, st, Command::Reboot);
        assert_eq!((s, r), (st, ack(AckStatus::BadState)));
    }
}

#[test]
fn set_active_bank_accepts_recorded_size_beyond_bank_when_crc_matches() {
    let mut device = Device::new(None);
    // Bank A runs into bank B; the CRC covers the whole recorded range.
    let size = 0x000C_0000u32 + 0x100;
    let crc = device.flash.compute_crc32(FW_A_ADDR, size);
    let mut bd = BootData::default_new();
    bd.active_bank = 1;
    bd.size_a = size;
    bd.crc_a = crc;
    device.flash.write_boot_data(&bd);
    let (_, r) = dispatch_command(&mut device, UpdateState::Ready, Command::SetActiveBank { bank: 0 });
    assert_eq!(r, ack(AckStatus::Success));
    assert_eq!(device.flash.read_boot_data().active_bank, 0);

    bd.crc_a = crc ^ 1;
    device.flash.write_boot_data(&bd);
    let (_, r) = dispatch_command(&mut device, UpdateState::Ready, Command::SetActiveBank { bank: 0 });
    assert_eq!(r, ack(AckStatus::CrcError));

    bd.size_a = 0x0020_0000;
    device.flash.write_boot_data(&bd);
    let (_, r) = dispatch_command(&mut device, UpdateState::Ready, Command::SetActiveBank { bank: 0 });
    assert_eq!(r, ack(AckStatus::BankInvalid));
}

#[test]
fn bank_lookups() {
    assert_eq!(bank_addr(0), Some(FW_A_ADDR));
    assert_eq!(bank_addr(1), Some(FW_B_ADDR));
    assert_eq!(bank_addr(2), None);
    let mut bd = BootData::default_new();
    bd.size_b = 12;
    bd.crc_b = 34;
    assert_eq!(bank_firmware_info(&bd, 1), Some((12, 34)));
    assert_eq!(bank_firmware_info(&bd, 0), Some((0, 0)));
    assert_eq!(bank_firmware_info(&bd, 5), None);
}

#[test]
fn ram_crc_covers_staged_bytes() {
    let mut device = Device::new(None);
    device.copy_to_ram_buffer(0, b"123456789");
    assert_eq!(device.compute_ram_crc32(9), 0xCBF4_3926);
}
