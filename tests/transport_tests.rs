use crispy::transport::{
    decode_response_frame, encode_command_frame, encode_response_frame, write_start, write_step,
    FrameDecoder, TxAction, TxProgress, WriteOutcome, MAX_POLLS, RX_BUF_SIZE,
};
use crispy::wire::{
    decode_command, decode_response, encode_command, encode_response, AckStatus, BootState,
    Command, Response,
};

fn feed_all(dec: &mut FrameDecoder, bytes: &[u8]) -> Vec<Command> {
    let mut out = Vec::new();
    for &b in bytes {
        if let Some(c) = dec.process_byte(b) {
            out.push(c);
        }
    }
    out
}

#[test]
fn command_payload_layout() {
    let c = Command::StartUpdate { bank: 1, size: 0x0102_0304, crc32: 0xAABB_CCDD, version: 7 };
    assert_eq!(
        encode_command(&c),
        vec![1, 1, 4, 3, 2, 1, 0xDD, 0xCC, 0xBB, 0xAA, 7, 0, 0, 0]
    );
    let d = Command::DataBlock { offset: 1024, data: vec![9; 200] };
    let bytes = encode_command(&d);
    assert_eq!(&bytes[..7], &[2, 0, 4, 0, 0, 200, 1]);
    assert_eq!(bytes.len(), 7 + 200);
    assert_eq!(encode_command(&Command::WipeAll), vec![6]);
}

#[test]
fn command_round_trips() {
    let cmds = vec![
        Command::GetStatus,
        Command::StartUpdate { bank: 0, size: 4096, crc32: 0x1234_5678, version: 3 },
        Command::DataBlock { offset: 3072, data: vec![5; 1024] },
        Command::DataBlock { offset: 0, data: vec![] },
        Command::FinishUpdate,
        Command::Reboot,
        Command::SetActiveBank { bank: 1 },
        Command::WipeAll,
    ];
    for c in cmds {
        assert_eq!(decode_command(&encode_command(&c)), Some(c));
    }
}

#[test]
fn malformed_payloads_are_refused() {
    assert_eq!(decode_command(&[]), None);
    assert_eq!(decode_command(&[7]), None);
    assert_eq!(decode_command(&[0, 0]), None);
    assert_eq!(decode_command(&[2, 0, 0, 0, 0, 3, 1, 2]), None);
    assert_eq!(decode_response(&[0, 9]), None);
}

#[test]
fn response_round_trips() {
    let rs = vec![
        Response::Ack(AckStatus::Success),
        Response::Ack(AckStatus::CrcError),
        Response::Status {
            active_bank: 1,
            version_a: 2,
            version_b: 3,
            state: BootState::Receiving,
            bootloader_version: Some(0x0001_0200),
        },
        Response::Status {
            active_bank: 0,
            version_a: 0,
            version_b: 0,
            state: BootState::UpdateMode,
            bootloader_version: None,
        },
    ];
    for r in rs {
        assert_eq!(decode_response(&encode_response(&r)), Some(r));
        let frame = encode_response_frame(&r);
        assert_eq!(*frame.last().unwrap(), 0);
        assert!(frame[..frame.len() - 1].iter().all(|&b| b != 0));
        assert_eq!(decode_response_frame(&frame), Some(r));
    }
    assert_eq!(encode_response(&Response::Ack(AckStatus::BankInvalid)), vec![0, 3]);
}

#[test]
fn frames_are_stuffed_and_delimited() {
    let c = Command::StartUpdate { bank: 0, size: 256, crc32: 0, version: 0 };
    let payload = encode_command(&c);
    let frame = encode_command_frame(&c);
    assert_eq!(*frame.last().unwrap(), 0);
    assert!(frame[..frame.len() - 1].iter().all(|&b| b != 0));
    assert_ne!(&frame[..frame.len() - 1], &payload[..]);
    let mut dec = FrameDecoder::new();
    assert_eq!(feed_all(&mut dec, &frame), vec![c]);
}

#[test]
fn decoder_resynchronises_after_corruption() {
    let mut dec = FrameDecoder::new();
    let mut stream = vec![0x55, 0x13, 0x99];
    stream.push(0);
    stream.extend(encode_command_frame(&Command::FinishUpdate));
    stream.extend(encode_command_frame(&Command::SetActiveBank { bank: 1 }));
    assert_eq!(
        feed_all(&mut dec, &stream),
        vec![Command::FinishUpdate, Command::SetActiveBank { bank: 1 }]
    );
}

#[test]
fn decoder_discards_overlong_frame() {
    let mut dec = FrameDecoder::new();
    let junk = vec![0x42u8; RX_BUF_SIZE + 1];
    assert!(feed_all(&mut dec, &junk).is_empty());
    let frame = encode_command_frame(&Command::GetStatus);
    let mut stream = vec![0u8];
    stream.extend(frame);
    assert_eq!(feed_all(&mut dec, &stream), vec![Command::GetStatus]);
}

#[test]
fn receive_stops_at_first_command() {
    let mut dec = FrameDecoder::new();
    let mut bytes = encode_command_frame(&Command::Reboot);
    bytes.extend(encode_command_frame(&Command::WipeAll));
    assert_eq!(dec.try_receive(&bytes), Some(Command::Reboot));
    assert_eq!(dec.try_receive(&[]), None);
}

#[test]
fn drain_keeps_command_for_next_receive() {
    let mut dec = FrameDecoder::new();
    dec.drain(&encode_command_frame(&Command::GetStatus));
    assert!(dec.has_pending());
    assert_eq!(dec.take_pending(), Some(Command::GetStatus));
    assert_eq!(dec.take_pending(), None);
}

#[test]
fn try_receive_delivers_held_command_first() {
    let mut dec = FrameDecoder::new();
    dec.drain(&encode_command_frame(&Command::WipeAll));
    assert_eq!(dec.try_receive(&[]), Some(Command::WipeAll));
    assert!(!dec.has_pending());
    assert_eq!(dec.try_receive(&encode_command_frame(&Command::Reboot)), Some(Command::Reboot));
}

#[test]
fn write_loop_succeeds_when_all_bytes_are_taken() {
    let (p, a) = write_start(10);
    assert_eq!(a, TxAction::Write);
    let (p, a) = write_step(p, WriteOutcome::Wrote(4));
    assert_eq!((p.offset, a), (4, TxAction::Write));
    let (p, a) = write_step(p, WriteOutcome::WouldBlock);
    assert_eq!((p.poll_count, a), (1, TxAction::PollAndDrain));
    let (p, a) = write_step(p, WriteOutcome::Wrote(6));
    assert_eq!((p.offset, p.poll_count, a), (10, 0, TxAction::Done(true)));
    assert_eq!(write_start(0).1, TxAction::Done(true));
}

#[test]
fn write_loop_gives_up_after_max_polls() {
    let (mut p, _) = write_start(8);
    let mut blocked = 0;
    loop {
        let (q, a) = write_step(p, WriteOutcome::WouldBlock);
        p = q;
        blocked += 1;
        match a {
            TxAction::PollAndDrain => continue,
            TxAction::Done(ok) => {
                assert!(!ok);
                break;
            }
            TxAction::Write => panic!("no progress was made"),
        }
    }
    assert_eq!(blocked, MAX_POLLS + 1);
    let p = TxProgress { offset: 2, poll_count: 0, len: 8 };
    assert_eq!(write_step(p, WriteOutcome::Failed).1, TxAction::Done(false));
}
