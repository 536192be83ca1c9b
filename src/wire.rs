//! Protocol messages and their payload encoding: a tag byte for the variant,
//! then the fields in declaration order, integers little-endian, byte
//! strings prefixed by a varint length.
use vstd::prelude::*;
use crate::bytes::{le32, from_le32, push_le32, read_le32, lemma_le32_inverse, copy_range};
use crate::protocol::MAX_DATA_BLOCK_SIZE;

verus! {

/// Outcome carried by an acknowledgement.
#[derive(Clone, Copy, Debug, PartialEq, Eq, Structural)]
pub enum AckStatus {
    Success,
    BadCommand,
    BadState,
    BankInvalid,
    CrcError,
}

/// Bootloader activity reported in a status response.
#[derive(Clone, Copy, Debug, PartialEq, Eq, Structural)]
pub enum BootState {
    UpdateMode,
    Receiving,
}

/// A request from the host.
#[derive(Clone, Debug, PartialEq, Eq)]
pub enum Command {
    GetStatus,
    StartUpdate { bank: u8, size: u32, crc32: u32, version: u32 },
    DataBlock { offset: u32, data: Vec<u8> },
    FinishUpdate,
    Reboot,
    SetActiveBank { bank: u8 },
    WipeAll,
}

/// The mathematical value of a `Command`.
pub enum CommandModel {
    GetStatus,
    StartUpdate { bank: u8, size: u32, crc32: u32, version: u32 },
    DataBlock { offset: u32, data: Seq<u8> },
    FinishUpdate,
    Reboot,
    SetActiveBank { bank: u8 },
    WipeAll,
}

impl View for Command {
    type V = CommandModel;

    open spec fn view(&self) -> CommandModel {
        match self {
            Command::GetStatus => CommandModel::GetStatus,
            Command::StartUpdate { bank, size, crc32, version } => CommandModel::StartUpdate {
                bank: *bank,
                size: *size,
                crc32: *crc32,
                version: *version,
            },
            Command::DataBlock { offset, data } => CommandModel::DataBlock {
                offset: *offset,
                data: data@,
            },
            Command::FinishUpdate => CommandModel::FinishUpdate,
            Command::Reboot => CommandModel::Reboot,
            Command::SetActiveBank { bank } => CommandModel::SetActiveBank { bank: *bank },
            Command::WipeAll => CommandModel::WipeAll,
        }
    }
}

/// A command is well formed when its data block fits the protocol limit.
pub open spec fn command_wf(m: CommandModel) -> bool {
    match m {
        CommandModel::DataBlock { data, .. } => data.len() <= MAX_DATA_BLOCK_SIZE,
        _ => true,
    }
}

/// A reply from the device.
#[derive(Clone, Copy, Debug, PartialEq, Eq)]
pub enum Response {
    Ack(AckStatus),
    Status {
        active_bank: u8,
        version_a: u32,
        version_b: u32,
        state: BootState,
        bootloader_version: Option<u32>,
    },
}

pub open spec fn ack_tag(s: AckStatus) -> u8 {
    match s {
        AckStatus::Success => 0,
        AckStatus::BadCommand => 1,
        AckStatus::BadState => 2,
        AckStatus::BankInvalid => 3,
        AckStatus::CrcError => 4,
    }
}

pub open spec fn ack_of_tag(t: u8) -> Option<AckStatus> {
    if t == 0 {
        Some(AckStatus::Success)
    } else if t == 1 {
        Some(AckStatus::BadCommand)
    } else if t == 2 {
        Some(AckStatus::BadState)
    } else if t == 3 {
        Some(AckStatus::BankInvalid)
    } else if t == 4 {
        Some(AckStatus::CrcError)
    } else {
        None
    }
}

pub open spec fn state_tag(s: BootState) -> u8 {
    match s {
        BootState::UpdateMode => 0,
        BootState::Receiving => 1,
    }
}

pub open spec fn state_of_tag(t: u8) -> Option<BootState> {
    if t == 0 {
        Some(BootState::UpdateMode)
    } else if t == 1 {
        Some(BootState::Receiving)
    } else {
        None
    }
}

/// Varint (LEB128) encoding of a length below 2^14.
pub open spec fn varint(n: nat) -> Seq<u8> {
    if n < 128 {
        seq![n as u8]
    } else {
        seq![(n % 128 + 128) as u8, (n / 128) as u8]
    }
}

/// The length and its byte count read as a varint of at most two bytes at
/// `b[i..]`.
pub open spec fn varint_at(b: Seq<u8>, i: int) -> Option<(nat, nat)> {
    if i < b.len() && b[i] < 128 {
        Some((b[i] as nat, 1nat))
    } else if i + 1 < b.len() && b[i + 1] < 128 {
        Some(((b[i] - 128) as nat + 128 * (b[i + 1] as nat), 2nat))
    } else {
        None
    }
}

pub open spec fn le32_at(b: Seq<u8>, i: int) -> u32 {
    from_le32(b[i], b[i + 1], b[i + 2], b[i + 3])
}

/// Payload encoding of a command.
pub open spec fn spec_encode_command(m: CommandModel) -> Seq<u8> {
    match m {
        CommandModel::GetStatus => seq![0u8],
        CommandModel::StartUpdate { bank, size, crc32, version } => seq![1u8, bank] + le32(size)
            + le32(crc32) + le32(version),
        CommandModel::DataBlock { offset, data } => seq![2u8] + le32(offset) + varint(data.len())
            + data,
        CommandModel::FinishUpdate => seq![3u8],
        CommandModel::Reboot => seq![4u8],
        CommandModel::SetActiveBank { bank } => seq![5u8, bank],
        CommandModel::WipeAll => seq![6u8],
    }
}

/// The command whose payload is exactly `b`, if any.
pub open spec fn spec_decode_command(b: Seq<u8>) -> Option<CommandModel> {
    if b.len() == 0 {
        None
    } else if b[0] == 0 && b.len() == 1 {
        Some(CommandModel::GetStatus)
    } else if b[0] == 1 && b.len() == 14 {
        Some(
            CommandModel::StartUpdate {
                bank: b[1],
                size: le32_at(b, 2),
                crc32: le32_at(b, 6),
                version: le32_at(b, 10),
            },
        )
    } else if b[0] == 2 && b.len() >= 6 {
        match varint_at(b, 5) {
            Some((n, k)) => if n <= MAX_DATA_BLOCK_SIZE && b.len() == 5 + k + n {
                Some(
                    CommandModel::DataBlock {
                        offset: le32_at(b, 1),
                        data: b.subrange(5 + k as int, b.len() as int),
                    },
                )
            } else {
                None
            },
            None => None,
        }
    } else if b[0] == 3 && b.len() == 1 {
        Some(CommandModel::FinishUpdate)
    } else if b[0] == 4 && b.len() == 1 {
        Some(CommandModel::Reboot)
    } else if b[0] == 5 && b.len() == 2 {
        Some(CommandModel::SetActiveBank { bank: b[1] })
    } else if b[0] == 6 && b.len() == 1 {
        Some(CommandModel::WipeAll)
    } else {
        None
    }
}

/// Payload encoding of a response.
pub open spec fn spec_encode_response(r: Response) -> Seq<u8> {
    match r {
        Response::Ack(s) => seq![0u8, ack_tag(s)],
        Response::Status { active_bank, version_a, version_b, state, bootloader_version } => seq![
            1u8,
            active_bank,
        ] + le32(version_a) + le32(version_b) + seq![state_tag(state)] + match bootloader_version {
            None => seq![0u8],
            Some(v) => seq![1u8] + le32(v),
        },
    }
}

/// The response whose payload is exactly `b`, if any.
pub open spec fn spec_decode_response(b: Seq<u8>) -> Option<Response> {
    if b.len() == 2 && b[0] == 0 {
        match ack_of_tag(b[1]) {
            Some(s) => Some(Response::Ack(s)),
            None => None,
        }
    } else if b.len() >= 12 && b[0] == 1 {
        match state_of_tag(b[10]) {
            Some(st) => if b.len() == 12 && b[11] == 0 {
                Some(
                    Response::Status {
                        active_bank: b[1],
                        version_a: le32_at(b, 2),
                        version_b: le32_at(b, 6),
                        state: st,
                        bootloader_version: None,
                    },
                )
            } else if b.len() == 16 && b[11] == 1 {
                Some(
                    Response::Status {
                        active_bank: b[1],
                        version_a: le32_at(b, 2),
                        version_b: le32_at(b, 6),
                        state: st,
                        bootloader_version: Some(le32_at(b, 12)),
                    },
                )
            } else {
                None
            },
            None => None,
        }
    } else {
        None
    }
}


/// The model of an optional command.
pub open spec fn option_model(r: Option<Command>) -> Option<CommandModel> {
    match r {
        Some(c) => Some(c@),
        None => None,
    }
}

fn push_varint(out: &mut Vec<u8>, n: usize)
    requires
        n < 16384,
    ensures
        final(out)@ == old(out)@ + varint(n as nat),
{
    if n < 128 {
        out.push(n as u8);
    } else {
        out.push((n % 128 + 128) as u8);
        out.push((n / 128) as u8);
    }
    assert(final(out)@ =~= old(out)@ + varint(n as nat));
}

fn push_all(out: &mut Vec<u8>, data: &[u8])
    ensures
        final(out)@ == old(out)@ + data@,
{
    let mut k: usize = 0;
    while k < data.len()
        invariant
            k <= data@.len(),
            out@ == old(out)@ + data@.subrange(0, k as int),
        decreases data@.len() - k,
    {
        out.push(data[k]);
        k = k + 1;
        assert(out@ =~= old(out)@ + data@.subrange(0, k as int));
    }
    assert(data@.subrange(0, data@.len() as int) =~= data@);
}

/// Encodes a command as its payload bytes.
pub fn encode_command(c: &Command) -> (r: Vec<u8>)
    requires
        command_wf(c@),
    ensures
        r@ == spec_encode_command(c@),
{
    let mut out: Vec<u8> = Vec::new();
    match c {
        Command::GetStatus => out.push(0),
        Command::StartUpdate { bank, size, crc32, version } => {
            out.push(1);
            out.push(*bank);
            push_le32(&mut out, *size);
            push_le32(&mut out, *crc32);
            push_le32(&mut out, *version);
        },
        Command::DataBlock { offset, data } => {
            out.push(2);
            push_le32(&mut out, *offset);
            push_varint(&mut out, data.len());
            push_all(&mut out, data.as_slice());
        },
        Command::FinishUpdate => out.push(3),
        Command::Reboot => out.push(4),
        Command::SetActiveBank { bank } => {
            out.push(5);
            out.push(*bank);
        },
        Command::WipeAll => out.push(6),
    }
    assert(out@ =~= spec_encode_command(c@));
    out
}

/// Decodes a payload that holds exactly one command.
pub fn decode_command(b: &[u8]) -> (r: Option<Command>)
    ensures
        option_model(r) == spec_decode_command(b@),
{
    let n = b.len();
    if n == 0 {
        return None;
    }
    let tag = b[0];
    if tag == 0 && n == 1 {
        Some(Command::GetStatus)
    } else if tag == 1 && n == 14 {
        Some(
            Command::StartUpdate {
                bank: b[1],
                size: read_le32(b, 2),
                crc32: read_le32(b, 6),
                version: read_le32(b, 10),
            },
        )
    } else if tag == 2 && n >= 6 {
        let (len, k): (usize, usize) = if b[5] < 128 {
            (b[5] as usize, 1)
        } else if n >= 7 && b[6] < 128 {
            ((b[5] - 128) as usize + 128 * (b[6] as usize), 2)
        } else {
            return None;
        };
        if len <= MAX_DATA_BLOCK_SIZE && n == 5 + k + len {
            let data = copy_range(b, 5 + k, n);
            Some(Command::DataBlock { offset: read_le32(b, 1), data })
        } else {
            None
        }
    } else if tag == 3 && n == 1 {
        Some(Command::FinishUpdate)
    } else if tag == 4 && n == 1 {
        Some(Command::Reboot)
    } else if tag == 5 && n == 2 {
        Some(Command::SetActiveBank { bank: b[1] })
    } else if tag == 6 && n == 1 {
        Some(Command::WipeAll)
    } else {
        None
    }
}

/// Decoding the payload of a well-formed command gives back that command.
pub proof fn lemma_command_round_trip(m: CommandModel)
    requires
        command_wf(m),
    ensures
        spec_decode_command(spec_encode_command(m)) == Some(m),
{
    let b = spec_encode_command(m);
    match m {
        CommandModel::StartUpdate { bank, size, crc32, version } => {
            lemma_le32_inverse(size);
            lemma_le32_inverse(crc32);
            lemma_le32_inverse(version);
            assert(b.len() == 14);
            assert(b[2] == le32(size)[0] && b[3] == le32(size)[1] && b[4] == le32(size)[2]
                && b[5] == le32(size)[3]);
            assert(b[6] == le32(crc32)[0] && b[7] == le32(crc32)[1] && b[8] == le32(crc32)[2]
                && b[9] == le32(crc32)[3]);
            assert(b[10] == le32(version)[0] && b[11] == le32(version)[1] && b[12] == le32(
                version,
            )[2] && b[13] == le32(version)[3]);
        },
        CommandModel::DataBlock { offset, data } => {
            lemma_le32_inverse(offset);
            let n = data.len();
            let k = varint(n).len();
            assert(b[1] == le32(offset)[0] && b[2] == le32(offset)[1] && b[3] == le32(offset)[2]
                && b[4] == le32(offset)[3]);
            if n < 128 {
                assert(b[5] == n as u8);
                assert(varint_at(b, 5) == Some((n, 1nat)));
            } else {
                assert(b[5] == (n % 128 + 128) as u8);
                assert(b[6] == (n / 128) as u8);
                assert(varint_at(b, 5) == Some((n, 2nat)));
            }
            assert(b.subrange(5 + k as int, b.len() as int) =~= data);
        },
        _ => {},
    }
}


fn ack_to_tag(s: AckStatus) -> (r: u8)
    ensures
        r == ack_tag(s),
{
    match s {
        AckStatus::Success => 0,
        AckStatus::BadCommand => 1,
        AckStatus::BadState => 2,
        AckStatus::BankInvalid => 3,
        AckStatus::CrcError => 4,
    }
}

fn ack_from_tag(t: u8) -> (r: Option<AckStatus>)
    ensures
        r == ack_of_tag(t),
{
    if t == 0 {
        Some(AckStatus::Success)
    } else if t == 1 {
        Some(AckStatus::BadCommand)
    } else if t == 2 {
        Some(AckStatus::BadState)
    } else if t == 3 {
        Some(AckStatus::BankInvalid)
    } else if t == 4 {
        Some(AckStatus::CrcError)
    } else {
        None
    }
}

/// Encodes a response as its payload bytes.
pub fn encode_response(r: &Response) -> (out: Vec<u8>)
    ensures
        out@ == spec_encode_response(*r),
{
    let mut out: Vec<u8> = Vec::new();
    match r {
        Response::Ack(s) => {
            out.push(0);
            out.push(ack_to_tag(*s));
        },
        Response::Status { active_bank, version_a, version_b, state, bootloader_version } => {
            out.push(1);
            out.push(*active_bank);
            push_le32(&mut out, *version_a);
            push_le32(&mut out, *version_b);
            match state {
                BootState::UpdateMode => out.push(0),
                BootState::Receiving => out.push(1),
            }
            match bootloader_version {
                None => out.push(0),
                Some(v) => {
                    out.push(1);
                    push_le32(&mut out, *v);
                },
            }
        },
    }
    assert(out@ =~= spec_encode_response(*r));
    out
}

/// Decodes a payload that holds exactly one response.
pub fn decode_response(b: &[u8]) -> (r: Option<Response>)
    ensures
        r == spec_decode_response(b@),
{
    let n = b.len();
    if n == 2 && b[0] == 0 {
        match ack_from_tag(b[1]) {
            Some(s) => Some(Response::Ack(s)),
            None => None,
        }
    } else if n >= 12 && b[0] == 1 {
        let state = if b[10] == 0 {
            BootState::UpdateMode
        } else if b[10] == 1 {
            BootState::Receiving
        } else {
            return None;
        };
        let bootloader_version = if n == 12 && b[11] == 0 {
            None
        } else if n == 16 && b[11] == 1 {
            Some(read_le32(b, 12))
        } else {
            return None;
        };
        Some(
            Response::Status {
                active_bank: b[1],
                version_a: read_le32(b, 2),
                version_b: read_le32(b, 6),
                state,
                bootloader_version,
            },
        )
    } else {
        None
    }
}

/// Decoding the payload of a response gives back that response.
pub proof fn lemma_response_round_trip(r: Response)
    ensures
        spec_decode_response(spec_encode_response(r)) == Some(r),
{
    let b = spec_encode_response(r);
    match r {
        Response::Ack(s) => {},
        Response::Status { active_bank, version_a, version_b, state, bootloader_version } => {
            lemma_le32_inverse(version_a);
            lemma_le32_inverse(version_b);
            assert(b[2] == le32(version_a)[0] && b[3] == le32(version_a)[1] && b[4] == le32(
                version_a,
            )[2] && b[5] == le32(version_a)[3]);
            assert(b[6] == le32(version_b)[0] && b[7] == le32(version_b)[1] && b[8] == le32(
                version_b,
            )[2] && b[9] == le32(version_b)[3]);
            assert(b[10] == state_tag(state));
            match bootloader_version {
                None => {
                    assert(b.len() == 12 && b[11] == 0);
                },
                Some(v) => {
                    lemma_le32_inverse(v);
                    assert(b.len() == 16 && b[11] == 1);
                    assert(b[12] == le32(v)[0] && b[13] == le32(v)[1] && b[14] == le32(v)[2]
                        && b[15] == le32(v)[3]);
                },
            }
        },
    }
}

} // verus!
