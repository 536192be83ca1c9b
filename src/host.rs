//! Host-side uploader logic: command-line model, argument parsing, the
//! command sequence of an upload, and version packing.
use vstd::prelude::*;
use vstd::string::StringExecFns;
use crate::flash::{crc32, crc32_of};
use crate::protocol::MAX_DATA_BLOCK_SIZE;
use crate::bytes::copy_range;
use crate::wire::{Command, CommandModel, command_wf};

verus! {

/// Bytes of firmware per data block.
pub const CHUNK_SIZE: usize = MAX_DATA_BLOCK_SIZE;

/// Command-line arguments of the uploader.
pub struct Cli {
    /// Serial port of the device.
    pub port: Option<String>,
    pub command: Commands,
}

/// Uploader subcommands.
pub enum Commands {
    /// Query the bootloader status.
    Status,
    /// Upload a firmware file to a bank.
    Upload { file: String, bank: u8, version: u32 },
    /// Select the bank to boot next.
    SetBank { bank: u8 },
    /// Reset the boot record.
    Wipe,
    /// Restart the device.
    Reboot,
    /// Convert a raw binary into UF2.
    Bin2Uf2 { input: String, output: String, base_address: u32, family_id: u32 },
}

/// Value of `c` as a digit in base `radix` (10 or 16).
pub open spec fn digit_value(c: char, radix: nat) -> Option<nat> {
    if '0' <= c && c <= '9' && (c as nat) - ('0' as nat) < radix {
        Some(((c as nat) - ('0' as nat)) as nat)
    } else if radix == 16 && 'a' <= c && c <= 'f' {
        Some(((c as nat) - ('a' as nat) + 10) as nat)
    } else if radix == 16 && 'A' <= c && c <= 'F' {
        Some(((c as nat) - ('A' as nat) + 10) as nat)
    } else {
        None
    }
}

/// The number written by the digits `cs` in base `radix`.
pub open spec fn digits_value(cs: Seq<char>, radix: nat) -> Option<nat>
    decreases cs.len(),
{
    if cs.len() == 0 {
        Some(0)
    } else {
        match (digits_value(cs.drop_last(), radix), digit_value(cs.last(), radix)) {
            (Some(v), Some(d)) => Some(v * radix + d),
            _ => None,
        }
    }
}

/// A non-empty run of digits in base `radix` whose value fits a `u32`.
pub open spec fn spec_parse_u32(cs: Seq<char>, radix: nat) -> Option<u32> {
    if cs.len() == 0 {
        None
    } else {
        match digits_value(cs, radix) {
            Some(v) => if v <= u32::MAX {
                Some(v as u32)
            } else {
                None
            },
            None => None,
        }
    }
}

fn digit_of(c: char, radix: u32) -> (r: Option<u32>)
    requires
        radix == 10 || radix == 16,
    ensures
        match digit_value(c, radix as nat) {
            Some(d) => r == Some(d as u32),
            None => r is None,
        },
{
    if '0' <= c && c <= '9' && (c as u32) - ('0' as u32) < radix {
        Some((c as u32) - ('0' as u32))
    } else if radix == 16 && 'a' <= c && c <= 'f' {
        Some((c as u32) - ('a' as u32) + 10)
    } else if radix == 16 && 'A' <= c && c <= 'F' {
        Some((c as u32) - ('A' as u32) + 10)
    } else {
        None
    }
}

/// Parses the characters `s[from..]` as a number in base `radix`.
fn parse_u32_from(s: &str, from: usize, radix: u32) -> (r: Option<u32>)
    requires
        from <= s@.len(),
        radix == 10 || radix == 16,
    ensures
        r == spec_parse_u32(s@.subrange(from as int, s@.len() as int), radix as nat),
{
    let len = s.unicode_len();
    let ghost cs = s@.subrange(from as int, s@.len() as int);
    if from == len {
        return None;
    }
    // 0: valid so far, 1: valid but above u32::MAX, 2: holds a non-digit.
    let mut status: u8 = 0;
    let mut value: u64 = 0;
    let mut i: usize = from;
    while i < len
        invariant
            from <= i <= len,
            len == s@.len(),
            radix == 10 || radix == 16,
            cs == s@.subrange(from as int, s@.len() as int),
            status <= 2,
            status == 0 ==> digits_value(cs.subrange(0, i - from), radix as nat) == Some(
                value as nat,
            ) && value <= u32::MAX,
            status == 1 ==> (digits_value(cs.subrange(0, i - from), radix as nat) matches Some(v)
                && v > u32::MAX),
            status == 2 ==> digits_value(cs.subrange(0, i - from), radix as nat) is None,
        decreases len - i,
    {
        let c = s.get_char(i);
        let ghost prefix = cs.subrange(0, i - from);
        assert(cs.subrange(0, i + 1 - from).drop_last() =~= prefix);
        assert(cs.subrange(0, i + 1 - from).last() == c);
        let d = digit_of(c, radix);
        match d {
            None => {
                status = 2;
            },
            Some(dv) => {
                if status == 0 {
                    let next = value * (radix as u64) + dv as u64;
                    if next > u32::MAX as u64 {
                        status = 1;
                    } else {
                        value = next;
                    }
                } else if status == 1 {
                    let ghost v = digits_value(prefix, radix as nat)->0;
                    assert(v * radix + dv > u32::MAX) by (nonlinear_arith)
                        requires
                            v > u32::MAX,
                            radix >= 10,
                    ;
                }
            },
        }
        i = i + 1;
    }
    assert(cs.subrange(0, len - from) =~= cs);
    if status == 0 {
        Some(value as u32)
    } else {
        None
    }
}

/// The text after an optional `0x` or `0X` prefix.
pub open spec fn strip_hex_prefix(cs: Seq<char>) -> Seq<char> {
    if cs.len() >= 2 && cs[0] == '0' && (cs[1] == 'x' || cs[1] == 'X') {
        cs.subrange(2, cs.len() as int)
    } else {
        cs
    }
}

/// The value written in hexadecimal by `cs`, with or without a `0x`
/// prefix; a `+` may precede the digits.
pub open spec fn spec_parse_hex_u32(cs: Seq<char>) -> Option<u32> {
    let d = strip_hex_prefix(cs);
    if d.len() > 0 && d[0] == '+' {
        spec_parse_u32(d.subrange(1, d.len() as int), 16)
    } else {
        spec_parse_u32(d, 16)
    }
}

/// Parses a hexadecimal `u32`, with or without a `0x` or `0X` prefix.
pub fn parse_hex_u32(s: &str) -> (r: Result<u32, String>)
    ensures
        match spec_parse_hex_u32(s@) {
            Some(v) => r == Ok::<u32, String>(v),
            None => r is Err,
        },
{
    let len = s.unicode_len();
    let mut from: usize = 0;
    if len >= 2 && s.get_char(0) == '0' && (s.get_char(1) == 'x' || s.get_char(1) == 'X') {
        from = 2;
    }
    let ghost d = strip_hex_prefix(s@);
    assert(d =~= s@.subrange(from as int, len as int));
    if from < len && s.get_char(from) == '+' {
        from = from + 1;
        assert(d.subrange(1, d.len() as int) =~= s@.subrange(from as int, len as int));
    }
    match parse_u32_from(s, from, 16) {
        Some(v) => Ok(v),
        None => Err(String::from_str("invalid hex value")),
    }
}

/// Packs a version as `major << 16 | minor << 8 | patch`; the top byte is
/// reserved and zero.
pub open spec fn spec_pack_semver(major: u8, minor: u8, patch: u8) -> u32 {
    ((major as u32) << 16) | ((minor as u32) << 8) | (patch as u32)
}

pub fn pack_semver(major: u8, minor: u8, patch: u8) -> (r: u32)
    ensures
        r == spec_pack_semver(major, minor, patch),
{
    ((major as u32) << 16) | ((minor as u32) << 8) | (patch as u32)
}

/// The (major, minor, patch) bytes of a packed version.
pub fn unpack_semver(v: u32) -> (r: (u8, u8, u8))
    ensures
        r == (((v >> 16) & 0xff) as u8, ((v >> 8) & 0xff) as u8, (v & 0xff) as u8),
{
    (((v >> 16) & 0xff) as u8, ((v >> 8) & 0xff) as u8, (v & 0xff) as u8)
}

/// Unpacking a packed version gives back its three parts.
pub proof fn lemma_semver_round_trip(major: u8, minor: u8, patch: u8)
    ensures
        ({
            let v = spec_pack_semver(major, minor, patch);
            (((v >> 16) & 0xff) as u8, ((v >> 8) & 0xff) as u8, (v & 0xff) as u8) == (
                major,
                minor,
                patch,
            )
        }),
{
    let v = spec_pack_semver(major, minor, patch);
    assert(((v >> 16) & 0xff) as u8 == major && ((v >> 8) & 0xff) as u8 == minor && (v & 0xff) as u8
        == patch) by (bit_vector)
        requires
            v == ((major as u32) << 16) | ((minor as u32) << 8) | (patch as u32),
    ;
}

/// Number of data blocks for `len` bytes of firmware.
pub open spec fn chunk_count(len: nat) -> nat {
    ((len + CHUNK_SIZE - 1) / (CHUNK_SIZE as int)) as nat
}

/// Data block `i` of `firmware`: `CHUNK_SIZE` bytes, the last one shorter.
pub open spec fn spec_chunk(firmware: Seq<u8>, i: nat) -> Seq<u8> {
    let start: int = (i * CHUNK_SIZE) as int;
    let end: int = if start + CHUNK_SIZE <= firmware.len() {
        start + CHUNK_SIZE
    } else {
        firmware.len() as int
    };
    firmware.subrange(start, end)
}

/// The commands of an upload of `firmware` to `bank`: `StartUpdate` with
/// the size, CRC-32 and version, the data blocks at offsets 0, L, 2L, ...
/// (L = `CHUNK_SIZE`, the last block possibly shorter), then `FinishUpdate`.
pub fn upload_commands(firmware: &[u8], bank: u8, version: u32) -> (r: Vec<Command>)
    requires
        firmware@.len() <= u32::MAX,
    ensures
        r@.len() == chunk_count(firmware@.len()) + 2,
        r@[0]@ == (CommandModel::StartUpdate {
            bank,
            size: firmware@.len() as u32,
            crc32: crc32_of(firmware@),
            version,
        }),
        forall|i: int|
            0 <= i < chunk_count(firmware@.len()) ==> (#[trigger] r@[i + 1])@ == (
            CommandModel::DataBlock {
                offset: (i * CHUNK_SIZE) as u32,
                data: spec_chunk(firmware@, i as nat),
            }),
        r@[r@.len() - 1]@ == CommandModel::FinishUpdate,
        forall|i: int| 0 <= i < r@.len() ==> command_wf(#[trigger] r@[i]@),
{
    let len = firmware.len();
    let n = len / CHUNK_SIZE + if len % CHUNK_SIZE == 0 { 0 } else { 1 };
    assert(n == chunk_count(len as nat));
    let mut out: Vec<Command> = Vec::new();
    out.push(
        Command::StartUpdate { bank, size: len as u32, crc32: crc32(firmware), version },
    );
    let mut i: usize = 0;
    while i < n
        invariant
            i <= n,
            n == chunk_count(len as nat),
            len == firmware@.len(),
            len <= u32::MAX,
            out@.len() == i + 1,
            out@[0]@ == (CommandModel::StartUpdate {
                bank,
                size: len as u32,
                crc32: crc32_of(firmware@),
                version,
            }),
            forall|j: int|
                0 <= j < i ==> (#[trigger] out@[j + 1])@ == (CommandModel::DataBlock {
                    offset: (j * CHUNK_SIZE) as u32,
                    data: spec_chunk(firmware@, j as nat),
                }),
            forall|j: int| 0 <= j < out@.len() ==> command_wf(#[trigger] out@[j]@),
        decreases n - i,
    {
        assert(i * CHUNK_SIZE < len) by (nonlinear_arith)
            requires
                i < n,
                n == (len + 1023) / 1024,
        ;
        let start = i * CHUNK_SIZE;
        let end = if len - start >= CHUNK_SIZE { start + CHUNK_SIZE } else { len };
        let data = copy_range(firmware, start, end);
        out.push(Command::DataBlock { offset: start as u32, data });
        i = i + 1;
    }
    out.push(Command::FinishUpdate);
    out
}

} // verus!
