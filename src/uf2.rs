//! UF2 container encoding: 512-byte blocks, each a 32-byte header, a
//! 256-byte zero-padded payload, 220 zero bytes and a 4-byte trailer.
use vstd::prelude::*;
use crate::bytes::{le32, push_le32};

verus! {

pub const UF2_MAGIC_START0: u32 = 0x0A32_4655;
pub const UF2_MAGIC_START1: u32 = 0x9E5D_5157;
pub const UF2_MAGIC_END: u32 = 0x0AB1_6F30;
pub const UF2_FLAG_FAMILY_ID: u32 = 0x0000_2000;
pub const UF2_PAYLOAD_SIZE: usize = 256;
pub const UF2_BLOCK_SIZE: usize = 512;
/// Zero bytes between the payload and the trailer.
pub const UF2_PADDING_SIZE: usize = 220;

/// Number of blocks needed for `len` bytes.
pub open spec fn num_blocks(len: nat) -> nat {
    (len + 255) / 256
}

pub open spec fn zeros(n: nat) -> Seq<u8> {
    Seq::new(n, |i: int| 0u8)
}

/// Block `i` of `n` for `data` loaded at `base`.
pub open spec fn uf2_block(data: Seq<u8>, base: u32, family_id: u32, i: nat, n: nat) -> Seq<u8> {
    let start = i * 256;
    let end = if start + 256 <= data.len() { start + 256 } else { data.len() };
    let chunk = data.subrange(start as int, end as int);
    le32(UF2_MAGIC_START0) + le32(UF2_MAGIC_START1) + le32(UF2_FLAG_FAMILY_ID) + le32(
        (base + start) as u32,
    ) + le32(256) + le32(i as u32) + le32(n as u32) + le32(family_id) + chunk + zeros(
        (256 - chunk.len()) as nat,
    ) + zeros(220) + le32(UF2_MAGIC_END)
}

/// The first `k` blocks of the UF2 image of `data`.
pub open spec fn uf2_blocks(data: Seq<u8>, base: u32, family_id: u32, k: nat) -> Seq<u8>
    decreases k,
{
    if k == 0 {
        Seq::empty()
    } else {
        uf2_blocks(data, base, family_id, (k - 1) as nat) + uf2_block(
            data,
            base,
            family_id,
            (k - 1) as nat,
            num_blocks(data.len()),
        )
    }
}

/// The UF2 image of `data` loaded at `base`.
pub open spec fn spec_bin2uf2(data: Seq<u8>, base: u32, family_id: u32) -> Seq<u8> {
    uf2_blocks(data, base, family_id, num_blocks(data.len()))
}

fn push_zeros(out: &mut Vec<u8>, n: usize)
    ensures
        final(out)@ == old(out)@ + zeros(n as nat),
{
    let mut k: usize = 0;
    while k < n
        invariant
            k <= n,
            out@ == old(out)@ + zeros(k as nat),
        decreases n - k,
    {
        out.push(0);
        k = k + 1;
        assert(out@ =~= old(out)@ + zeros(k as nat));
    }
}

/// Whether every block's target address fits in 32 bits.
pub open spec fn targets_fit(len: nat, base: u32) -> bool {
    num_blocks(len) == 0 || base + 256 * (num_blocks(len) - 1) <= u32::MAX
}

/// Converts a raw binary loaded at `base_address` into UF2 blocks tagged
/// with `family_id`.
pub fn bin2uf2(data: &[u8], base_address: u32, family_id: u32) -> (r: Vec<u8>)
    requires
        targets_fit(data@.len(), base_address),
    ensures
        r@ == spec_bin2uf2(data@, base_address, family_id),
        r@.len() == num_blocks(data@.len()) * 512,
{
    let len = data.len();
    let n = len / UF2_PAYLOAD_SIZE + if len % UF2_PAYLOAD_SIZE == 0 { 0 } else { 1 };
    assert(n == num_blocks(len as nat));
    let mut out: Vec<u8> = Vec::new();
    let mut i: usize = 0;
    while i < n
        invariant
            i <= n,
            n == num_blocks(len as nat),
            len == data@.len(),
            targets_fit(len as nat, base_address),
            out@ == uf2_blocks(data@, base_address, family_id, i as nat),
            out@.len() == i * 512,
        decreases n - i,
    {
        assert(i * 256 < len && i * 256 <= 256 * (n - 1)) by (nonlinear_arith)
            requires
                i < n,
                n == (len + 255) / 256,
        ;
        let offset = i * UF2_PAYLOAD_SIZE;
        let end = if len - offset >= UF2_PAYLOAD_SIZE { offset + UF2_PAYLOAD_SIZE } else { len };
        let ghost before = out@;
        push_le32(&mut out, UF2_MAGIC_START0);
        push_le32(&mut out, UF2_MAGIC_START1);
        push_le32(&mut out, UF2_FLAG_FAMILY_ID);
        push_le32(&mut out, base_address + offset as u32);
        push_le32(&mut out, UF2_PAYLOAD_SIZE as u32);
        push_le32(&mut out, i as u32);
        push_le32(&mut out, n as u32);
        push_le32(&mut out, family_id);
        let mut k: usize = offset;
        while k < end
            invariant
                offset <= k <= end,
                end <= data@.len(),
                out@ == before + le32(UF2_MAGIC_START0) + le32(UF2_MAGIC_START1) + le32(
                    UF2_FLAG_FAMILY_ID,
                ) + le32((base_address + offset) as u32) + le32(256) + le32(i as u32) + le32(
                    n as u32,
                ) + le32(family_id) + data@.subrange(offset as int, k as int),
            decreases end - k,
        {
            out.push(data[k]);
            k = k + 1;
            assert(out@ =~= before + le32(UF2_MAGIC_START0) + le32(UF2_MAGIC_START1) + le32(
                UF2_FLAG_FAMILY_ID,
            ) + le32((base_address + offset) as u32) + le32(256) + le32(i as u32) + le32(
                n as u32,
            ) + le32(family_id) + data@.subrange(offset as int, k as int));
        }
        push_zeros(&mut out, UF2_PAYLOAD_SIZE - (end - offset));
        push_zeros(&mut out, UF2_PADDING_SIZE);
        push_le32(&mut out, UF2_MAGIC_END);
        assert(out@ =~= before + uf2_block(data@, base_address, family_id, i as nat, n as nat));
        i = i + 1;
    }
    out
}

} // verus!
