use crispy::host::{pack_semver, parse_hex_u32, unpack_semver, upload_commands, CHUNK_SIZE};
use crispy::uf2::bin2uf2;
use crispy::wire::Command;

fn le(b: &[u8], i: usize) -> u32 {
    u32::from_le_bytes([b[i], b[i + 1], b[i + 2], b[i + 3]])
}

#[test]
fn bin2uf2_of_300_bytes() {
    let data: Vec<u8> = (0..300u32).map(|i| (i % 251) as u8 + 1).collect();
    let out = bin2uf2(&data, 0x1000_0000, 0xE48B_FF56);
    assert_eq!(out.len(), 1024);
    for (blk, target) in [(0usize, 0x1000_0000u32), (1, 0x1000_0100)] {
        let b = &out[blk * 512..(blk + 1) * 512];
        assert_eq!(le(b, 0), 0x0A32_4655);
        assert_eq!(le(b, 4), 0x9E5D_5157);
        assert_eq!(le(b, 8), 0x0000_2000);
        assert_eq!(le(b, 12), target);
        assert_eq!(le(b, 16), 256);
        assert_eq!(le(b, 20), blk as u32);
        assert_eq!(le(b, 24), 2);
        assert_eq!(le(b, 28), 0xE48B_FF56);
        assert_eq!(le(b, 508), 0x0AB1_6F30);
        assert!(b[288..508].iter().all(|&x| x == 0));
    }
    assert_eq!(&out[32..288], &data[..256]);
    assert_eq!(&out[512 + 32..512 + 32 + 44], &data[256..300]);
    assert!(out[512 + 32 + 44..512 + 288].iter().all(|&x| x == 0));
}

#[test]
fn bin2uf2_of_empty_input_is_empty() {
    assert!(bin2uf2(&[], 0x1000_0000, 1).is_empty());
}

#[test]
fn hex_arguments() {
    assert_eq!(parse_hex_u32("0x10000000"), Ok(0x1000_0000));
    assert_eq!(parse_hex_u32("0XE48BFF56"), Ok(0xE48B_FF56));
    assert_eq!(parse_hex_u32("ff"), Ok(255));
    assert_eq!(parse_hex_u32("+1f"), Ok(31));
    assert_eq!(parse_hex_u32("FFFFFFFF"), Ok(u32::MAX));
    assert!(parse_hex_u32("100000000").is_err());
    assert!(parse_hex_u32("0x").is_err());
    assert!(parse_hex_u32("").is_err());
    assert!(parse_hex_u32("12g4").is_err());
}

#[test]
fn semver_packing() {
    assert_eq!(pack_semver(1, 2, 3), 0x0001_0203);
    assert_eq!(unpack_semver(0x0001_0203), (1, 2, 3));
    assert_eq!(unpack_semver(pack_semver(255, 0, 7)), (255, 0, 7));
}

#[test]
fn upload_plan_offsets() {
    let fw = vec![0xA5u8; 2 * CHUNK_SIZE + 100];
    let cmds = upload_commands(&fw, 0, 7);
    assert_eq!(cmds.len(), 5);
    match &cmds[0] {
        Command::StartUpdate { bank, size, version, crc32 } => {
            assert_eq!((*bank, *size, *version), (0, fw.len() as u32, 7));
            assert_ne!(*crc32, 0);
        }
        _ => panic!("expected StartUpdate"),
    }
    let offsets: Vec<(u32, usize)> = cmds[1..4]
        .iter()
        .map(|c| match c {
            Command::DataBlock { offset, data } => (*offset, data.len()),
            _ => panic!("expected DataBlock"),
        })
        .collect();
    assert_eq!(offsets, vec![(0, 1024), (1024, 1024), (2048, 100)]);
    assert_eq!(cmds[4], Command::FinishUpdate);
}

#[test]
fn bin2uf2_near_top_of_address_space() {
    let data = vec![1u8; 300];
    let out = bin2uf2(&data, u32::MAX - 512, 7);
    assert_eq!(out.len(), 1024);
    assert_eq!(le(&out[512..], 12), u32::MAX - 256);
}
