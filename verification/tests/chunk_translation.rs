use bytes::BufMut;
use proxy_core::block_mapping::{BlockNameList, BlockNameTables};
use proxy_core::chunk_translator::{chunk_translatable, translate_chunk};

/// Small stand-ins for the 1.12.2 and 1.20.4 tables: id 0 is air, id `i`
/// below 20 is `minecraft:b<i>` (`minecraft:n<i>` for 1.20.4), any other id
/// is `minecraft:info_update`.
fn tables() -> BlockNameTables {
    let list = |prefix: &str| BlockNameList {
        names: (0..20)
            .map(|i| if i == 0 { "minecraft:air".to_string() } else { format!("minecraft:{}{}", prefix, i) })
            .collect(),
        other: "minecraft:info_update".to_string(),
    };
    BlockNameTables { legacy_v1_12_2: list("b"), modern_v1_20_4: list("n") }
}

fn venc(mut v: u32) -> Vec<u8> {
    let mut out = Vec::new();
    loop {
        let b = (v & 0x7F) as u8;
        v >>= 7;
        if v != 0 {
            out.push(b | 0x80);
        } else {
            out.push(b);
            return out;
        }
    }
}

fn trailer() -> Vec<u8> {
    let mut t = vec![1u8; 256];
    t.push(0);
    t
}

fn expected(cx: i32, cz: i32, count: u32, sections: &[u8]) -> Vec<u8> {
    let mut cd = sections.to_vec();
    cd.extend_from_slice(&trailer());
    let mut out = vec![0xFE, 0x3A];
    out.extend(venc(cx as u32));
    out.extend(venc(cz as u32));
    out.extend(venc(count));
    out.push(0);
    out.extend(venc(cd.len() as u32));
    out.extend(cd);
    out
}

#[test]
fn empty_chunk() {
    let t = tables();
    let out = translate_chunk(3, -1, 0, &[], 500, &t);
    assert_eq!(&out[..], &expected(3, -1, 0, &[])[..]);
    assert_eq!(&out[..8], &[0xFE, 0x3A, 0x03, 0xFF, 0xFF, 0xFF, 0xFF, 0x0F]);
}

#[test]
fn mask_without_data_counts_but_writes_no_section() {
    let t = tables();
    let out = translate_chunk(0, 0, 0b101, &[], 700, &t);
    assert_eq!(&out[..], &expected(0, 0, 2, &[])[..]);
}

#[test]
fn single_stone_section() {
    // 4 bits per block, palette [1], 256 data words that are all missing.
    let data = [4u8, 1, 1, 0x80, 0x02];
    let t = tables();
    let out = translate_chunk(1, 2, 1, &data, 754, &t);
    let mut sec = vec![8u8, 1, 2];
    for _ in 0..128 {
        sec.extend_from_slice(&[0xFF, 0xFF, 0xFF, 0xFF]);
    }
    sec.extend(venc(2));
    sec.extend(venc(0));
    sec.extend(venc(1));
    assert_eq!(&out[..], &expected(1, 2, 1, &sec)[..]);
}

#[test]
fn mixed_palette_section() {
    // 4 bits per block, palette [0, 1, 10] (air, stone, dirt); the first word
    // holds the states 0, 1, 2, 0, 1, 2, ... for blocks 0 to 15.
    let mut w0: u64 = 0;
    for i in 0..16u64 {
        w0 |= (i % 3) << (4 * i);
    }
    let mut data = vec![4u8, 3, 0, 1, 10, 1];
    data.put_u64(w0);
    let t = tables();
    let out = translate_chunk(0, 0, 1, &data, 500, &t);
    let mut sec = vec![8u8, 1, 4];
    let mut word0: u32 = 0;
    for j in 0..16u32 {
        word0 |= (j % 3) << (2 * j);
    }
    sec.extend_from_slice(&word0.to_le_bytes());
    for _ in 1..256 {
        sec.extend_from_slice(&[0, 0, 0, 0]);
    }
    sec.extend(venc(3));
    for i in 0..3 {
        sec.extend(venc(i));
    }
    assert_eq!(&out[..], &expected(0, 0, 1, &sec)[..]);
}

#[test]
fn light_arrays_are_skipped() {
    // Two sections; the first carries block light and sky light (protocol
    // 340 and older skip both), the second is the stone section.
    let mut data = vec![4u8, 1, 0, 0];
    data.extend_from_slice(&[0u8; 4096]);
    data.extend_from_slice(&[4u8, 1, 1, 0x80, 0x02]);
    let t = tables();
    let out340 = translate_chunk(0, 0, 0b11, &data, 340, &t);
    let out = translate_chunk(0, 0, 0b11, &data, 341, &t);
    // With protocol 341 only the block light is skipped, so the sky light is
    // read as the second section: bits 4, palette length 0, no words.
    let air_section = {
        let mut s = vec![8u8, 1, 2];
        for _ in 0..128 {
            s.extend_from_slice(&[0, 0, 0, 0]);
        }
        s.extend(venc(1));
        s.extend(venc(0));
        s
    };
    let mut both = air_section.clone();
    both.extend_from_slice(&air_section);
    assert_eq!(&out[..], &expected(0, 0, 2, &both)[..]);

    // With protocol 340 both light arrays are skipped; the second section is
    // stone, which the 1.12.2 stand-in table names minecraft:b1.
    let mut stone_section = vec![8u8, 1, 2];
    for _ in 0..128 {
        stone_section.extend_from_slice(&[0xFF, 0xFF, 0xFF, 0xFF]);
    }
    stone_section.extend(venc(2));
    stone_section.extend(venc(0));
    stone_section.extend(venc(1));
    let mut legacy = air_section.clone();
    legacy.extend_from_slice(&stone_section);
    assert_eq!(&out340[..], &expected(0, 0, 2, &legacy)[..]);
}

#[test]
fn empty_chunk_for_every_version() {
    let t = tables();
    for pv in [0u32, 340, 341, 754, 755, 760, 763, 764, 900] {
        let out = translate_chunk(0, 0, 0, &[], pv, &t);
        let mut e = vec![0xFE, 0x3A, 0x00, 0x00, 0x00, 0x00, 0x81, 0x02];
        e.extend_from_slice(&[0x01; 256]);
        e.push(0x00);
        assert_eq!(out.len(), 265);
        assert_eq!(&out[..], &e[..]);
    }
}

#[test]
fn high_mask_bits_are_ignored() {
    let t = tables();
    let data = [4u8, 1, 1, 0x80, 0x02];
    let a = translate_chunk(1, 2, 1, &data, 754, &t);
    let b = translate_chunk(1, 2, 1 | 0x7FFF_0000, &data, 754, &t);
    assert_eq!(&a[..], &b[..]);
}

#[test]
fn compacted_states_span_two_words() {
    // Protocol 340, 13 bits per block (global ids, no palette): block j has
    // id (j % 7) + 1, the ids packed into one string of bits, so that some
    // blocks span two longs.
    let t = tables();
    let n_words = 832usize;
    let mut bits = vec![0u64; n_words];
    for j in 0..4096usize {
        let v = ((j % 7) + 1) as u64;
        let start = j * 13;
        let (w, off) = (start / 64, start % 64);
        bits[w] |= v << off;
        if off + 13 > 64 {
            bits[w + 1] |= v >> (64 - off);
        }
    }
    let mut data = vec![13u8];
    data.extend(venc(n_words as u32));
    for w in &bits {
        data.put_u64(*w);
    }
    let out = translate_chunk(0, 0, 1, &data, 340, &t);
    // Header: FE 3A 00 00 01 00, then the two-byte chunk data length.
    let section = &out[8..];
    assert_eq!(&section[..3], &[8, 1, 8]);
    let words = &section[3..3 + 512 * 4];
    for i in 0..4096 {
        assert_eq!(slot(words, 4, i), ((i % 7) + 1) as u32);
    }
    let rest = &section[3 + 512 * 4..];
    assert_eq!(&rest[..9], &[8, 0, 1, 2, 3, 4, 5, 6, 7]);
}

#[test]
fn translatable_check() {
    assert!(chunk_translatable(1, &[4u8, 1, 1, 0x80, 0x02], 500));
    assert!(chunk_translatable(0, &[70u8], 500));
    assert!(!chunk_translatable(1, &[70u8, 0], 500));
    assert!(!chunk_translatable(1, &[64u8, 0], 500));
    assert!(chunk_translatable(1, &[63u8, 0], 500));
    // A negative data length (0xFF 0xFF 0xFF 0xFF 0x0F is -1).
    assert!(!chunk_translatable(1, &[4u8, 0, 0xFF, 0xFF, 0xFF, 0xFF, 0x0F], 500));
}

/// Reads block `i`'s palette index out of little-endian storage words.
fn slot(words: &[u8], bits: u32, i: usize) -> u32 {
    let bpw = (32 / bits) as usize;
    let w = i / bpw;
    let word = u32::from_le_bytes([words[4 * w], words[4 * w + 1], words[4 * w + 2], words[4 * w + 3]]);
    (word >> ((i % bpw) as u32 * bits)) & ((1u32 << bits) - 1)
}

#[test]
fn six_bit_storage_reads_back() {
    // 8 bits per block; a palette of 17 ids with 17 distinct Bedrock names;
    // block i has state i % 17.
    let ids: [u8; 17] = [0, 1, 2, 3, 4, 5, 6, 7, 8, 10, 11, 12, 14, 15, 16, 17, 18];
    let mut data = vec![8u8, 17];
    data.extend_from_slice(&ids);
    data.extend_from_slice(&[0x80, 0x04]); // 512 words
    for w in 0..512u64 {
        let mut word = 0u64;
        for j in 0..8u64 {
            word |= ((w * 8 + j) % 17) << (8 * j);
        }
        data.put_u64(word);
    }
    let t = tables();
    let out = translate_chunk(0, 0, 1, &data, 600, &t);
    let section = &out[2 + 1 + 1 + 1 + 1..];
    // Skip the chunk data length (two bytes) and check the storage header.
    let section = &section[2..];
    assert_eq!(&section[..3], &[8, 1, 12]);
    let words_len = 820 * 4;
    let words = &section[3..3 + words_len];
    for i in 0..4096 {
        assert_eq!(slot(words, 6, i), (i % 17) as u32);
    }
    // The unused top bits and the slots past the last block are zero.
    let last = u32::from_le_bytes([words[words_len - 4], words[words_len - 3], words[words_len - 2], words[words_len - 1]]);
    assert_eq!(last, (4095 % 17) as u32);
    let rest = &section[3 + words_len..];
    assert_eq!(rest[0], 17);
    assert_eq!(&rest[1..18], &(0..17u8).collect::<Vec<u8>>()[..]);
    assert_eq!(rest.len(), 18 + 257);
}
