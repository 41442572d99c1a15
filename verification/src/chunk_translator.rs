//! Java Edition chunk sections to a Bedrock LevelChunk packet.

use crate::block_mapping::{
    get_bedrock_block_name, spec_bedrock_block_name, BlockNameTables, BlockNameTablesView,
};
use crate::buffer::{
    buf_advance, buf_as_slice, buf_from_slice, buf_get_u64, buf_get_u8, buf_len, buf_new,
    buf_put_slice, buf_put_u32_le, buf_put_u8, buffer_bytes, u32_le_bytes, u64_from_be,
};
use crate::converter::varints_of;
use crate::packet_decoder::{lemma_var_u32_roundtrip, read_var_u32, spec_read_var_u32, DecodeError};
use crate::packet_encoder::{encode_varint, wrap_game_packet};
use crate::strings::str_eq;
use crate::varint::{lemma_varint_encode, varint_encode};
use bytes::BytesMut;
use vstd::prelude::*;

verus! {

/// A Java Edition chunk section as it is read: the bits per block (at least
/// four), the palette of global ids (read only for eight bits or fewer), the
/// announced number of data words, and the data words.
pub struct JavaSection {
    pub bits: u8,
    pub palette: Seq<u32>,
    pub data_len: i32,
    pub words: Seq<u64>,
}

/// Reading a Java VarInt from the front of `s`, zero where none can be read.
pub open spec fn varint_or_zero(s: Seq<u8>) -> (i32, Seq<u8>) {
    let (r, rest) = spec_read_var_u32(s);
    (
        match r {
            Ok(v) => v as i32,
            Err(_) => 0,
        },
        rest,
    )
}

/// Reading up to `n` palette entries: each is read while bytes are left.
pub open spec fn read_palette(s: Seq<u8>, n: nat) -> (Seq<u32>, Seq<u8>)
    decreases n,
{
    if n == 0 {
        (Seq::empty(), s)
    } else {
        let (p, s1) = read_palette(s, (n - 1) as nat);
        if s1.len() >= 1 {
            let (v, s2) = varint_or_zero(s1);
            (p.push(v as u32), s2)
        } else {
            (p, s1)
        }
    }
}

/// Reading `n` data words: each is eight bytes, most significant first, or
/// zero (taking nothing) where fewer than eight bytes are left.
pub open spec fn read_words(s: Seq<u8>, n: nat) -> (Seq<u64>, Seq<u8>)
    decreases n,
{
    if n == 0 {
        (Seq::empty(), s)
    } else {
        let (w, s1) = read_words(s, (n - 1) as nat);
        if s1.len() >= 8 {
            (w.push(u64_from_be(s1)), s1.skip(8))
        } else {
            (w.push(0), s1)
        }
    }
}

/// A count read as a signed VarInt, negative counts standing for none.
pub open spec fn count_of(n: i32) -> nat {
    if n > 0 {
        n as nat
    } else {
        0
    }
}

/// Reading one section from the front of `s` (which holds at least one
/// byte): the bits per block, the palette where there is one, the data
/// words, then the block light (2048 bytes) where it is there, and for
/// protocol 340 and older the sky light (2048 bytes) where it is there.
pub open spec fn parse_section(s: Seq<u8>, protocol_version: u32) -> (JavaSection, Seq<u8>) {
    let raw = s[0];
    let bits: u8 = if raw < 4 {
        4
    } else {
        raw
    };
    let s1 = s.skip(1);
    let (palette, s3) = if bits <= 8 {
        let (plen, s2) = varint_or_zero(s1);
        read_palette(s2, count_of(plen))
    } else {
        (Seq::<u32>::empty(), s1)
    };
    let (dlen, s4) = varint_or_zero(s3);
    let (words, s5) = read_words(s4, count_of(dlen));
    let s6 = if s5.len() >= 2048 {
        s5.skip(2048)
    } else {
        s5
    };
    let s7 = if protocol_version <= 340 && s6.len() >= 2048 {
        s6.skip(2048)
    } else {
        s6
    };
    (JavaSection { bits, palette, data_len: dlen, words }, s7)
}

/// A section as the reader holds it.
pub struct JavaSectionData {
    pub bits: u8,
    pub palette: Vec<u32>,
    pub data_len: i32,
    pub words: Vec<u64>,
}

impl View for JavaSectionData {
    type V = JavaSection;

    open spec fn view(&self) -> JavaSection {
        JavaSection {
            bits: self.bits,
            palette: self.palette@,
            data_len: self.data_len,
            words: self.words@,
        }
    }
}

/// Reads a Java VarInt, zero where none can be read.
fn read_java_varint_or_zero(buf: &mut BytesMut) -> (r: i32)
    ensures
        (r, buffer_bytes(*final(buf))) == varint_or_zero(buffer_bytes(*old(buf))),
{
    match read_var_u32(buf) {
        Ok(v) => v as i32,
        Err(_) => 0,
    }
}

/// Reads up to `n` palette entries.
fn read_java_palette(buf: &mut BytesMut, n: i32) -> (p: Vec<u32>)
    ensures
        (p@, buffer_bytes(*final(buf))) == read_palette(buffer_bytes(*old(buf)), count_of(n)),
{
    let ghost s0 = buffer_bytes(*buf);
    let mut p: Vec<u32> = Vec::new();
    let mut i: i32 = 0;
    while i < n
        invariant
            s0 == buffer_bytes(*old(buf)),
            0 <= i,
            n >= 0 ==> i <= n,
            n < 0 ==> i == 0,
            read_palette(s0, i as nat) == (p@, buffer_bytes(*buf)),
        decreases n - i,
    {
        if buf_len(buf) >= 1 {
            let v = read_java_varint_or_zero(buf);
            p.push(v as u32);
        }
        i = i + 1;
    }
    p
}

/// Reads `n` data words.
fn read_java_words(buf: &mut BytesMut, n: i32) -> (w: Vec<u64>)
    ensures
        (w@, buffer_bytes(*final(buf))) == read_words(buffer_bytes(*old(buf)), count_of(n)),
{
    let ghost s0 = buffer_bytes(*buf);
    let mut w: Vec<u64> = Vec::new();
    let mut i: i32 = 0;
    while i < n
        invariant
            s0 == buffer_bytes(*old(buf)),
            0 <= i,
            n >= 0 ==> i <= n,
            n < 0 ==> i == 0,
            read_words(s0, i as nat) == (w@, buffer_bytes(*buf)),
        decreases n - i,
    {
        if buf_len(buf) >= 8 {
            let v = buf_get_u64(buf);
            w.push(v);
        } else {
            w.push(0);
        }
        i = i + 1;
    }
    w
}

/// Reads one section off the front of `buf`.
fn read_java_section(buf: &mut BytesMut, protocol_version: u32) -> (sec: JavaSectionData)
    requires
        buffer_bytes(*old(buf)).len() >= 1,
    ensures
        (sec@, buffer_bytes(*final(buf))) == parse_section(buffer_bytes(*old(buf)), protocol_version),
{
    let mut bits = buf_get_u8(buf);
    if bits < 4 {
        bits = 4;
    }
    let palette = if bits <= 8 {
        let plen = read_java_varint_or_zero(buf);
        read_java_palette(buf, plen)
    } else {
        Vec::new()
    };
    let data_len = read_java_varint_or_zero(buf);
    let words = read_java_words(buf, data_len);
    if buf_len(buf) >= 2048 {
        buf_advance(buf, 2048);
    }
    if protocol_version <= 340 && buf_len(buf) >= 2048 {
        buf_advance(buf, 2048);
    }
    JavaSectionData { bits, palette, data_len, words }
}

/// The mask of the low `bits` bits of a 64-bit word.
pub open spec fn block_mask(bits: u8) -> u64 {
    ((1u64 << bits) - 1) as u64
}

/// The state of block `idx` of a section in the layout of protocols after
/// 340: blocks are packed into the data words `64 / bits` to a word, least
/// significant bits first, a block never spanning two words; a block whose
/// word is missing has state zero.
pub open spec fn java_state(sec: JavaSection, idx: nat) -> u64 {
    let bpw = 64nat / (sec.bits as nat);
    let w = idx / bpw;
    let off = (idx % bpw) * (sec.bits as nat);
    if w < sec.words.len() {
        (sec.words[w as int] >> (off as u64)) & block_mask(sec.bits)
    } else {
        0
    }
}

/// The state of block `idx` of a section in the 1.12.2 layout (protocol 340
/// and older): the data words form one string of bits, word 0 first and
/// each word least significant bit first, and block `idx` is the `bits` bits
/// from bit `idx * bits` on, so that a block may span two words. The bits of
/// missing words are zero.
pub open spec fn java_state_compacted(sec: JavaSection, idx: nat) -> u64 {
    let start = idx * (sec.bits as nat);
    let w = start / 64;
    let off = start % 64;
    let lo: u64 = if w < sec.words.len() {
        sec.words[w as int] >> (off as u64)
    } else {
        0
    };
    let hi: u64 = if off + (sec.bits as nat) > 64 && w + 1 < sec.words.len() {
        sec.words[w + 1 as int] << ((64 - off) as u64)
    } else {
        0
    };
    (lo | hi) & block_mask(sec.bits)
}

/// The state of block `idx` of a section under a protocol version.
pub open spec fn section_state(sec: JavaSection, protocol_version: u32, idx: nat) -> u64 {
    if protocol_version <= 340 {
        java_state_compacted(sec, idx)
    } else {
        java_state(sec, idx)
    }
}

/// The global block id of block `idx`: with eight bits or fewer the state
/// indexes the palette (zero outside it), with more it is the id itself.
pub open spec fn global_id(sec: JavaSection, protocol_version: u32, idx: nat) -> u32 {
    let st = section_state(sec, protocol_version, idx);
    if sec.bits <= 8 {
        if st < sec.palette.len() {
            sec.palette[st as int]
        } else {
            0
        }
    } else {
        st as u32
    }
}

/// The Bedrock names of the 4096 blocks of a section, in block order.
pub open spec fn section_block_names(
    sec: JavaSection,
    tables: BlockNameTablesView,
    protocol_version: u32,
) -> Seq<Seq<char>> {
    Seq::new(
        4096,
        |i: int|
            spec_bedrock_block_name(tables, global_id(sec, protocol_version, i as nat), protocol_version),
    )
}

/// The name of the block that every Bedrock palette starts with.
pub open spec fn air_name() -> Seq<char> {
    "minecraft:air"@
}

/// The palette after the first `k` names: air, then each name in order of
/// first appearance.
pub open spec fn palette_upto(names: Seq<Seq<char>>, k: nat) -> Seq<Seq<char>>
    decreases k,
{
    if k == 0 {
        seq![air_name()]
    } else {
        let p = palette_upto(names, (k - 1) as nat);
        if p.contains(names[k - 1]) {
            p
        } else {
            p.push(names[k - 1])
        }
    }
}

/// The characters of each of a sequence of names.
pub open spec fn names_view(v: Seq<&str>) -> Seq<Seq<char>> {
    v.map_values(|x: &str| x@)
}

/// A state read with a mask of eight bits or fewer is a byte.
proof fn lemma_small_mask(x: u64, bits: u8)
    requires
        bits <= 8,
    ensures
        x & block_mask(bits) <= 255,
{
    assert(bits <= 8 ==> x & (((1u64 << bits) - 1) as u64) <= 255) by (bit_vector);
}

/// Shifting one left by fewer than 64 places leaves a nonzero word.
proof fn lemma_mask_nonzero(bits: u8)
    requires
        bits < 64,
    ensures
        (1u64 << bits) >= 1,
{
    assert(bits < 64 ==> (1u64 << bits) >= 1) by (bit_vector);
}

/// Zero shifted either way is zero, and OR with zero leaves a word as it is.
proof fn lemma_zero_word(x: u64, k: u64)
    ensures
        (x | 0u64) == x,
        (0u64 >> k) == 0u64,
        (0u64 << k) == 0u64,
        (0u64 & x) == 0u64,
{
    assert((x | 0u64) == x && (0u64 >> k) == 0u64 && (0u64 << k) == 0u64 && (0u64 & x) == 0u64)
        by (bit_vector);
}

/// The powers of two of the storage widths.
proof fn lemma_storage_width_powers()
    ensures
        1u32 << 1u32 == 2,
        1u32 << 2u32 == 4,
        1u32 << 4u32 == 16,
        1u32 << 6u32 == 64,
        1u32 << 8u32 == 256,
        1u32 << 16u32 == 65536,
{
    assert(1u32 << 1u32 == 2 && 1u32 << 2u32 == 4 && 1u32 << 4u32 == 16 && 1u32 << 6u32 == 64
        && 1u32 << 8u32 == 256 && 1u32 << 16u32 == 65536) by (bit_vector);
}

/// The state of block `idx` in the layout of protocols after 340.
fn word_state(sec: &JavaSectionData, idx: usize) -> (st: u64)
    requires
        4 <= sec.bits < 64,
        idx < 4096,
    ensures
        st == java_state(sec@, idx as nat),
        sec.bits <= 8 ==> st <= 255,
{
    let bits = sec.bits;
    let bpw: usize = 64 / (bits as usize);
    assert(bpw >= 1) by (nonlinear_arith)
        requires
            bpw == 64usize / (bits as usize),
            bits < 64,
            bits >= 4,
    ;
    let word_idx = idx / bpw;
    let slot = idx % bpw;
    proof {
        assert(bpw * (bits as usize) <= 64) by (nonlinear_arith)
            requires
                bpw == 64usize / (bits as usize),
                bits >= 4,
        ;
        assert(slot * (bits as usize) <= (bpw - 1) * (bits as usize)) by (nonlinear_arith)
            requires
                slot < bpw,
        ;
        assert((bpw - 1) * (bits as usize) == bpw * (bits as usize) - bits as usize) by (nonlinear_arith);
    }
    let bit_offset = slot * (bits as usize);
    if word_idx < sec.words.len() {
        proof {
            lemma_mask_nonzero(bits);
        }
        let mask = (1u64 << bits) - 1;
        let st = (sec.words[word_idx] >> (bit_offset as u64)) & mask;
        proof {
            if bits <= 8 {
                lemma_small_mask(sec.words[word_idx as int] >> (bit_offset as u64), bits);
            }
        }
        st
    } else {
        0
    }
}

/// The state of block `idx` in the 1.12.2 layout.
fn compacted_state(sec: &JavaSectionData, idx: usize) -> (st: u64)
    requires
        4 <= sec.bits < 64,
        idx < 4096,
    ensures
        st == java_state_compacted(sec@, idx as nat),
        sec.bits <= 8 ==> st <= 255,
{
    let bits = sec.bits;
    assert(idx * (bits as usize) < 4096 * 64) by (nonlinear_arith)
        requires
            idx < 4096,
            bits < 64,
    ;
    let start: usize = idx * (bits as usize);
    let w = start / 64;
    let off = start % 64;
    let lo: u64 = if w < sec.words.len() {
        sec.words[w] >> (off as u64)
    } else {
        0
    };
    let hi: u64 = if off + (bits as usize) > 64 && w + 1 < sec.words.len() {
        sec.words[w + 1] << ((64 - off) as u64)
    } else {
        0
    };
    proof {
        lemma_mask_nonzero(bits);
    }
    let mask = (1u64 << bits) - 1;
    let st = (lo | hi) & mask;
    proof {
        if bits <= 8 {
            lemma_small_mask(lo | hi, bits);
        }
    }
    st
}

/// The global block id of block `idx` of a section.
fn block_global_id(sec: &JavaSectionData, protocol_version: u32, idx: usize) -> (g: u32)
    requires
        4 <= sec.bits < 64,
        idx < 4096,
    ensures
        g == global_id(sec@, protocol_version, idx as nat),
{
    let state = if protocol_version <= 340 {
        compacted_state(sec, idx)
    } else {
        word_state(sec, idx)
    };
    if sec.bits <= 8 {
        if (state as usize) < sec.palette.len() {
            sec.palette[state as usize]
        } else {
            0
        }
    } else {
        state as u32
    }
}

/// In a palette without repeats, the index of a name is the one place where
/// it stands.
pub proof fn lemma_index_of_unique(p: Seq<Seq<char>>, j: int)
    requires
        p.no_duplicates(),
        0 <= j < p.len(),
    ensures
        p.index_of(p[j]) == j,
{
    assert(p.contains(p[j]));
}

/// The palette grows from air, never repeats a name, and has at most one
/// more name than blocks seen.
pub proof fn lemma_palette_upto_props(names: Seq<Seq<char>>, k: nat)
    requires
        k <= names.len(),
    ensures
        palette_upto(names, k).no_duplicates(),
        1 <= palette_upto(names, k).len() <= k + 1,
        palette_upto(names, k)[0] == air_name(),
    decreases k,
{
    if k > 0 {
        lemma_palette_upto_props(names, (k - 1) as nat);
    }
}

/// Builds the Bedrock palette of a section and each block's index in it.
fn build_palette<'a>(sec: &JavaSectionData, tables: &'a BlockNameTables, protocol_version: u32) -> (r: (
    Vec<&'a str>,
    Vec<u32>,
))
    requires
        4 <= sec.bits < 64,
    ensures
        names_view(r.0@) == palette_upto(section_block_names(sec@, tables@, protocol_version), 4096),
        r.1@.len() == 4096,
        forall|i: int|
            0 <= i < 4096 ==> #[trigger] r.1@[i] == palette_upto(
                section_block_names(sec@, tables@, protocol_version),
                4096,
            ).index_of(section_block_names(sec@, tables@, protocol_version)[i]),
{
    let ghost names = section_block_names(sec@, tables@, protocol_version);
    let mut palette: Vec<&'a str> = vec!["minecraft:air"];
    let mut rids: Vec<u32> = Vec::new();
    proof {
        assert(names_view(palette@) =~= seq![air_name()]);
    }
    let mut idx: usize = 0;
    while idx < 4096
        invariant
            4 <= sec.bits < 64,
            names == section_block_names(sec@, tables@, protocol_version),
            idx <= 4096,
            names_view(palette@) == palette_upto(names, idx as nat),
            rids@.len() == idx,
            forall|i: int|
                0 <= i < idx ==> #[trigger] rids@[i] < palette@.len() && names_view(palette@)[rids@[i] as int]
                    == names[i],
        decreases 4096 - idx,
    {
        proof {
            lemma_palette_upto_props(names, idx as nat);
        }
        let name = get_bedrock_block_name(tables, block_global_id(sec, protocol_version, idx), protocol_version);
        assert(name@ == names[idx as int]);
        let ghost pv = names_view(palette@);
        let mut j: usize = 0;
        let mut found = false;
        while j < palette.len()
            invariant_except_break
                !found,
            invariant
                pv == names_view(palette@),
                j <= palette@.len(),
                forall|i: int| 0 <= i < j ==> pv[i] != name@,
            ensures
                j <= palette@.len(),
                found ==> j < palette@.len() && pv[j as int] == name@,
                !found ==> j == palette@.len() && forall|i: int| 0 <= i < j ==> pv[i] != name@,
            decreases palette@.len() - j,
        {
            if str_eq(palette[j], name) {
                found = true;
                break;
            }
            j = j + 1;
        }
        if !found {
            proof {
                assert(!pv.contains(name@));
            }
            palette.push(name);
            proof {
                assert(names_view(palette@) =~= pv.push(name@));
            }
        } else {
            proof {
                assert(pv.contains(name@));
            }
        }
        proof {
            assert(idx + 1 <= 4097);
        }
        rids.push(j as u32);
        idx = idx + 1;
    }
    proof {
        lemma_palette_upto_props(names, 4096);
        let p = palette_upto(names, 4096);
        assert forall|i: int| 0 <= i < 4096 implies #[trigger] rids@[i] == p.index_of(names[i]) by {
            lemma_index_of_unique(p, rids@[i] as int);
        }
    }
    (palette, rids)
}

/// Bits per block of a Bedrock storage layer for a palette of `size` names:
/// the fewest of 1, 2, 4, 6, 8 and 16 bits that index every name.
pub open spec fn bedrock_bits(size: nat) -> u32 {
    if size <= 2 {
        1
    } else if size <= 4 {
        2
    } else if size <= 16 {
        4
    } else if size <= 64 {
        6
    } else if size <= 256 {
        8
    } else {
        16
    }
}

/// Chooses the bits per block for a palette of `size` names.
fn bedrock_bits_for(size: usize) -> (bits: u32)
    requires
        1 <= size <= 4097,
    ensures
        bits == bedrock_bits(size as nat),
{
    let mut bits: u32 = 1;
    proof {
        vstd::arithmetic::power2::lemma2_to64();
        vstd::bits::lemma_usize_shl_is_mul(1, 1);
    }
    while (1usize << bits) < size
        invariant
            1 <= size <= 4097,
            1 <= bits <= 13,
            bits == 1 || vstd::arithmetic::power2::pow2((bits - 1) as nat) < size,
            (1usize << bits) == vstd::arithmetic::power2::pow2(bits as nat),
        decreases 13 - bits,
    {
        proof {
            vstd::arithmetic::power2::lemma2_to64();
        }
        bits = bits + 1;
        proof {
            vstd::bits::lemma_usize_shl_is_mul(1, bits as usize);
        }
    }
    proof {
        vstd::arithmetic::power2::lemma2_to64();
    }
    if bits == 3 {
        bits = 4;
    }
    if bits == 5 || bits == 6 {
        bits = 6;
    }
    if bits == 7 {
        bits = 8;
    }
    if bits > 8 {
        bits = 16;
    }
    bits
}

/// Whether `bits` is one of the widths a Bedrock storage layer is written with.
pub open spec fn storage_width(bits: u32) -> bool {
    bits == 1 || bits == 2 || bits == 4 || bits == 6 || bits == 8 || bits == 16
}

/// The first `j` blocks of storage word `w`, OR-ed in at `bits` bits apart,
/// least significant first; `32 / bits` blocks go to a word, and blocks past
/// the end of `rids` leave their place zero.
pub open spec fn pack_word(rids: Seq<u32>, bits: u32, w: nat, j: nat) -> u32
    decreases j,
{
    if j == 0 {
        0
    } else {
        let acc = pack_word(rids, bits, w, (j - 1) as nat);
        let idx = w * (32nat / bits as nat) + (j - 1);
        if idx < rids.len() {
            acc | (rids[idx as int] << (((j - 1) * bits) as u32))
        } else {
            acc
        }
    }
}

/// The storage words for a section's 4096 block indices.
pub open spec fn packed_words(rids: Seq<u32>, bits: u32) -> Seq<u32> {
    let bpw = 32nat / bits as nat;
    let n = ((4096 + bpw - 1) / (bpw as int)) as nat;
    Seq::new(n, |w: int| pack_word(rids, bits, w as nat, bpw))
}

/// Each word as four bytes, least significant first.
pub open spec fn words_le_bytes(ws: Seq<u32>) -> Seq<u8>
    decreases ws.len(),
{
    if ws.len() == 0 {
        Seq::empty()
    } else {
        words_le_bytes(ws.drop_last()) + u32_le_bytes(ws.last())
    }
}

/// The variable-length encodings of `0, 1, ..., n - 1`, one after the other.
pub open spec fn counting_varints(n: nat) -> Seq<u8>
    decreases n,
{
    if n == 0 {
        Seq::empty()
    } else {
        counting_varints((n - 1) as nat) + varint_encode((n - 1) as nat)
    }
}

/// Packs 4096 block indices into storage words.
fn pack_words(rids: &Vec<u32>, bits: u32) -> (ws: Vec<u32>)
    requires
        storage_width(bits),
        rids@.len() == 4096,
    ensures
        ws@ == packed_words(rids@, bits),
{
    let bpw: u32 = 32 / bits;
    let n: usize = (4096 + bpw as usize - 1) / bpw as usize;
    proof {
        assert(1 <= bpw <= 32 && bpw * bits <= 32);
    }
    let mut ws: Vec<u32> = Vec::new();
    let mut w: usize = 0;
    while w < n
        invariant
            storage_width(bits),
            rids@.len() == 4096,
            bpw == 32u32 / bits,
            1 <= bpw <= 32,
            bpw * bits <= 32,
            n == (4096 + bpw - 1) / (bpw as int),
            w <= n,
            ws@.len() == w,
            forall|i: int| 0 <= i < w ==> ws@[i] == #[trigger] pack_word(rids@, bits, i as nat, bpw as nat),
        decreases n - w,
    {
        let mut acc: u32 = 0;
        let mut j: u32 = 0;
        proof {
            assert(n <= 4096) by (nonlinear_arith)
                requires
                    n == (4096 + bpw - 1) / (bpw as int),
                    1 <= bpw,
            ;
        }
        while j < bpw
            invariant
                storage_width(bits),
                rids@.len() == 4096,
                bpw == 32u32 / bits,
                1 <= bpw <= 32,
                bpw * bits <= 32,
                w < n,
                n <= 4096,
                j <= bpw,
                acc == pack_word(rids@, bits, w as nat, j as nat),
            decreases bpw - j,
        {
            proof {
                assert(w * (bpw as nat) + (j as nat) <= 4096 * 32 + 32) by (nonlinear_arith)
                    requires
                        w < 4096,
                        j <= 32,
                        bpw <= 32,
                ;
                assert(j * bits < 32) by (nonlinear_arith)
                    requires
                        j < bpw,
                        bpw * bits <= 32,
                        bits >= 1,
                ;
            }
            let idx: usize = w * (bpw as usize) + (j as usize);
            if idx < 4096 {
                acc = acc | (rids[idx] << (j * bits));
            }
            j = j + 1;
        }
        ws.push(acc);
        w = w + 1;
    }
    proof {
        assert(ws@ =~= packed_words(rids@, bits));
    }
    ws
}

/// The section's Bedrock palette.
pub open spec fn section_palette(sec: JavaSection, tables: BlockNameTablesView, protocol_version: u32) -> Seq<Seq<char>> {
    palette_upto(section_block_names(sec, tables, protocol_version), 4096)
}

/// Each block's index in the section's Bedrock palette.
pub open spec fn section_rids(sec: JavaSection, tables: BlockNameTablesView, protocol_version: u32) -> Seq<u32> {
    Seq::new(
        4096,
        |i: int|
            section_palette(sec, tables, protocol_version).index_of(
                section_block_names(sec, tables, protocol_version)[i],
            ) as u32,
    )
}

/// A Bedrock sub-chunk (version 8) for a Java section: one storage layer
/// whose header byte is twice its bits per block, the packed block indices,
/// the palette size, then a runtime id per palette entry, each entry standing
/// for its own index.
pub open spec fn section_bytes(sec: JavaSection, tables: BlockNameTablesView, protocol_version: u32) -> Seq<u8> {
    let size = section_palette(sec, tables, protocol_version).len();
    let bits = bedrock_bits(size);
    seq![8u8, 1u8, (bits * 2) as u8] + words_le_bytes(
        packed_words(section_rids(sec, tables, protocol_version), bits),
    )
        + varint_encode(size) + counting_varints(size)
}

/// Appends the Bedrock sub-chunk for a section.
fn write_section(sec: &JavaSectionData, tables: &BlockNameTables, protocol_version: u32, out: &mut BytesMut)
    requires
        4 <= sec.bits < 64,
    ensures
        buffer_bytes(*final(out)) == buffer_bytes(*old(out)) + section_bytes(sec@, tables@, protocol_version),
{
    let ghost s0 = buffer_bytes(*out);
    let (palette, rids) = build_palette(sec, tables, protocol_version);
    proof {
        lemma_palette_upto_props(section_block_names(sec@, tables@, protocol_version), 4096);
        assert(rids@ =~= section_rids(sec@, tables@, protocol_version));
    }
    let size = palette.len();
    buf_put_u8(out, 8);
    buf_put_u8(out, 1);
    let bits = bedrock_bits_for(size);
    buf_put_u8(out, (bits * 2) as u8);
    let words = pack_words(&rids, bits);
    let ghost head = seq![8u8, 1u8, (bits * 2) as u8];
    proof {
        assert(buffer_bytes(*out) =~= s0 + head);
        assert(words@.subrange(0, 0) =~= Seq::<u32>::empty());
    }
    let mut k: usize = 0;
    while k < words.len()
        invariant
            k <= words@.len(),
            buffer_bytes(*out) == s0 + head + words_le_bytes(words@.subrange(0, k as int)),
        decreases words@.len() - k,
    {
        buf_put_u32_le(out, words[k]);
        proof {
            let ws = words@.subrange(0, k + 1 as int);
            assert(ws.drop_last() =~= words@.subrange(0, k as int));
        }
        k = k + 1;
    }
    proof {
        assert(words@.subrange(0, words@.len() as int) =~= words@);
    }
    let ghost body = head + words_le_bytes(words@);
    encode_varint(size as u32, out);
    let mut i: usize = 0;
    while i < size
        invariant
            size <= 4097,
            i <= size,
            buffer_bytes(*out) == s0 + body + varint_encode(size as nat) + counting_varints(i as nat),
        decreases size - i,
    {
        encode_varint(i as u32, out);
        i = i + 1;
    }
    proof {
        assert(buffer_bytes(*out) =~= s0 + section_bytes(sec@, tables@, protocol_version));
    }
}

/// Whether section `i` is marked present in the primary bit mask.
pub open spec fn mask_bit(mask: i32, i: nat) -> bool {
    (mask & (1i32 << (i as u32))) != 0
}

/// The number of sections among the first `n` that the mask marks present.
pub open spec fn count_mask_bits(mask: i32, n: nat) -> nat
    decreases n,
{
    if n == 0 {
        0
    } else {
        count_mask_bits(mask, (n - 1) as nat) + if mask_bit(mask, (n - 1) as nat) {
            1nat
        } else {
            0nat
        }
    }
}

/// The sections read from the front of `s`, for the sections from `i` on
/// that the mask marks present, stopping where the data runs out.
pub open spec fn sections_from(mask: i32, s: Seq<u8>, protocol_version: u32, i: nat) -> Seq<JavaSection>
    decreases 16 - i,
{
    if i >= 16 {
        Seq::empty()
    } else if mask_bit(mask, i) {
        if s.len() == 0 {
            Seq::empty()
        } else {
            let (sec, rest) = parse_section(s, protocol_version);
            seq![sec] + sections_from(mask, rest, protocol_version, i + 1)
        }
    } else {
        sections_from(mask, s, protocol_version, i + 1)
    }
}

/// The sub-chunks of several sections, one after the other.
pub open spec fn sections_bytes(secs: Seq<JavaSection>, tables: BlockNameTablesView, protocol_version: u32) -> Seq<u8>
    decreases secs.len(),
{
    if secs.len() == 0 {
        Seq::empty()
    } else {
        sections_bytes(secs.drop_last(), tables, protocol_version) + section_bytes(
            secs.last(),
            tables,
            protocol_version,
        )
    }
}

/// Whether a section can be translated: its blocks fit in a 64-bit word and
/// its announced number of data words is not negative. On other sections the
/// translation would fail on a shift past 63 bits, a division by zero, or a
/// negative allocation size.
pub open spec fn section_translatable(sec: JavaSection) -> bool {
    sec.bits < 64 && sec.data_len >= 0
}

/// Whether every section that a chunk's data holds can be translated.
pub open spec fn chunk_sections_translatable(mask: i32, data: Seq<u8>, protocol_version: u32) -> bool {
    let secs = sections_from(mask, data, protocol_version, 0);
    forall|k: int| 0 <= k < secs.len() ==> section_translatable(#[trigger] secs[k])
}

/// The Bedrock LevelChunk payload (packet id `0x3A`) for a Java chunk: the
/// chunk coordinates, the number of sections the mask marks present, a zero
/// byte, then the length-prefixed chunk data: the sub-chunks, a 2D biome
/// array of 256 plains (id 1) and a zero border-block count.
pub open spec fn level_chunk_payload(
    chunk_x: i32,
    chunk_z: i32,
    mask: i32,
    data: Seq<u8>,
    protocol_version: u32,
    tables: BlockNameTablesView,
) -> Seq<u8> {
    let cd = sections_bytes(sections_from(mask, data, protocol_version, 0), tables, protocol_version)
        + Seq::new(
        256,
        |i: int| 1u8,
    ) + seq![0u8];
    seq![0x3Au8] + varint_encode(chunk_x as u32 as nat) + varint_encode(chunk_z as u32 as nat)
        + varint_encode(count_mask_bits(mask, 16)) + seq![0u8] + varint_encode(
        cd.len() % 0x1_0000_0000,
    ) + cd
}

/// Decodes a Java 1.12.2 or newer chunk and translates it into a Bedrock
/// LevelChunk packet wrapped as a game packet (`0xFE`, then the payload).
/// Block names come from the 1.16.5 table, or from `tables` for the versions
/// that table does not serve. The chunks whose sections cannot be translated
/// are left out.
pub fn translate_chunk(
    chunk_x: i32,
    chunk_z: i32,
    primary_bit_mask: i32,
    java_data: &[u8],
    protocol_version: u32,
    tables: &BlockNameTables,
) -> (r: BytesMut)
    requires
        chunk_sections_translatable(primary_bit_mask, java_data@, protocol_version),
    ensures
        buffer_bytes(r) == seq![0xFEu8] + level_chunk_payload(
            chunk_x,
            chunk_z,
            primary_bit_mask,
            java_data@,
            protocol_version,
            tables@,
        ),
{
    let ghost all = sections_from(primary_bit_mask, java_data@, protocol_version, 0);
    let mut java_buf = buf_from_slice(java_data);
    let mut payload = buf_new();
    buf_put_u8(&mut payload, 0x3A);
    encode_varint(chunk_x as u32, &mut payload);
    encode_varint(chunk_z as u32, &mut payload);
    let mut subchunk_count: u32 = 0;
    let mut i: i32 = 0;
    while i < 16
        invariant
            0 <= i <= 16,
            subchunk_count == count_mask_bits(primary_bit_mask, i as nat),
            subchunk_count <= i,
        decreases 16 - i,
    {
        if (primary_bit_mask & (1i32 << (i as u32))) != 0 {
            subchunk_count = subchunk_count + 1;
        }
        i = i + 1;
    }
    encode_varint(subchunk_count, &mut payload);
    buf_put_u8(&mut payload, 0);
    let ghost header = buffer_bytes(payload);
    let mut chunk_data = buf_new();
    let ghost mut done: Seq<JavaSection> = Seq::empty();
    let mut i: i32 = 0;
    proof {
        assert(done + all =~= all);
    }
    while i < 16
        invariant
            0 <= i <= 16,
            all == sections_from(primary_bit_mask, java_data@, protocol_version, 0),
            forall|k: int| 0 <= k < all.len() ==> section_translatable(#[trigger] all[k]),
            done + sections_from(primary_bit_mask, buffer_bytes(java_buf), protocol_version, i as nat)
                == all,
            buffer_bytes(chunk_data) == sections_bytes(done, tables@, protocol_version),
        ensures
            done == all,
            buffer_bytes(chunk_data) == sections_bytes(done, tables@, protocol_version),
        decreases 16 - i,
    {
        if (primary_bit_mask & (1i32 << (i as u32))) != 0 {
            if buf_len(&java_buf) == 0 {
                proof {
                    assert(sections_from(primary_bit_mask, buffer_bytes(java_buf), protocol_version, i as nat)
                        =~= Seq::<JavaSection>::empty());
                    assert(done =~= all);
                }
                break;
            }
            let ghost cur = buffer_bytes(java_buf);
            let sec = read_java_section(&mut java_buf, protocol_version);
            proof {
                let rest = sections_from(primary_bit_mask, buffer_bytes(java_buf), protocol_version, (i + 1) as nat);
                assert(sections_from(primary_bit_mask, cur, protocol_version, i as nat) == seq![sec@] + rest);
                assert(all[done.len() as int] == sec@);
                assert(section_translatable(all[done.len() as int]));
            }
            write_section(&sec, tables, protocol_version, &mut chunk_data);
            proof {
                let rest = sections_from(primary_bit_mask, buffer_bytes(java_buf), protocol_version, (i + 1) as nat);
                assert((done.push(sec@)).drop_last() =~= done);
                assert(done.push(sec@) + rest =~= done + (seq![sec@] + rest));
                done = done.push(sec@);
            }
        }
        i = i + 1;
    }
    let biomes = vec![1u8; 256];
    buf_put_slice(&mut chunk_data, biomes.as_slice());
    buf_put_u8(&mut chunk_data, 0);
    let ghost cd = buffer_bytes(chunk_data);
    proof {
        assert(biomes@ =~= Seq::new(256, |i: int| 1u8));
        assert(cd =~= sections_bytes(all, tables@, protocol_version) + Seq::new(256, |i: int| 1u8) + seq![0u8]);
    }
    let cd_len = buf_len(&chunk_data);
    let cd_len32 = cd_len as u32;
    proof {
        assert(cd_len32 as u64 == (cd_len as u64) % 0x1_0000_0000) by (bit_vector)
            requires
                cd_len32 == cd_len as u32,
        ;
    }
    encode_varint(cd_len32, &mut payload);
    buf_put_slice(&mut payload, buf_as_slice(&chunk_data));
    let out = wrap_game_packet(buf_as_slice(&payload));
    proof {
        assert(buffer_bytes(payload) =~= level_chunk_payload(
            chunk_x,
            chunk_z,
            primary_bit_mask,
            java_data@,
            protocol_version,
            tables@,
        ));
    }
    out
}

/// Whether every section that a chunk's data holds can be translated: the
/// condition `translate_chunk` asks of its input.
pub fn chunk_translatable(primary_bit_mask: i32, java_data: &[u8], protocol_version: u32) -> (ok: bool)
    ensures
        ok == chunk_sections_translatable(primary_bit_mask, java_data@, protocol_version),
{
    let ghost all = sections_from(primary_bit_mask, java_data@, protocol_version, 0);
    let mut java_buf = buf_from_slice(java_data);
    let ghost mut done: Seq<JavaSection> = Seq::empty();
    let mut i: i32 = 0;
    proof {
        assert(done + all =~= all);
    }
    while i < 16
        invariant
            0 <= i <= 16,
            all == sections_from(primary_bit_mask, java_data@, protocol_version, 0),
            forall|k: int| 0 <= k < done.len() ==> section_translatable(#[trigger] done[k]),
            done + sections_from(primary_bit_mask, buffer_bytes(java_buf), protocol_version, i as nat)
                == all,
        ensures
            done == all,
            forall|k: int| 0 <= k < done.len() ==> section_translatable(#[trigger] done[k]),
        decreases 16 - i,
    {
        if (primary_bit_mask & (1i32 << (i as u32))) != 0 {
            if buf_len(&java_buf) == 0 {
                proof {
                    assert(sections_from(primary_bit_mask, buffer_bytes(java_buf), protocol_version, i as nat)
                        =~= Seq::<JavaSection>::empty());
                    assert(done =~= all);
                }
                break;
            }
            let ghost cur = buffer_bytes(java_buf);
            let sec = read_java_section(&mut java_buf, protocol_version);
            proof {
                let rest = sections_from(primary_bit_mask, buffer_bytes(java_buf), protocol_version, (i + 1) as nat);
                assert(sections_from(primary_bit_mask, cur, protocol_version, i as nat) == seq![sec@] + rest);
                assert(all[done.len() as int] == sec@);
            }
            if sec.bits >= 64 || sec.data_len < 0 {
                proof {
                    assert(!section_translatable(all[done.len() as int]));
                }
                return false;
            }
            proof {
                let rest = sections_from(primary_bit_mask, buffer_bytes(java_buf), protocol_version, (i + 1) as nat);
                assert(done.push(sec@) + rest =~= done + (seq![sec@] + rest));
                done = done.push(sec@);
            }
        }
        i = i + 1;
    }
    true
}

/// The entry in slot `j` of a storage word: `bits` bits from bit `j * bits`.
pub open spec fn word_slot(word: u32, bits: u32, j: nat) -> u32 {
    (word >> ((j * bits) as u32)) & (((1u32 << bits) - 1) as u32)
}

/// The entry of block `i` in a section's storage words.
pub open spec fn storage_entry(ws: Seq<u32>, bits: u32, i: nat) -> u32 {
    let bpw = 32nat / bits as nat;
    word_slot(ws[(i / bpw) as int], bits, i % bpw)
}

proof fn lemma_or_slot_bound(acc: u32, r: u32, sh: u32, b: u32)
    requires
        1 <= b,
        sh + b < 32,
        acc < (1u32 << sh),
        r < (1u32 << b),
    ensures
        (acc | (r << sh)) < (1u32 << ((sh + b) as u32)),
{
    assert((acc | (r << sh)) < (1u32 << ((sh + b) as u32))) by (bit_vector)
        requires
            1 <= b,
            sh + b < 32,
            acc < (1u32 << sh),
            r < (1u32 << b),
    ;
}

proof fn lemma_or_slot_read_new(acc: u32, r: u32, sh: u32, b: u32)
    requires
        1 <= b <= 16,
        sh + b <= 32,
        sh < 32,
        acc < (1u32 << sh),
        r < (1u32 << b),
    ensures
        ((acc | (r << sh)) >> sh) & (((1u32 << b) - 1) as u32) == r,
{
    assert(((acc | (r << sh)) >> sh) & (((1u32 << b) - 1) as u32) == r) by (bit_vector)
        requires
            1 <= b <= 16,
            sh + b <= 32,
            sh < 32,
            acc < (1u32 << sh),
            r < (1u32 << b),
    ;
}

proof fn lemma_or_slot_read_old(acc: u32, r: u32, sh: u32, sh0: u32, b: u32)
    requires
        1 <= b <= 16,
        sh + b <= 32,
        sh0 + b <= sh,
        r < (1u32 << b),
    ensures
        ((acc | (r << sh)) >> sh0) & (((1u32 << b) - 1) as u32) == (acc >> sh0) & (((1u32 << b)
            - 1) as u32),
{
    assert(((acc | (r << sh)) >> sh0) & (((1u32 << b) - 1) as u32) == (acc >> sh0) & (((1u32 << b)
        - 1) as u32)) by (bit_vector)
        requires
            1 <= b <= 16,
            sh + b <= 32,
            sh0 + b <= sh,
            r < (1u32 << b),
    ;
}

proof fn lemma_below_shift_reads_zero(acc: u32, sh: u32, b: u32)
    requires
        1 <= b <= 16,
        sh < 32,
        acc < (1u32 << sh),
    ensures
        (acc >> sh) & (((1u32 << b) - 1) as u32) == 0,
{
    assert((acc >> sh) & (((1u32 << b) - 1) as u32) == 0) by (bit_vector)
        requires
            1 <= b <= 16,
            sh < 32,
            acc < (1u32 << sh),
    ;
}

proof fn lemma_shift_monotone(sh1: u32, sh2: u32)
    requires
        sh1 <= sh2 < 32,
    ensures
        (1u32 << sh1) <= (1u32 << sh2),
{
    assert((1u32 << sh1) <= (1u32 << sh2)) by (bit_vector)
        requires
            sh1 <= sh2 < 32,
    ;
}

/// The block index that slot `j` of storage word `w` holds, zero past the
/// last block.
pub open spec fn slot_rid(rids: Seq<u32>, bits: u32, w: nat, j: nat) -> u32 {
    let idx = w * (32nat / bits as nat) + j;
    if idx < rids.len() {
        rids[idx as int]
    } else {
        0
    }
}

/// After `j` slots of a storage word are filled, the word stays below the
/// slots filled and each filled slot reads back its block index.
pub proof fn lemma_pack_word_slots(rids: Seq<u32>, bits: u32, w: nat, j: nat)
    requires
        storage_width(bits),
        j <= 32u32 / bits,
        forall|k: int| 0 <= k < rids.len() ==> #[trigger] rids[k] < (1u32 << bits),
    ensures
        j * bits < 32 ==> pack_word(rids, bits, w, j) < (1u32 << ((j * bits) as u32)),
        forall|jj: nat|
            jj < j ==> #[trigger] word_slot(pack_word(rids, bits, w, j), bits, jj) == slot_rid(
                rids,
                bits,
                w,
                jj,
            ),
    decreases j,
{
    let bpw = 32u32 / bits;
    assert(bpw * bits <= 32) by (nonlinear_arith)
        requires
            bpw == 32u32 / bits,
            bits >= 1,
    ;
    if j == 0 {
        assert(0u32 < (1u32 << 0u32)) by (bit_vector);
    } else {
        let j0 = (j - 1) as nat;
        lemma_pack_word_slots(rids, bits, w, j0);
        let acc = pack_word(rids, bits, w, j0);
        let sh = (j0 * bits) as u32;
        assert(j0 * bits + bits <= 32) by (nonlinear_arith)
            requires
                j0 < bpw,
                bpw * bits <= 32,
        ;
        assert(acc < (1u32 << sh));
        let idx = w * (bpw as nat) + j0;
        let cur = pack_word(rids, bits, w, j);
        if idx < rids.len() {
            let r = rids[idx as int];
            assert(cur == acc | (r << sh));
            if j * bits < 32 {
                lemma_or_slot_bound(acc, r, sh, bits);
                assert((sh + bits) as u32 == (j * bits) as u32) by (nonlinear_arith)
                    requires
                        sh == j0 * bits,
                        j == j0 + 1,
                ;
            }
            assert forall|jj: nat| jj < j implies #[trigger] word_slot(cur, bits, jj) == slot_rid(
                rids,
                bits,
                w,
                jj,
            ) by {
                if jj == j0 {
                    lemma_or_slot_read_new(acc, r, sh, bits);
                } else {
                    assert(jj * bits + bits <= j0 * bits) by (nonlinear_arith)
                        requires
                            jj < j0,
                    ;
                    lemma_or_slot_read_old(acc, r, sh, (jj * bits) as u32, bits);
                    assert(word_slot(acc, bits, jj) == slot_rid(rids, bits, w, jj));
                }
            }
        } else {
            assert(cur == acc);
            if j * bits < 32 {
                assert(j * bits == j0 * bits + bits) by (nonlinear_arith)
                    requires
                        j == j0 + 1,
                ;
                lemma_shift_monotone(sh, (j * bits) as u32);
            }
            assert forall|jj: nat| jj < j implies #[trigger] word_slot(cur, bits, jj) == slot_rid(
                rids,
                bits,
                w,
                jj,
            ) by {
                if jj == j0 {
                    lemma_below_shift_reads_zero(acc, sh, bits);
                }
            }
        }
    }
}

/// Every name seen is in the palette.
pub proof fn lemma_palette_upto_contains(names: Seq<Seq<char>>, k: nat, i: int)
    requires
        0 <= i < k,
        k <= names.len(),
    ensures
        palette_upto(names, k).contains(names[i]),
    decreases k,
{
    let k0 = (k - 1) as nat;
    let p = palette_upto(names, k0);
    if i == k0 {
        if !p.contains(names[i]) {
            assert(p.push(names[i])[p.len() as int] == names[i]);
        }
    } else {
        lemma_palette_upto_contains(names, k0, i);
        if !p.contains(names[k0 as int]) {
            let j = choose|j: int| 0 <= j < p.len() && p[j] == names[i];
            assert(p.push(names[k0 as int])[j] == names[i]);
        }
    }
}

/// The width chosen for a palette is a storage width wide enough to index
/// every entry.
pub proof fn lemma_bedrock_bits_fit(size: nat)
    requires
        1 <= size <= 4097,
    ensures
        storage_width(bedrock_bits(size)),
        size <= (1u32 << bedrock_bits(size)),
{
    lemma_storage_width_powers();
}

/// Every block of a translated section can be read back from its sub-chunk:
/// the block's slot in the storage words holds its palette index, and the
/// palette entry at that index is the block's Bedrock name.
pub proof fn lemma_section_blocks_read_back(
    sec: JavaSection,
    tables: BlockNameTablesView,
    protocol_version: u32,
    i: int,
)
    requires
        0 <= i < 4096,
    ensures
        ({
            let p = section_palette(sec, tables, protocol_version);
            let bits = bedrock_bits(p.len());
            let rids = section_rids(sec, tables, protocol_version);
            &&& storage_entry(packed_words(rids, bits), bits, i as nat) == rids[i]
            &&& rids[i] < p.len()
            &&& p[rids[i] as int] == section_block_names(sec, tables, protocol_version)[i]
        }),
{
    let names = section_block_names(sec, tables, protocol_version);
    let p = section_palette(sec, tables, protocol_version);
    let rids = section_rids(sec, tables, protocol_version);
    lemma_palette_upto_props(names, 4096);
    lemma_bedrock_bits_fit(p.len());
    let bits = bedrock_bits(p.len());
    assert forall|k: int| 0 <= k < 4096 implies #[trigger] rids[k] < (1u32 << bits) && rids[k] < p.len()
        && p[rids[k] as int] == names[k] by {
        lemma_palette_upto_contains(names, 4096, k);
    }
    let bpw = 32u32 / bits;
    let d = bpw as int;
    let wi = i / d;
    let ji = i % d;
    assert(d >= 1 && bpw * bits <= 32);
    vstd::arithmetic::div_mod::lemma_fundamental_div_mod(i, d);
    vstd::arithmetic::div_mod::lemma_mod_pos_bound(i, d);
    assert(wi * d + ji == i && 0 <= ji < d && wi >= 0) by (nonlinear_arith)
        requires
            i == d * wi + ji,
            0 <= ji < d,
            d >= 1,
            0 <= i,
    ;
    assert(wi < (4096 + d - 1) / d) by (nonlinear_arith)
        requires
            wi * d + ji == i,
            0 <= ji,
            i < 4096,
            d >= 1,
            wi >= 0,
    {
        assert((wi + 1) * d <= 4096 + d - 1);
        vstd::arithmetic::div_mod::lemma_div_multiples_vanish(wi + 1, d);
        vstd::arithmetic::div_mod::lemma_div_is_ordered((wi + 1) * d, 4096 + d - 1, d);
    }
    let w = wi as nat;
    let j = ji as nat;
    lemma_pack_word_slots(rids, bits, w, bpw as nat);
    assert(word_slot(pack_word(rids, bits, w, bpw as nat), bits, j) == slot_rid(rids, bits, w, j));
}

/// Whether bit `i` (below 16) of a mask is set does not depend on bits 16
/// to 31.
proof fn lemma_mask_bit_low(mask: i32, i: nat)
    requires
        i < 16,
    ensures
        mask_bit(mask, i) == mask_bit(mask & 0xFFFFi32, i),
{
    let ii = i as u32;
    assert(((mask & (1i32 << ii)) != 0) == (((mask & 0xFFFFi32) & (1i32 << ii)) != 0)) by (bit_vector)
        requires
            0 <= ii < 16,
    ;
}

proof fn lemma_count_mask_bits_low(mask: i32, n: nat)
    requires
        n <= 16,
    ensures
        count_mask_bits(mask, n) == count_mask_bits(mask & 0xFFFFi32, n),
    decreases n,
{
    if n > 0 {
        lemma_count_mask_bits_low(mask, (n - 1) as nat);
        lemma_mask_bit_low(mask, (n - 1) as nat);
    }
}

proof fn lemma_sections_from_low(mask: i32, s: Seq<u8>, protocol_version: u32, i: nat)
    ensures
        sections_from(mask, s, protocol_version, i) == sections_from(mask & 0xFFFFi32, s, protocol_version, i),
    decreases 16 - i,
{
    if i < 16 {
        lemma_mask_bit_low(mask, i);
        if mask_bit(mask, i) {
            if s.len() > 0 {
                let (sec, rest) = parse_section(s, protocol_version);
                lemma_sections_from_low(mask, rest, protocol_version, i + 1);
            }
        } else {
            lemma_sections_from_low(mask, s, protocol_version, i + 1);
        }
    }
}

/// Bits 16 to 31 of the primary bit mask are never read: a chunk translates,
/// and can be translated, exactly as with the mask cut to its low 16 bits.
pub proof fn lemma_mask_high_bits_ignored(
    chunk_x: i32,
    chunk_z: i32,
    mask: i32,
    data: Seq<u8>,
    protocol_version: u32,
    tables: BlockNameTablesView,
)
    ensures
        level_chunk_payload(chunk_x, chunk_z, mask, data, protocol_version, tables)
            == level_chunk_payload(chunk_x, chunk_z, mask & 0xFFFFi32, data, protocol_version, tables),
        chunk_sections_translatable(mask, data, protocol_version) == chunk_sections_translatable(
            mask & 0xFFFFi32,
            data,
            protocol_version,
        ),
{
    lemma_sections_from_low(mask, data, protocol_version, 0);
    lemma_count_mask_bits_low(mask, 16);
}

/// Reading palette entries off a run of VarInt encodings gives back the
/// encoded values, one entry per encoding, and leaves what follows them.
proof fn lemma_read_palette_encoded(vs: Seq<u32>, t: Seq<u8>, k: nat)
    requires
        k <= vs.len(),
    ensures
        read_palette(varints_of(vs) + t, k) == (vs.take(k as int), varints_of(vs.skip(k as int)) + t),
    decreases k,
{
    if k == 0 {
        assert(vs.take(0) =~= Seq::<u32>::empty());
        assert(vs.skip(0) =~= vs);
    } else {
        let k0 = (k - 1) as nat;
        lemma_read_palette_encoded(vs, t, k0);
        let tail = vs.skip(k0 as int);
        assert(tail[0] == vs[k0 as int]);
        assert(tail.drop_first() =~= vs.skip(k as int));
        let v = vs[k0 as int];
        let after = varints_of(vs.skip(k as int)) + t;
        assert(varints_of(tail) + t =~= varint_encode(v as nat) + after);
        lemma_varint_encode(v as nat, 0);
        lemma_var_u32_roundtrip(v, after);
        assert(((v as i32) as u32) == v) by (bit_vector);
        assert(vs.take(k0 as int).push(v) =~= vs.take(k as int));
    }
}

/// Every Java palette entry is one VarInt: a section of `b` bits per block
/// (four to eight), a palette of `n` entries and a data length, each written
/// as VarInts, reads back as exactly those entries and that data length.
pub proof fn lemma_section_palette_reads_back(b: u8, vs: Seq<u32>, d: u32, rest: Seq<u8>, protocol_version: u32)
    requires
        4 <= b <= 8,
        vs.len() <= 0x7FFF_FFFF,
        d <= 0x7FFF_FFFF,
    ensures
        ({
            let s = seq![b] + varint_encode(vs.len()) + varints_of(vs) + varint_encode(d as nat) + rest;
            let sec = parse_section(s, protocol_version).0;
            &&& sec.bits == b
            &&& sec.palette == vs
            &&& sec.data_len == d as i32
        }),
{
    let n = vs.len() as u32;
    let after_palette = varint_encode(d as nat) + rest;
    let s = seq![b] + varint_encode(vs.len()) + varints_of(vs) + after_palette;
    assert(s.skip(1) =~= varint_encode(n as nat) + (varints_of(vs) + after_palette));
    lemma_var_u32_roundtrip(n, varints_of(vs) + after_palette);
    assert((n as i32) as nat == vs.len());
    lemma_read_palette_encoded(vs, after_palette, vs.len());
    assert(vs.take(vs.len() as int) =~= vs);
    assert(vs.skip(vs.len() as int) =~= Seq::<u32>::empty());
    assert(varints_of(Seq::<u32>::empty()) + after_palette =~= after_palette);
    lemma_var_u32_roundtrip(d, rest);
    assert(seq![b] + varint_encode(vs.len()) + varints_of(vs) + varint_encode(d as nat) + rest =~= s);
}

/// Two runs of bytes that agree on their first eight bytes stand for the
/// same 64-bit number.
proof fn lemma_u64_from_be_prefix(a: Seq<u8>, b: Seq<u8>)
    requires
        a.len() >= 8,
        b.len() >= 8,
        forall|i: int| 0 <= i < 8 ==> a[i] == b[i],
    ensures
        u64_from_be(a) == u64_from_be(b),
{
    assert(a[0] == b[0] && a[1] == b[1] && a[2] == b[2] && a[3] == b[3] && a[4] == b[4] && a[5] == b[5]
        && a[6] == b[6] && a[7] == b[7]);
}

/// Reading `n` data words off `8 * n` bytes (and more) gives the 64-bit
/// numbers of each eight bytes, most significant first, and leaves the rest.
proof fn lemma_read_words_encoded(w: Seq<u8>, t: Seq<u8>, n: nat)
    requires
        w.len() >= 8 * n,
    ensures
        read_words(w + t, n) == (
            Seq::new(n, |i: int| u64_from_be(w.skip(8 * i))),
            w.skip(8 * n as int) + t,
        ),
    decreases n,
{
    if n == 0 {
        assert(Seq::new(0, |i: int| u64_from_be(w.skip(8 * i))) =~= Seq::<u64>::empty());
        assert(w.skip(0) =~= w);
    } else {
        let n0 = (n - 1) as nat;
        lemma_read_words_encoded(w, t, n0);
        let s1 = w.skip(8 * n0 as int) + t;
        lemma_u64_from_be_prefix(s1, w.skip(8 * n0 as int));
        assert(s1.skip(8) =~= w.skip(8 * n as int) + t);
        assert(Seq::new(n0, |i: int| u64_from_be(w.skip(8 * i))).push(u64_from_be(w.skip(8 * n0 as int)))
            =~= Seq::new(n, |i: int| u64_from_be(w.skip(8 * i))));
    }
}

/// A whole section reads back as it was written: the bits per block (four
/// to eight), the palette and the data words, each count a VarInt, then the
/// light arrays, which are skipped: the block light (2048 bytes) always, and
/// the sky light (2048 more) for protocol 340 and older. Reading resumes
/// right after them.
pub proof fn lemma_section_reads_back(
    b: u8,
    vs: Seq<u32>,
    words: Seq<u8>,
    light: Seq<u8>,
    rest: Seq<u8>,
    protocol_version: u32,
)
    requires
        4 <= b <= 8,
        vs.len() <= 0x7FFF_FFFF,
        words.len() % 8 == 0,
        words.len() / 8 <= 0x7FFF_FFFF,
        light.len() == (if protocol_version <= 340 {
            4096nat
        } else {
            2048nat
        }),
    ensures
        ({
            let n = words.len() / 8;
            parse_section(
                seq![b] + varint_encode(vs.len()) + varints_of(vs) + varint_encode(n) + words + light
                    + rest,
                protocol_version,
            ) == (
                JavaSection {
                    bits: b,
                    palette: vs,
                    data_len: n as i32,
                    words: Seq::new(n, |i: int| u64_from_be(words.skip(8 * i))),
                },
                rest,
            )
        }),
{
    let n = words.len() / 8;
    let tail = words + light + rest;
    lemma_section_palette_reads_back(b, vs, n as u32, tail, protocol_version);
    let s = seq![b] + varint_encode(vs.len()) + varints_of(vs) + varint_encode(n) + tail;
    assert(seq![b] + varint_encode(vs.len()) + varints_of(vs) + varint_encode(n) + words + light + rest
        =~= s);
    // The reader's position after the palette and the data length.
    let after_palette = varint_encode(n) + tail;
    let n32 = n as u32;
    assert(s.skip(1) =~= varint_encode(vs.len() as u32 as nat) + (varints_of(vs) + after_palette));
    lemma_var_u32_roundtrip(vs.len() as u32, varints_of(vs) + after_palette);
    lemma_read_palette_encoded(vs, after_palette, vs.len());
    assert(vs.skip(vs.len() as int) =~= Seq::<u32>::empty());
    assert(varints_of(Seq::<u32>::empty()) + after_palette =~= after_palette);
    lemma_var_u32_roundtrip(n32, tail);
    assert(words + light + rest =~= words + (light + rest));
    lemma_read_words_encoded(words, light + rest, n);
    assert(words.skip(8 * n as int) =~= Seq::<u8>::empty());
    assert(Seq::<u8>::empty() + (light + rest) =~= light + rest);
    assert((light + rest).skip(2048) =~= light.skip(2048) + rest);
    if protocol_version <= 340 {
        assert((light.skip(2048) + rest).skip(2048) =~= rest);
    } else {
        assert(light.skip(2048) =~= Seq::<u8>::empty());
        assert(Seq::<u8>::empty() + rest =~= rest);
    }
}

/// Where no block can span two words (4, 8, 16 or 32 bits per block), the
/// 1.12.2 layout and the later one read the same state for every block.
pub proof fn lemma_layouts_agree_without_spanning(sec: JavaSection, idx: nat)
    requires
        sec.bits == 4 || sec.bits == 8 || sec.bits == 16 || sec.bits == 32,
    ensures
        java_state_compacted(sec, idx) == java_state(sec, idx),
{
    let b = sec.bits as nat;
    let q = 64nat / b;
    assert(q * b == 64);
    let a = idx / q;
    let r = idx % q;
    vstd::arithmetic::div_mod::lemma_fundamental_div_mod(idx as int, q as int);
    assert(idx * b == 64 * a + r * b && r * b + b <= 64) by (nonlinear_arith)
        requires
            idx == q * a + r,
            q * b == 64,
            0 <= r < q,
    ;
    vstd::arithmetic::div_mod::lemma_fundamental_div_mod_converse(
        (idx * b) as int,
        64,
        a as int,
        (r * b) as int,
    );
    if a < sec.words.len() {
        let x = sec.words[a as int] >> ((r * b) as u64);
        lemma_zero_word(x, 0);
    } else {
        lemma_zero_word(0, 0);
        lemma_zero_word(block_mask(sec.bits), 0);
    }
}

/// In the 1.12.2 layout a block's state is `bits` bits of the string the
/// data words form: taking the word the block starts in and the next one
/// (zero where missing) as one 128-bit number, the low word first, the
/// state is that number shifted right by the block's offset in its first
/// word and cut to `bits` bits.
pub proof fn lemma_compacted_state_is_bit_window(sec: JavaSection, idx: nat)
    requires
        4 <= sec.bits < 64,
    ensures
        ({
            let start = idx * (sec.bits as nat);
            let w = start / 64;
            let off = (start % 64) as u128;
            let lo: u128 = if w < sec.words.len() {
                sec.words[w as int] as u128
            } else {
                0
            };
            let hi: u128 = if w + 1 < sec.words.len() {
                sec.words[w + 1 as int] as u128
            } else {
                0
            };
            java_state_compacted(sec, idx) as u128 == (((hi << 64u128) | lo) >> off) & (((1u128 << (
            sec.bits as u128)) - 1) as u128)
        }),
{
    let b = sec.bits;
    let start = idx * (b as nat);
    let w = start / 64;
    let off = (start % 64) as u64;
    let wl: u64 = if w < sec.words.len() {
        sec.words[w as int]
    } else {
        0
    };
    let wh: u64 = if w + 1 < sec.words.len() {
        sec.words[w + 1 as int]
    } else {
        0
    };
    let st = java_state_compacted(sec, idx);
    lemma_zero_word(wl >> off, off);
    lemma_zero_word(0, (64 - off) as u64);
    assert((((((wh as u128) << 64u128) | (wl as u128)) >> (off as u128)) & (((1u128 << (b as u128)) - 1)
        as u128)) < 0x1_0000_0000_0000_0000) by (bit_vector)
        requires
            4 <= b < 64,
    ;
    if (off as nat) + (b as nat) > 64 {
        assert(st == ((wl >> off) | (wh << ((64 - off) as u64))) & block_mask(b));
        assert(((wl >> off) | (wh << ((64 - off) as u64))) & (((1u64 << b) - 1) as u64) == (((((wh as u128)
            << 64u128) | (wl as u128)) >> (off as u128)) & (((1u128 << (b as u128)) - 1) as u128)) as u64)
            by (bit_vector)
            requires
                (off as u128) + (b as u128) > 64,
                off < 64,
                4 <= b < 64,
        ;
    } else {
        assert(st == ((wl >> off) | 0u64) & block_mask(b));
        assert(((wl >> off) | 0u64) & (((1u64 << b) - 1) as u64) == (((((wh as u128) << 64u128) | (
        wl as u128)) >> (off as u128)) & (((1u128 << (b as u128)) - 1) as u128)) as u64) by (bit_vector)
            requires
                (off as u128) + (b as u128) <= 64,
                4 <= b < 64,
        ;
    }
}

/// The width chosen for a palette is the narrowest storage width that
/// indexes every entry: no narrower width of 1, 2, 4, 6, 8 or 16 bits does.
pub proof fn lemma_bedrock_bits_least(size: nat, bits: u32)
    requires
        1 <= size <= 4097,
        storage_width(bits),
        size <= (1u32 << bits),
    ensures
        bedrock_bits(size) <= bits,
{
    lemma_storage_width_powers();
}

/// The framing of a LevelChunk payload: packet id `0x3A`, the chunk
/// coordinates and the section count as VarInts and a zero byte; then a
/// VarInt length that counts exactly the bytes after it, which are the
/// sub-chunks followed by 256 plains biome bytes (id 1) and a zero
/// border-block count.
pub proof fn lemma_level_chunk_framing(
    chunk_x: i32,
    chunk_z: i32,
    mask: i32,
    data: Seq<u8>,
    protocol_version: u32,
    tables: BlockNameTablesView,
)
    ensures
        ({
            let p = level_chunk_payload(chunk_x, chunk_z, mask, data, protocol_version, tables);
            let head = seq![0x3Au8] + varint_encode(chunk_x as u32 as nat) + varint_encode(
                chunk_z as u32 as nat,
            ) + varint_encode(count_mask_bits(mask, 16)) + seq![0u8];
            let (n, cd) = spec_read_var_u32(p.skip(head.len() as int));
            &&& p.take(head.len() as int) == head
            &&& n == Ok::<u32, DecodeError>((cd.len() % 0x1_0000_0000) as u32)
            &&& cd.len() >= 257
            &&& cd.skip(cd.len() - 257) == Seq::new(256, |i: int| 1u8) + seq![0u8]
            &&& cd.take(cd.len() - 257) == sections_bytes(
                sections_from(mask, data, protocol_version, 0),
                tables,
                protocol_version,
            )
        }),
{
    let secs = sections_bytes(sections_from(mask, data, protocol_version, 0), tables, protocol_version);
    let cd = secs + Seq::new(256, |i: int| 1u8) + seq![0u8];
    let head = seq![0x3Au8] + varint_encode(chunk_x as u32 as nat) + varint_encode(chunk_z as u32 as nat)
        + varint_encode(count_mask_bits(mask, 16)) + seq![0u8];
    let n = (cd.len() % 0x1_0000_0000) as u32;
    let p = level_chunk_payload(chunk_x, chunk_z, mask, data, protocol_version, tables);
    assert(p =~= head + (varint_encode(n as nat) + cd));
    assert(p.take(head.len() as int) =~= head);
    assert(p.skip(head.len() as int) =~= varint_encode(n as nat) + cd);
    lemma_var_u32_roundtrip(n, cd);
    assert(cd.skip(cd.len() - 257) =~= Seq::new(256, |i: int| 1u8) + seq![0u8]);
    assert(cd.take(cd.len() - 257) =~= secs);
}

} // verus!
