//! Little-endian base-128 variable-length integers (LEB128), as Bedrock and
//! Java Edition write them: seven bits of the number per byte, least
//! significant group first, the high bit of a byte set when another follows.

use vstd::prelude::*;

verus! {

/// Whether a byte announces that another byte follows (its high bit is set).
pub open spec fn has_continuation(b: u8) -> bool {
    b >= 128
}

/// The seven value bits of a byte.
pub open spec fn payload7(b: u8) -> nat {
    (b % 128) as nat
}

/// `128` to the power `k`.
pub open spec fn pow128(k: nat) -> nat
    decreases k,
{
    if k == 0 {
        1
    } else {
        128 * pow128((k - 1) as nat)
    }
}

/// The number that a sequence of base-128 digits stands for, least
/// significant digit first.
pub open spec fn base128_value(s: Seq<u8>) -> nat
    decreases s.len(),
{
    if s.len() == 0 {
        0
    } else {
        payload7(s[0]) + 128 * base128_value(s.drop_first())
    }
}

/// The position of the first byte of `s` that ends an integer (high bit clear).
pub open spec fn first_terminator(s: Seq<u8>) -> Option<nat>
    decreases s.len(),
{
    if s.len() == 0 {
        None
    } else if !has_continuation(s[0]) {
        Some(0)
    } else {
        match first_terminator(s.drop_first()) {
            Some(i) => Some(i + 1),
            None => None,
        }
    }
}

/// What a reader that takes at most `max_len` bytes finds at the front of `s`.
pub enum VarDecode {
    /// An integer of `len` bytes whose digits stand for `value`.
    Done { len: nat, value: nat },
    /// The input ends before the integer does, within `max_len` bytes.
    Incomplete,
    /// The first `max_len` bytes all announce a further byte.
    TooLong,
}

/// How a reader that accepts at most `max_len` bytes reads a variable-length
/// integer from the front of `s`.
pub open spec fn var_decode(s: Seq<u8>, max_len: nat) -> VarDecode {
    let t = first_terminator(s);
    if t is Some && t->0 < max_len {
        VarDecode::Done { len: t->0 + 1, value: base128_value(s.take(t->0 + 1 as int)) }
    } else if s.len() < max_len {
        VarDecode::Incomplete
    } else {
        VarDecode::TooLong
    }
}

/// The shortest variable-length encoding of `v`.
pub open spec fn varint_encode(v: nat) -> Seq<u8>
    decreases v,
{
    if v < 128 {
        seq![v as u8]
    } else {
        seq![(v % 128 + 128) as u8] + varint_encode(v / 128)
    }
}

pub proof fn lemma_pow128_values()
    ensures
        pow128(0) == 1,
        pow128(1) == 0x80,
        pow128(2) == 0x4000,
        pow128(3) == 0x20_0000,
        pow128(4) == 0x1000_0000,
        pow128(5) == 0x8_0000_0000,
        pow128(6) == 0x400_0000_0000,
        pow128(7) == 0x2_0000_0000_0000,
        pow128(8) == 0x100_0000_0000_0000,
        pow128(9) == 0x8000_0000_0000_0000,
        pow128(10) == 0x40_0000_0000_0000_0000,
{
    reveal_with_fuel(pow128, 11);
}

/// Appending a digit adds it at the weight of its position.
pub proof fn lemma_base128_push(t: Seq<u8>, b: u8)
    ensures
        base128_value(t.push(b)) == base128_value(t) + payload7(b) * pow128(t.len()),
    decreases t.len(),
{
    if t.len() == 0 {
        assert(t.push(b).drop_first() =~= Seq::<u8>::empty());
        assert(t.push(b)[0] == b);
        assert(pow128(0) == 1);
        assert(base128_value(t.push(b)) == payload7(b) + 128 * base128_value(t.push(b).drop_first()));
        assert(base128_value(t.push(b).drop_first()) == 0);
        assert(payload7(b) * pow128(t.len()) == payload7(b));
    } else {
        let t1 = t.drop_first();
        assert(t.push(b).drop_first() =~= t1.push(b));
        assert(t.push(b)[0] == t[0]);
        lemma_base128_push(t1, b);
        assert(pow128(t.len()) == 128 * pow128(t1.len()));
        let x = base128_value(t1);
        let p = payload7(b);
        let w = pow128(t1.len());
        assert(base128_value(t.push(b)) == payload7(t[0]) + 128 * base128_value(t1.push(b)));
        assert(base128_value(t) == payload7(t[0]) + 128 * x);
        assert(128 * (x + p * w) == 128 * x + p * (128 * w)) by (nonlinear_arith);
    }
}

/// A value of `k` digits is below `128^k`.
pub proof fn lemma_base128_bound(s: Seq<u8>)
    ensures
        base128_value(s) < pow128(s.len()),
    decreases s.len(),
{
    if s.len() > 0 {
        lemma_base128_bound(s.drop_first());
        let x = base128_value(s.drop_first());
        let w = pow128(s.drop_first().len());
        assert(x + 1 <= w);
        assert(128 * (x + 1) <= 128 * w) by (nonlinear_arith)
            requires
                x + 1 <= w,
        ;
    }
}

/// Where the first `k` bytes all announce a further byte and byte `k` does
/// not, the integer ends at `k`.
pub proof fn lemma_first_terminator_at(s: Seq<u8>, k: nat)
    requires
        k < s.len(),
        forall|j: int| 0 <= j < k ==> has_continuation(#[trigger] s[j]),
        !has_continuation(s[k as int]),
    ensures
        first_terminator(s) == Some(k),
    decreases k,
{
    if k > 0 {
        assert(has_continuation(s[0]));
        let s1 = s.drop_first();
        assert forall|j: int| 0 <= j < k - 1 implies has_continuation(#[trigger] s1[j]) by {
            assert(s1[j] == s[j + 1]);
        }
        lemma_first_terminator_at(s1, (k - 1) as nat);
    }
}

/// Where the first `k` bytes all announce a further byte, the integer does
/// not end before `k`, and where they are all of `s` it does not end at all.
pub proof fn lemma_no_terminator_before(s: Seq<u8>, k: nat)
    requires
        k <= s.len(),
        forall|j: int| 0 <= j < k ==> has_continuation(#[trigger] s[j]),
    ensures
        first_terminator(s) matches Some(i) ==> i >= k,
        k == s.len() ==> first_terminator(s) is None,
    decreases k,
{
    if k > 0 {
        assert(has_continuation(s[0]));
        let s1 = s.drop_first();
        assert forall|j: int| 0 <= j < k - 1 implies has_continuation(#[trigger] s1[j]) by {
            assert(s1[j] == s[j + 1]);
        }
        lemma_no_terminator_before(s1, (k - 1) as nat);
    }
}

/// The first integer of `a + b` is that of `a`, where `a` holds one.
pub proof fn lemma_first_terminator_prefix(a: Seq<u8>, b: Seq<u8>)
    requires
        first_terminator(a) is Some,
    ensures
        first_terminator(a + b) == first_terminator(a),
    decreases a.len(),
{
    assert((a + b)[0] == a[0]);
    if has_continuation(a[0]) {
        assert((a + b).drop_first() =~= a.drop_first() + b);
        lemma_first_terminator_prefix(a.drop_first(), b);
    }
}

/// The encoding of `v` is one integer, standing for `v`, of at least one
/// byte, and of at most `k` bytes where `v < 128^k`.
pub proof fn lemma_varint_encode(v: nat, k: nat)
    ensures
        varint_encode(v).len() >= 1,
        first_terminator(varint_encode(v)) == Some((varint_encode(v).len() - 1) as nat),
        base128_value(varint_encode(v)) == v,
        k >= 1 && v < pow128(k) ==> varint_encode(v).len() <= k,
    decreases v,
{
    let e = varint_encode(v);
    if v < 128 {
        assert(e.drop_first() =~= Seq::<u8>::empty());
        assert(e[0] == v as u8);
        assert(!has_continuation(e[0]));
        assert(base128_value(e) == payload7(e[0]) + 128 * base128_value(e.drop_first()));
    } else {
        let r = varint_encode(v / 128);
        lemma_varint_encode(v / 128, (k - 1) as nat);
        assert(e[0] == (v % 128 + 128) as u8);
        assert(has_continuation(e[0]));
        assert(e.drop_first() =~= r);
        assert(payload7(e[0]) == v % 128);
        assert(base128_value(e) == payload7(e[0]) + 128 * base128_value(r));
        assert(v == v % 128 + 128 * (v / 128));
        if k >= 1 && v < pow128(k) {
            if k == 1 {
                assert(pow128(1) == 128) by {
                    reveal_with_fuel(pow128, 2);
                }
            } else {
                assert(pow128(k) == 128 * pow128((k - 1) as nat));
                assert(v / 128 < pow128((k - 1) as nat));
            }
        }
    }
}

/// A `u32` fits in five encoded bytes, a `u64` in ten.
pub proof fn lemma_varint_encode_len_u32_u64(v: nat)
    ensures
        v < 0x1_0000_0000 ==> varint_encode(v).len() <= 5,
        v < 0x1_0000_0000_0000_0000 ==> varint_encode(v).len() <= 10,
{
    lemma_pow128_values();
    lemma_varint_encode(v, 5);
    lemma_varint_encode(v, 10);
}

/// Reading an encoded integer, with anything after it, gives the integer back
/// and stops right after its encoding, for every reader that accepts at least
/// as many bytes as the encoding has.
pub proof fn lemma_var_decode_encode(v: nat, rest: Seq<u8>, max_len: nat)
    requires
        varint_encode(v).len() <= max_len,
    ensures
        var_decode(varint_encode(v) + rest, max_len) == (VarDecode::Done {
            len: varint_encode(v).len(),
            value: v,
        }),
{
    let e = varint_encode(v);
    lemma_varint_encode(v, 0);
    lemma_first_terminator_prefix(e, rest);
    assert((e + rest).take(e.len() as int) =~= e);
}

/// One step of a 32-bit reader: OR-ing the seven value bits of byte `k` in at
/// bit `7k` adds them at weight `128^k`, modulo `2^32`, while the bits read
/// so far stand below `128^k`.
pub proof fn lemma_or_digit_u32(value: u32, b: u8, k: nat)
    requires
        k < 5,
        value < pow128(k),
    ensures
        ((value | (((b & 0x7F) as u32) << (7 * k) as u32)) as nat) == (value + payload7(b) * pow128(
            k,
        )) % 0x1_0000_0000,
{
    lemma_pow128_values();
    if k == 0 {
        assert((value | (((b & 0x7F) as u32) << 0u32)) == value + (b % 128) as u32) by (bit_vector)
            requires
                value < 1,
        ;
    } else if k == 1 {
        assert((value | (((b & 0x7F) as u32) << 7u32)) == value + (b % 128) as u32 * 0x80) by (bit_vector)
            requires
                value < 0x80,
        ;
    } else if k == 2 {
        assert((value | (((b & 0x7F) as u32) << 14u32)) == value + (b % 128) as u32 * 0x4000)
            by (bit_vector)
            requires
                value < 0x4000,
        ;
    } else if k == 3 {
        assert((value | (((b & 0x7F) as u32) << 21u32)) == value + (b % 128) as u32 * 0x20_0000)
            by (bit_vector)
            requires
                value < 0x20_0000,
        ;
    } else {
        assert((value | (((b & 0x7F) as u32) << 28u32)) as u64 == (value as u64 + (b % 128) as u64
            * 0x1000_0000) % 0x1_0000_0000) by (bit_vector)
            requires
                value < 0x1000_0000,
        ;
    }
}

/// One step of a 64-bit reader, as `lemma_or_digit_u32` for 32 bits.
pub proof fn lemma_or_digit_u64(value: u64, b: u8, k: nat)
    requires
        k < 10,
        value < pow128(k),
    ensures
        ((value | (((b & 0x7F) as u64) << (7 * k) as u64)) as nat) == (value + payload7(b) * pow128(
            k,
        )) % 0x1_0000_0000_0000_0000,
{
    lemma_pow128_values();
    if k == 0 {
        assert((value | (((b & 0x7F) as u64) << 0u64)) == value + (b % 128) as u64 * 0x1)
            by (bit_vector)
            requires
                value < 0x1,
        ;
    } else if k == 1 {
        assert((value | (((b & 0x7F) as u64) << 7u64)) == value + (b % 128) as u64 * 0x80)
            by (bit_vector)
            requires
                value < 0x80,
        ;
    } else if k == 2 {
        assert((value | (((b & 0x7F) as u64) << 14u64)) == value + (b % 128) as u64 * 0x4000)
            by (bit_vector)
            requires
                value < 0x4000,
        ;
    } else if k == 3 {
        assert((value | (((b & 0x7F) as u64) << 21u64)) == value + (b % 128) as u64 * 0x200000)
            by (bit_vector)
            requires
                value < 0x200000,
        ;
    } else if k == 4 {
        assert((value | (((b & 0x7F) as u64) << 28u64)) == value + (b % 128) as u64 * 0x10000000)
            by (bit_vector)
            requires
                value < 0x10000000,
        ;
    } else if k == 5 {
        assert((value | (((b & 0x7F) as u64) << 35u64)) == value + (b % 128) as u64 * 0x800000000)
            by (bit_vector)
            requires
                value < 0x800000000,
        ;
    } else if k == 6 {
        assert((value | (((b & 0x7F) as u64) << 42u64)) == value + (b % 128) as u64 * 0x40000000000)
            by (bit_vector)
            requires
                value < 0x40000000000,
        ;
    } else if k == 7 {
        assert((value | (((b & 0x7F) as u64) << 49u64)) == value + (b % 128) as u64 * 0x2000000000000)
            by (bit_vector)
            requires
                value < 0x2000000000000,
        ;
    } else if k == 8 {
        assert((value | (((b & 0x7F) as u64) << 56u64)) == value + (b % 128) as u64 * 0x100000000000000)
            by (bit_vector)
            requires
                value < 0x100000000000000,
        ;
    } else {
        assert((value | (((b & 0x7F) as u64) << 63u64)) as u128 == (value as u128 + (b % 128) as u128
            * 0x8000000000000000) % 0x1_0000_0000_0000_0000) by (bit_vector)
            requires
                value < 0x8000000000000000,
        ;
    }
}

/// The integer at the front of `s` ends within `s`.
pub proof fn lemma_first_terminator_bound(s: Seq<u8>)
    ensures
        first_terminator(s) matches Some(i) ==> i < s.len(),
    decreases s.len(),
{
    if s.len() > 0 && has_continuation(s[0]) {
        lemma_first_terminator_bound(s.drop_first());
    }
}

} // verus!
