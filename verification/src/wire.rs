//! Integers as bytes, in either byte order.
use vstd::prelude::*;

verus! {

/// Order in which the bytes of an integer stand
#[derive(Debug, Clone, Copy, PartialEq, Eq, Structural)]
pub enum ByteOrder {
    /// Least significant byte first
    Little,
    /// Most significant byte first
    Big,
}

/// 256 to the power of `n`.
pub open spec fn pow256(n: nat) -> nat
    decreases n,
{
    if n == 0 {
        1
    } else {
        256 * pow256((n - 1) as nat)
    }
}

/// The number that bytes spell, least significant byte first.
pub open spec fn le_value(s: Seq<u8>) -> nat
    decreases s.len(),
{
    if s.len() == 0 {
        0
    } else {
        s[0] as nat + 256 * le_value(s.skip(1))
    }
}

/// The number that bytes spell, most significant byte first.
pub open spec fn be_value(s: Seq<u8>) -> nat
    decreases s.len(),
{
    if s.len() == 0 {
        0
    } else {
        256 * be_value(s.drop_last()) + s.last() as nat
    }
}

/// The `len` low bytes of `n`, least significant byte first.
pub open spec fn le_bytes(n: nat, len: nat) -> Seq<u8>
    decreases len,
{
    if len == 0 {
        Seq::empty()
    } else {
        seq![(n % 256) as u8] + le_bytes(n / 256, (len - 1) as nat)
    }
}

/// The `len` low bytes of `n`, most significant byte first.
pub open spec fn be_bytes(n: nat, len: nat) -> Seq<u8>
    decreases len,
{
    if len == 0 {
        Seq::empty()
    } else {
        be_bytes(n / 256, (len - 1) as nat).push((n % 256) as u8)
    }
}

/// The number that bytes spell in the given order.
pub open spec fn value_of(s: Seq<u8>, order: ByteOrder) -> nat {
    match order {
        ByteOrder::Little => le_value(s),
        ByteOrder::Big => be_value(s),
    }
}

/// The `len` low bytes of `n` in the given order.
pub open spec fn bytes_of(n: nat, len: nat, order: ByteOrder) -> Seq<u8> {
    match order {
        ByteOrder::Little => le_bytes(n, len),
        ByteOrder::Big => be_bytes(n, len),
    }
}

/// The value of 32 bits read as a signed integer.
pub open spec fn signed32(v: nat) -> int {
    if v < 0x8000_0000 {
        v as int
    } else {
        v - 0x1_0000_0000
    }
}

/// The value of 64 bits read as a signed integer.
pub open spec fn signed64(v: nat) -> int {
    if v < 0x8000_0000_0000_0000 {
        v as int
    } else {
        v - 0x1_0000_0000_0000_0000
    }
}

proof fn lemma_le_bounds(s: Seq<u8>)
    ensures
        le_value(s) < pow256(s.len()),
    decreases s.len(),
{
    if s.len() > 0 {
        lemma_le_bounds(s.skip(1));
    }
}

proof fn lemma_be_bounds(s: Seq<u8>)
    ensures
        be_value(s) < pow256(s.len()),
    decreases s.len(),
{
    if s.len() > 0 {
        lemma_be_bounds(s.drop_last());
    }
}

/// Bytes spell a number below 256 to the power of their count.
pub proof fn lemma_value_bounds(s: Seq<u8>, order: ByteOrder)
    ensures
        value_of(s, order) < pow256(s.len()),
{
    lemma_le_bounds(s);
    lemma_be_bounds(s);
}

/// 256 to the small powers that the wire formats use.
pub proof fn lemma_pow256_values()
    ensures
        pow256(0) == 1,
        pow256(1) == 0x100,
        pow256(2) == 0x1_0000,
        pow256(3) == 0x100_0000,
        pow256(4) == 0x1_0000_0000,
        pow256(8) == 0x1_0000_0000_0000_0000,
{
    reveal_with_fuel(pow256, 9);
}

/// A larger power is no smaller.
pub proof fn lemma_pow256_increases(a: nat, b: nat)
    requires
        a <= b,
    ensures
        pow256(a) <= pow256(b),
    decreases b,
{
    if a < b {
        lemma_pow256_increases(a, (b - 1) as nat);
    }
}

/// Writing a number that fits and reading it back, in one byte order, gives the number.
pub proof fn law_bytes_round_trip(n: nat, len: nat, order: ByteOrder)
    requires
        n < pow256(len),
    ensures
        bytes_of(n, len, order).len() == len,
        value_of(bytes_of(n, len, order), order) == n,
    decreases len,
{
    if len > 0 {
        law_bytes_round_trip(n / 256, (len - 1) as nat, order);
        match order {
            ByteOrder::Little => {
                let rest = le_bytes(n / 256, (len - 1) as nat);
                assert(le_bytes(n, len).skip(1) =~= rest);
            },
            ByteOrder::Big => {
                let rest = be_bytes(n / 256, (len - 1) as nat);
                assert(be_bytes(n, len).drop_last() =~= rest);
            },
        }
    }
}

/// The bytes of a number are as many as asked for.
pub proof fn lemma_bytes_len(n: nat, len: nat, order: ByteOrder)
    ensures
        bytes_of(n, len, order).len() == len,
    decreases len,
{
    if len > 0 {
        lemma_bytes_len(n / 256, (len - 1) as nat, order);
    }
}

fn encode_little(n: u64, len: usize) -> (r: Vec<u8>)
    ensures
        r@ == le_bytes(n as nat, len as nat),
{
    let mut out: Vec<u8> = Vec::new();
    let mut rest: u64 = n;
    let mut i: usize = 0;
    assert(out@ + le_bytes(rest as nat, len as nat) =~= le_bytes(n as nat, len as nat));
    while i < len
        invariant
            i <= len,
            out@ + le_bytes(rest as nat, (len - i) as nat) == le_bytes(n as nat, len as nat),
        decreases len - i,
    {
        let ghost before = out@;
        let ghost tail = le_bytes((rest / 256) as nat, (len - i - 1) as nat);
        out.push((rest % 256) as u8);
        assert(out@ + tail =~= before + (seq![(rest % 256) as u8] + tail));
        rest = rest / 256;
        i = i + 1;
    }
    assert(out@ + Seq::<u8>::empty() =~= out@);
    out
}

fn encode_big(n: u64, len: usize) -> (r: Vec<u8>)
    ensures
        r@ == be_bytes(n as nat, len as nat),
    decreases len,
{
    if len == 0 {
        Vec::new()
    } else {
        let mut out = encode_big(n / 256, len - 1);
        out.push((n % 256) as u8);
        out
    }
}

/// Writes the `len` low bytes of `n` in the given order.
pub fn encode(n: u64, len: usize, order: ByteOrder) -> (r: Vec<u8>)
    ensures
        r@ == bytes_of(n as nat, len as nat, order),
{
    match order {
        ByteOrder::Little => encode_little(n, len),
        ByteOrder::Big => encode_big(n, len),
    }
}

/// Reads the number that up to eight bytes spell in the given order.
pub fn decode(bytes: &[u8], order: ByteOrder) -> (r: u64)
    requires
        bytes@.len() <= 8,
    ensures
        r == value_of(bytes@, order),
{
    let mut value: u64 = 0;
    match order {
        ByteOrder::Little => {
            let mut i: usize = bytes.len();
            assert(bytes@.skip(i as int) =~= Seq::<u8>::empty());
            while i > 0
                invariant
                    i <= bytes@.len() <= 8,
                    value == le_value(bytes@.skip(i as int)),
                decreases i,
            {
                let ghost longer = bytes@.skip(i - 1);
                proof {
                    assert(longer.skip(1) =~= bytes@.skip(i as int));
                    lemma_le_bounds(longer);
                    lemma_pow256_increases(longer.len(), 8);
                    lemma_pow256_values();
                }
                i = i - 1;
                value = value * 256 + bytes[i] as u64;
            }
            assert(bytes@.skip(0) =~= bytes@);
        },
        ByteOrder::Big => {
            let mut i: usize = 0;
            assert(bytes@.take(0) =~= Seq::<u8>::empty());
            while i < bytes.len()
                invariant
                    i <= bytes@.len() <= 8,
                    value == be_value(bytes@.take(i as int)),
                decreases bytes@.len() - i,
            {
                let ghost longer = bytes@.take(i + 1);
                proof {
                    assert(longer.drop_last() =~= bytes@.take(i as int));
                    lemma_be_bounds(longer);
                    lemma_pow256_increases(longer.len(), 8);
                    lemma_pow256_values();
                }
                value = value * 256 + bytes[i] as u64;
                i = i + 1;
            }
            assert(bytes@.take(i as int) =~= bytes@);
        },
    }
    value
}

/// Reads a 32-bit number as a signed integer of two's complement.
pub fn to_signed32(v: u64) -> (r: i32)
    requires
        v <= 0xffff_ffff,
    ensures
        r == signed32(v as nat),
{
    if v < 0x8000_0000 {
        v as i32
    } else {
        (v as i64 - 0x1_0000_0000) as i32
    }
}

/// Reads a 64-bit number as a signed integer of two's complement.
pub fn to_signed64(v: u64) -> (r: i64)
    ensures
        r == signed64(v as nat),
{
    if v < 0x8000_0000_0000_0000 {
        v as i64
    } else {
        (v as i128 - 0x1_0000_0000_0000_0000) as i64
    }
}

/// In either order every byte is worth 256 times the one before it in significance, with the least
/// significant first or last.
pub proof fn law_bytes_in_order(n: nat, len: nat)
    ensures
        bytes_of(n, len + 1, ByteOrder::Little).len() > 0,
        bytes_of(n, len + 1, ByteOrder::Little)[0] == n % 256,
        bytes_of(n, len + 1, ByteOrder::Little).skip(1) == bytes_of(
            n / 256,
            len,
            ByteOrder::Little,
        ),
        bytes_of(n, len + 1, ByteOrder::Big).len() > 0,
        bytes_of(n, len + 1, ByteOrder::Big).last() == n % 256,
        bytes_of(n, len + 1, ByteOrder::Big).drop_last() == bytes_of(n / 256, len, ByteOrder::Big),
{
    assert(bytes_of(n, len + 1, ByteOrder::Little).skip(1) =~= bytes_of(
        n / 256,
        len,
        ByteOrder::Little,
    ));
    assert(bytes_of(n, len + 1, ByteOrder::Big).drop_last() =~= bytes_of(
        n / 256,
        len,
        ByteOrder::Big,
    ));
}

/// A signed number lies within its range and differs from the unsigned one by a multiple of it.
pub proof fn law_signed_numbers(v: nat)
    ensures
        v < 0x1_0000_0000 ==> -0x8000_0000 <= signed32(v) < 0x8000_0000 && (v - signed32(v))
            % 0x1_0000_0000 == 0,
        v < 0x8000_0000 ==> signed32(v) == v,
        v < 0x1_0000_0000_0000_0000 ==> -0x8000_0000_0000_0000 <= signed64(v)
            < 0x8000_0000_0000_0000 && (v - signed64(v)) % 0x1_0000_0000_0000_0000 == 0,
        v < 0x8000_0000_0000_0000 ==> signed64(v) == v,
{
}

} // verus!
