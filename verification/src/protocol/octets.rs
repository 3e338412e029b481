//! Network byte order: how integers are laid out as bytes, and read back.

use vstd::prelude::*;

verus! {

/// The two bytes of `n`, most significant first.
pub open spec fn be16(n: u16) -> Seq<u8> {
    seq![(n / 0x100) as u8, (n % 0x100) as u8]
}

/// The four bytes of `n`, most significant first.
pub open spec fn be32(n: u32) -> Seq<u8> {
    seq![
        (n / 0x100_0000) as u8,
        (n / 0x1_0000 % 0x100) as u8,
        (n / 0x100 % 0x100) as u8,
        (n % 0x100) as u8,
    ]
}

/// The two's-complement bit pattern of `n`, read as an unsigned integer.
pub open spec fn bits_of(n: i32) -> u32 {
    if n >= 0 {
        n as u32
    } else {
        (n + 0x1_0000_0000) as u32
    }
}

/// The integer whose two's-complement bit pattern is `bits`.
pub open spec fn from_bits(bits: u32) -> i32 {
    if bits < 0x8000_0000 {
        bits as i32
    } else {
        (bits - 0x1_0000_0000) as i32
    }
}

/// The four bytes of the two's-complement pattern of `n`, most significant first.
pub open spec fn be_i32(n: i32) -> Seq<u8> {
    be32(bits_of(n))
}

/// The unsigned integer that the two bytes of `s` from `i` on spell.
pub open spec fn u16_at(s: Seq<u8>, i: int) -> u16 {
    (s[i] * 0x100 + s[i + 1]) as u16
}

/// The unsigned integer that the four bytes of `s` from `i` on spell.
pub open spec fn u32_at(s: Seq<u8>, i: int) -> u32 {
    (s[i] * 0x100_0000 + s[i + 1] * 0x1_0000 + s[i + 2] * 0x100 + s[i + 3]) as u32
}

/// The signed integer that the four bytes of `s` from `i` on spell.
pub open spec fn i32_at(s: Seq<u8>, i: int) -> i32 {
    from_bits(u32_at(s, i))
}

/// Reads the unsigned integer at offset `at`.
pub fn get_u32(buf: &[u8], at: usize) -> (n: u32)
    requires
        at + 4 <= buf@.len(),
    ensures
        n == u32_at(buf@, at as int),
{
    buf[at] as u32 * 0x100_0000 + buf[at + 1] as u32 * 0x1_0000 + buf[at + 2] as u32 * 0x100
        + buf[at + 3] as u32
}

/// The bit pattern of `n`.
pub fn bits_of_int(n: i32) -> (bits: u32)
    ensures
        bits == bits_of(n),
{
    if n >= 0 {
        n as u32
    } else {
        (n as i64 + 0x1_0000_0000i64) as u32
    }
}

/// The integer whose bit pattern is `bits`.
pub fn int_of_bits(bits: u32) -> (n: i32)
    ensures
        n == from_bits(bits),
{
    if bits < 0x8000_0000 {
        bits as i32
    } else {
        (bits as i64 - 0x1_0000_0000i64) as i32
    }
}

/// Reads the signed integer at offset `at`.
pub fn get_i32(buf: &[u8], at: usize) -> (n: i32)
    requires
        at + 4 <= buf@.len(),
    ensures
        n == i32_at(buf@, at as int),
{
    int_of_bits(get_u32(buf, at))
}

/// Writing a 16-bit integer and reading it back gives the integer.
pub proof fn lemma_u16_round_trip(n: u16)
    ensures
        u16_at(be16(n), 0) == n,
{
}

/// Writing a 32-bit integer and reading it back gives the integer.
pub proof fn lemma_u32_round_trip(n: u32)
    ensures
        u32_at(be32(n), 0) == n,
{
}

/// Writing a signed integer and reading it back gives the integer.
pub proof fn lemma_i32_round_trip(n: i32)
    ensures
        from_bits(bits_of(n)) == n,
        i32_at(be_i32(n), 0) == n,
{
    lemma_u32_round_trip(bits_of(n));
}

/// Every bit pattern is the pattern of the integer it stands for.
pub proof fn lemma_bits_round_trip(bits: u32)
    ensures
        bits_of(from_bits(bits)) == bits,
{
}

/// Any two bytes are the bytes of the integer that they spell.
pub proof fn lemma_be16_at(s: Seq<u8>, i: int)
    requires
        0 <= i <= s.len() - 2,
    ensures
        be16(u16_at(s, i)) == s.subrange(i, i + 2),
{
    assert(be16(u16_at(s, i)) =~= s.subrange(i, i + 2));
}

/// The digits of a number in base 256 are found again by dividing.
proof fn lemma_digits(a: u8, b: u8, c: u8, d: u8)
    ensures
        ({
            let n = (a * 0x100_0000 + b * 0x1_0000 + c * 0x100 + d) as u32;
            &&& n / 0x100_0000 == a
            &&& n / 0x1_0000 % 0x100 == b
            &&& n / 0x100 % 0x100 == c
            &&& n % 0x100 == d
        }),
{
    let n = (a * 0x100_0000 + b * 0x1_0000 + c * 0x100 + d) as u32;
    assert(n == a * 0x100_0000 + b * 0x1_0000 + c * 0x100 + d);
    assert(n / 0x100_0000 == a);
    assert(n / 0x1_0000 == a * 0x100 + b);
    assert(n / 0x100 == a * 0x1_0000 + b * 0x100 + c);
}

/// Any four bytes are the bytes of the integer that they spell.
pub proof fn lemma_be32_at(s: Seq<u8>, i: int)
    requires
        0 <= i <= s.len() - 4,
    ensures
        be32(u32_at(s, i)) == s.subrange(i, i + 4),
{
    lemma_digits(s[i], s[i + 1], s[i + 2], s[i + 3]);
    assert(be32(u32_at(s, i)) =~= s.subrange(i, i + 4));
}

} // verus!
