//! Little- and big-endian integers in byte sequences.

use vstd::prelude::*;

verus! {

/// The value of two bytes read as a little-endian unsigned number.
pub open spec fn u16_le(b0: u8, b1: u8) -> int {
    b0 + 256 * b1
}

/// The value of four bytes read as a little-endian unsigned number.
pub open spec fn u32_le(b0: u8, b1: u8, b2: u8, b3: u8) -> int {
    b0 + 256 * b1 + 65536 * b2 + 16777216 * b3
}

/// A 16-bit pattern `u` (`0 <= u < 2^16`) read in two's complement.
pub open spec fn signed16(u: int) -> int {
    if u < 0x8000 {
        u
    } else {
        u - 0x1_0000
    }
}

/// A 32-bit pattern `u` (`0 <= u < 2^32`) read in two's complement.
pub open spec fn signed32(u: int) -> int {
    if u < 0x8000_0000 {
        u
    } else {
        u - 0x1_0000_0000
    }
}

/// The two bytes of `v` (taken modulo `2^16`), least significant first.
pub open spec fn le_bytes16(v: int) -> Seq<u8> {
    seq![(v % 256) as u8, ((v / 256) % 256) as u8]
}

/// The four bytes of `v` (taken modulo `2^32`), least significant first.
pub open spec fn le_bytes32(v: int) -> Seq<u8> {
    seq![
        (v % 256) as u8,
        ((v / 256) % 256) as u8,
        ((v / 65536) % 256) as u8,
        ((v / 16777216) % 256) as u8,
    ]
}

/// The four bytes of `v` (taken modulo `2^32`), most significant first.
pub open spec fn be_bytes32(v: int) -> Seq<u8> {
    seq![
        ((v / 16777216) % 256) as u8,
        ((v / 65536) % 256) as u8,
        ((v / 256) % 256) as u8,
        (v % 256) as u8,
    ]
}

/// Reads an unsigned 16-bit number stored least significant byte first.
pub fn read_u16_le(b0: u8, b1: u8) -> (r: u16)
    ensures
        r == u16_le(b0, b1),
{
    b0 as u16 + (b1 as u16) * 256
}

/// Reads a signed 16-bit number stored least significant byte first.
pub fn read_i16_le(b0: u8, b1: u8) -> (r: i16)
    ensures
        r == signed16(u16_le(b0, b1)),
{
    let u: u16 = read_u16_le(b0, b1);
    if u < 0x8000 {
        u as i16
    } else {
        (u as i32 - 0x1_0000) as i16
    }
}

/// Reads an unsigned 32-bit number stored least significant byte first.
pub fn read_u32_le(b0: u8, b1: u8, b2: u8, b3: u8) -> (r: u32)
    ensures
        r == u32_le(b0, b1, b2, b3),
{
    b0 as u32 + (b1 as u32) * 256 + (b2 as u32) * 65536 + (b3 as u32) * 16777216
}

/// Reads a signed 32-bit number stored least significant byte first.
pub fn read_i32_le(b0: u8, b1: u8, b2: u8, b3: u8) -> (r: i32)
    ensures
        r == signed32(u32_le(b0, b1, b2, b3)),
{
    let u: u32 = read_u32_le(b0, b1, b2, b3);
    if u < 0x8000_0000 {
        u as i32
    } else {
        (u as i64 - 0x1_0000_0000) as i32
    }
}

/// The bytes of `v`, least significant first.
pub fn u16_to_le_bytes(v: u16) -> (r: [u8; 2])
    ensures
        r@ == le_bytes16(v as int),
{
    let r: [u8; 2] = [(v % 256) as u8, ((v / 256) % 256) as u8];
    assert(r@ =~= le_bytes16(v as int));
    r
}

/// The bytes of `v`, least significant first.
pub fn u32_to_le_bytes(v: u32) -> (r: [u8; 4])
    ensures
        r@ == le_bytes32(v as int),
{
    let r: [u8; 4] = [
        (v % 256) as u8,
        ((v / 256) % 256) as u8,
        ((v / 65536) % 256) as u8,
        ((v / 16777216) % 256) as u8,
    ];
    assert(r@ =~= le_bytes32(v as int));
    r
}

/// The bytes of `v`, most significant first.
pub fn u32_to_be_bytes(v: u32) -> (r: [u8; 4])
    ensures
        r@ == be_bytes32(v as int),
{
    let r: [u8; 4] = [
        ((v / 16777216) % 256) as u8,
        ((v / 65536) % 256) as u8,
        ((v / 256) % 256) as u8,
        (v % 256) as u8,
    ];
    assert(r@ =~= be_bytes32(v as int));
    r
}

/// Reading back the bytes of a 16-bit value gives the value.
pub proof fn lemma_le16_roundtrip(v: int)
    requires
        0 <= v < 0x1_0000,
    ensures
        u16_le(le_bytes16(v)[0], le_bytes16(v)[1]) == v,
{
    assert(((v % 256) as u8) as int + 256 * (((v / 256) % 256) as u8) as int == v) by (nonlinear_arith)
        requires
            0 <= v < 0x1_0000,
    ;
}

/// Reading back the little-endian bytes of a 32-bit value gives the value.
pub proof fn lemma_le32_roundtrip(v: int)
    requires
        0 <= v < 0x1_0000_0000,
    ensures
        u32_le(le_bytes32(v)[0], le_bytes32(v)[1], le_bytes32(v)[2], le_bytes32(v)[3]) == v,
{
    assert((v % 256) + 256 * ((v / 256) % 256) + 65536 * ((v / 65536) % 256) + 16777216 * ((v
        / 16777216) % 256) == v) by (nonlinear_arith)
        requires
            0 <= v < 0x1_0000_0000,
    ;
}

/// Reading back the little-endian bytes of a signed 16-bit value, in two's
/// complement, gives the value.
pub proof fn lemma_le16_signed_roundtrip(v: int)
    requires
        -0x8000 <= v < 0x8000,
    ensures
        signed16(u16_le(le_bytes16(v)[0], le_bytes16(v)[1])) == v,
{
    if v >= 0 {
        lemma_le16_roundtrip(v);
    } else {
        let w = v + 0x1_0000;
        lemma_le16_roundtrip(w);
        assert(v % 256 == w % 256 && (v / 256) % 256 == (w / 256) % 256) by (nonlinear_arith)
            requires
                w == v + 0x1_0000,
        ;
    }
}

/// Reading back the little-endian bytes of a signed 32-bit value, in two's
/// complement, gives the value.
pub proof fn lemma_le32_signed_roundtrip(v: int)
    requires
        -0x8000_0000 <= v < 0x8000_0000,
    ensures
        signed32(
            u32_le(le_bytes32(v)[0], le_bytes32(v)[1], le_bytes32(v)[2], le_bytes32(v)[3]),
        ) == v,
{
    if v >= 0 {
        lemma_le32_roundtrip(v);
    } else {
        let w = v + 0x1_0000_0000;
        lemma_le32_roundtrip(w);
        assert(v % 256 == w % 256 && (v / 256) % 256 == (w / 256) % 256 && (v / 65536) % 256 == (w
            / 65536) % 256 && (v / 16777216) % 256 == (w / 16777216) % 256) by (nonlinear_arith)
            requires
                w == v + 0x1_0000_0000,
        ;
    }
}

/// Reading back the big-endian bytes of a 32-bit value gives the value.
pub proof fn lemma_be32_roundtrip(v: int)
    requires
        0 <= v < 0x1_0000_0000,
    ensures
        u32_le(be_bytes32(v)[3], be_bytes32(v)[2], be_bytes32(v)[1], be_bytes32(v)[0]) == v,
{
    lemma_le32_roundtrip(v);
}

} // verus!
